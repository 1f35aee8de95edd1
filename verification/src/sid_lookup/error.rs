//! The ways in which looking an account up may fail.
use vstd::prelude::*;

verus! {

/// The system's code for a request that was denied.
pub const ERROR_ACCESS_DENIED: u32 = 5;

/// The system's code for a machine that could not be found.
pub const ERROR_BAD_NETPATH: u32 = 53;

/// The system's code for an argument that makes no sense.
pub const ERROR_INVALID_PARAMETER: u32 = 87;

/// The system's code for a buffer that is too small for the answer.
pub const ERROR_INSUFFICIENT_BUFFER: u32 = 122;

/// The system's code for an identifier that names no account.
pub const ERROR_NONE_MAPPED: u32 = 1332;

/// The system's code for an identifier that is malformed.
pub const ERROR_INVALID_SID: u32 = 1337;

/// The system's code for a domain that does not exist or cannot be
/// reached.
pub const ERROR_NO_SUCH_DOMAIN: u32 = 1355;

/// The system's code for a trust relationship that failed.
pub const ERROR_TRUSTED_DOMAIN_FAILURE: u32 = 1788;

/// Why an account lookup failed.
#[derive(Clone, Copy, Debug, PartialEq, Eq, Structural, Hash)]
pub enum Error {
    /// The identifier is malformed.
    InvalidSid,
    /// An argument makes no sense.
    InvalidParameter,
    /// The identifier names no account on the machine asked.
    NoneMapped,
    /// The lookup was denied.
    AccessDenied,
    /// The machine asked could not be found.
    NetworkPathNotFound,
    /// The domain does not exist or cannot be reached.
    NoSuchDomain,
    /// The trust relationship with the domain failed.
    TrustedRelationshipFailure,
    /// Any other code of the system.
    Other(u32),
}

impl Error {
    /// The error that the system's code `code` stands for.
    pub open spec fn of_code(code: u32) -> Error {
        if code == ERROR_INVALID_SID {
            Error::InvalidSid
        } else if code == ERROR_INVALID_PARAMETER {
            Error::InvalidParameter
        } else if code == ERROR_NONE_MAPPED {
            Error::NoneMapped
        } else if code == ERROR_ACCESS_DENIED {
            Error::AccessDenied
        } else if code == ERROR_BAD_NETPATH {
            Error::NetworkPathNotFound
        } else if code == ERROR_NO_SUCH_DOMAIN {
            Error::NoSuchDomain
        } else if code == ERROR_TRUSTED_DOMAIN_FAILURE {
            Error::TrustedRelationshipFailure
        } else {
            Error::Other(code)
        }
    }

    /// The system's code for this error.
    pub open spec fn spec_code(self) -> u32 {
        match self {
            Error::InvalidSid => ERROR_INVALID_SID,
            Error::InvalidParameter => ERROR_INVALID_PARAMETER,
            Error::NoneMapped => ERROR_NONE_MAPPED,
            Error::AccessDenied => ERROR_ACCESS_DENIED,
            Error::NetworkPathNotFound => ERROR_BAD_NETPATH,
            Error::NoSuchDomain => ERROR_NO_SUCH_DOMAIN,
            Error::TrustedRelationshipFailure => ERROR_TRUSTED_DOMAIN_FAILURE,
            Error::Other(code) => code,
        }
    }

    /// The error that the system's code `code` stands for.
    pub fn from_code(code: u32) -> (error: Error)
        ensures
            error == Self::of_code(code),
            error.spec_code() == code,
    {
        if code == ERROR_INVALID_SID {
            Error::InvalidSid
        } else if code == ERROR_INVALID_PARAMETER {
            Error::InvalidParameter
        } else if code == ERROR_NONE_MAPPED {
            Error::NoneMapped
        } else if code == ERROR_ACCESS_DENIED {
            Error::AccessDenied
        } else if code == ERROR_BAD_NETPATH {
            Error::NetworkPathNotFound
        } else if code == ERROR_NO_SUCH_DOMAIN {
            Error::NoSuchDomain
        } else if code == ERROR_TRUSTED_DOMAIN_FAILURE {
            Error::TrustedRelationshipFailure
        } else {
            Error::Other(code)
        }
    }

    /// The system's code for this error.
    pub fn code(self) -> (code: u32)
        ensures
            code == self.spec_code(),
    {
        match self {
            Error::InvalidSid => ERROR_INVALID_SID,
            Error::InvalidParameter => ERROR_INVALID_PARAMETER,
            Error::NoneMapped => ERROR_NONE_MAPPED,
            Error::AccessDenied => ERROR_ACCESS_DENIED,
            Error::NetworkPathNotFound => ERROR_BAD_NETPATH,
            Error::NoSuchDomain => ERROR_NO_SUCH_DOMAIN,
            Error::TrustedRelationshipFailure => ERROR_TRUSTED_DOMAIN_FAILURE,
            Error::Other(code) => code,
        }
    }
}

impl From<u32> for Error {
    fn from(code: u32) -> (error: Error) {
        Error::from_code(code)
    }
}

impl vstd::std_specs::convert::FromSpecImpl<u32> for Error {
    open spec fn obeys_from_spec() -> bool {
        true
    }

    open spec fn from_spec(code: u32) -> Error {
        Error::of_code(code)
    }
}

impl From<Error> for u32 {
    fn from(error: Error) -> (code: u32) {
        error.code()
    }
}

impl vstd::std_specs::convert::FromSpecImpl<Error> for u32 {
    open spec fn obeys_from_spec() -> bool {
        true
    }

    open spec fn from_spec(error: Error) -> u32 {
        error.spec_code()
    }
}

/// What to do after asking the system to fill the buffers of a lookup.
#[derive(Clone, Copy, Debug, PartialEq, Eq, Structural)]
pub enum LookupStep {
    /// The buffers hold the answer.
    Done,
    /// The buffers were too small: ask again with the lengths reported.
    Retry,
    /// The lookup failed.
    Failed(Error),
}

/// Whether a first call without buffers shows that the system knows the
/// identifier: the call must fail, and only for want of buffers.
pub fn is_known(result: i32, last_error: u32) -> (known: bool)
    ensures
        known == (result == 0 && last_error == ERROR_INSUFFICIENT_BUFFER),
{
    if result != 0 {
        return false;
    }
    if last_error == 0 {
        return false;
    }
    match Error::from_code(last_error) {
        Error::Other(code) => code == ERROR_INSUFFICIENT_BUFFER,
        _ => false,
    }
}

/// What to do after a call with buffers, given what the call returned and
/// the error the system recorded.
pub fn next_step(result: i32, last_error: u32) -> (step: LookupStep)
    ensures
        step == (if result != 0 {
            LookupStep::Done
        } else if last_error == ERROR_INSUFFICIENT_BUFFER {
            LookupStep::Retry
        } else {
            LookupStep::Failed(Error::of_code(last_error))
        }),
{
    if result != 0 {
        return LookupStep::Done;
    }
    match Error::from_code(last_error) {
        Error::Other(ERROR_INSUFFICIENT_BUFFER) => LookupStep::Retry,
        error => LookupStep::Failed(error),
    }
}

} // verus!
