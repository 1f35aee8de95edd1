//! The ways in which reading the identifier of the current user from its
//! process token may fail, and the checks that tell them apart.
use crate::parsing::{decimal, push_decimal, string_push};
use vstd::prelude::*;
use vstd::string::StringExecFns;

verus! {

/// Why the identifier of the current user could not be read.
#[derive(Clone, Copy, Debug, PartialEq, Eq, Structural)]
pub enum TokenError {
    /// The token of the process could not be opened; the system's code
    /// says why.
    OpenTokenFailed(u32),
    /// Asking for the size of the answer did not fail, so that the size is
    /// not known.
    GetTokenSizeFailed,
    /// A buffer of fixed size was too small for the answer.
    BufferTooSmall,
    /// The user of the token could not be read; the system's code says
    /// why.
    GetTokenInfoFailed(u32),
}

impl TokenError {
    /// The error in words.
    pub open spec fn spec_text(self) -> Seq<char> {
        match self {
            TokenError::OpenTokenFailed(code) => "OpenProcessToken failed (error "@ + decimal(
                code as nat,
            ) + seq![')'],
            TokenError::GetTokenSizeFailed => "Failed to determine TokenUser buffer size"@,
            TokenError::BufferTooSmall => "Static buffer too small for TokenUser"@,
            TokenError::GetTokenInfoFailed(code) => "GetTokenInformation failed (error "@
                + decimal(code as nat) + seq![')'],
        }
    }

    /// The error in words.
    pub fn to_string(&self) -> (text: String)
        ensures
            text@ == self.spec_text(),
    {
        match self {
            TokenError::OpenTokenFailed(code) => {
                let mut text = "OpenProcessToken failed (error ".to_owned();
                push_decimal(&mut text, *code as u64);
                string_push(&mut text, ')');
                text
            },
            TokenError::GetTokenSizeFailed => "Failed to determine TokenUser buffer size".to_owned(),
            TokenError::BufferTooSmall => "Static buffer too small for TokenUser".to_owned(),
            TokenError::GetTokenInfoFailed(code) => {
                let mut text = "GetTokenInformation failed (error ".to_owned();
                push_decimal(&mut text, *code as u64);
                string_push(&mut text, ')');
                text
            },
        }
    }
}

/// After opening the token: a result of zero is a failure, with the code
/// that the system recorded.
pub fn check_open(result: i32, last_error: u32) -> (r: Result<(), TokenError>)
    ensures
        r == (if result == 0 {
            Err::<(), TokenError>(TokenError::OpenTokenFailed(last_error))
        } else {
            Ok(())
        }),
{
    if result == 0 {
        Err(TokenError::OpenTokenFailed(last_error))
    } else {
        Ok(())
    }
}

/// After asking for the size of the answer without a buffer: the call is
/// meant to fail, and a result other than zero leaves the size unknown.
pub fn check_size_query(result: i32) -> (r: Result<(), TokenError>)
    ensures
        r == (if result != 0 {
            Err::<(), TokenError>(TokenError::GetTokenSizeFailed)
        } else {
            Ok(())
        }),
{
    if result != 0 {
        Err(TokenError::GetTokenSizeFailed)
    } else {
        Ok(())
    }
}

/// After asking for the answer with a buffer: a result of zero is a
/// failure, with the code that the system recorded.
pub fn check_fill(result: i32, last_error: u32) -> (r: Result<(), TokenError>)
    ensures
        r == (if result == 0 {
            Err::<(), TokenError>(TokenError::GetTokenInfoFailed(last_error))
        } else {
            Ok(())
        }),
{
    if result == 0 {
        Err(TokenError::GetTokenInfoFailed(last_error))
    } else {
        Ok(())
    }
}

} // verus!
