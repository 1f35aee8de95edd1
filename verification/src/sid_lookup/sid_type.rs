//! The kinds of account that an identifier may name.
use vstd::prelude::*;

verus! {

/// What kind of account an identifier names, as an account lookup reports
/// it.
#[derive(Clone, Copy, Debug, PartialEq, Eq, Structural)]
pub enum SidType {
    /// A user account.
    User,
    /// A domain.
    Domain,
    /// An alias, which is a local group.
    Alias,
    /// A well-known group, such as everyone.
    WellKnownGroup,
    /// An account that has been deleted.
    DeletedAccount,
    /// Not a valid account.
    Invalid,
    /// A kind that could not be determined.
    Unknown,
    /// A computer.
    Computer,
    /// A mandatory integrity label.
    Label,
    /// A logon session.
    LogonSession,
}

/// A number that stands for no kind of account.
#[derive(Clone, Copy, Debug, PartialEq, Eq, Structural)]
pub struct TryFromPrimitiveError {
    /// The number that was refused.
    pub number: i32,
}

impl SidType {
    /// The number that stands for this kind.
    pub open spec fn spec_number(self) -> i32 {
        match self {
            SidType::User => 1,
            SidType::Domain => 3,
            SidType::Alias => 4,
            SidType::WellKnownGroup => 5,
            SidType::DeletedAccount => 6,
            SidType::Invalid => 7,
            SidType::Unknown => 8,
            SidType::Computer => 9,
            SidType::Label => 10,
            SidType::LogonSession => 11,
        }
    }

    /// The kind that `number` stands for, if any.
    pub open spec fn of_number(number: i32) -> Option<SidType> {
        if number == 1 {
            Some(SidType::User)
        } else if number == 3 {
            Some(SidType::Domain)
        } else if number == 4 {
            Some(SidType::Alias)
        } else if number == 5 {
            Some(SidType::WellKnownGroup)
        } else if number == 6 {
            Some(SidType::DeletedAccount)
        } else if number == 7 {
            Some(SidType::Invalid)
        } else if number == 8 {
            Some(SidType::Unknown)
        } else if number == 9 {
            Some(SidType::Computer)
        } else if number == 10 {
            Some(SidType::Label)
        } else if number == 11 {
            Some(SidType::LogonSession)
        } else {
            None
        }
    }

    /// The kind that `number` stands for, or the number back where it
    /// stands for none.
    pub fn try_from_primitive(number: i32) -> (r: Result<SidType, TryFromPrimitiveError>)
        ensures
            r is Ok <==> Self::of_number(number) is Some,
            r matches Ok(kind) ==> Self::of_number(number) == Some(kind),
            r matches Err(e) ==> e.number == number,
    {
        match number {
            1 => Ok(SidType::User),
            3 => Ok(SidType::Domain),
            4 => Ok(SidType::Alias),
            5 => Ok(SidType::WellKnownGroup),
            6 => Ok(SidType::DeletedAccount),
            7 => Ok(SidType::Invalid),
            8 => Ok(SidType::Unknown),
            9 => Ok(SidType::Computer),
            10 => Ok(SidType::Label),
            11 => Ok(SidType::LogonSession),
            _ => Err(TryFromPrimitiveError { number }),
        }
    }

    /// The number that stands for this kind.
    pub fn into_primitive(self) -> (number: i32)
        ensures
            number == self.spec_number(),
            Self::of_number(number) == Some(self),
    {
        match self {
            SidType::User => 1,
            SidType::Domain => 3,
            SidType::Alias => 4,
            SidType::WellKnownGroup => 5,
            SidType::DeletedAccount => 6,
            SidType::Invalid => 7,
            SidType::Unknown => 8,
            SidType::Computer => 9,
            SidType::Label => 10,
            SidType::LogonSession => 11,
        }
    }
}

/// A kind and its number determine each other.
pub proof fn lemma_sid_type_number(kind: SidType, number: i32)
    ensures
        SidType::of_number(kind.spec_number()) == Some(kind),
        SidType::of_number(number) == Some(kind) ==> kind.spec_number() == number,
{
}

impl TryFrom<i32> for SidType {
    type Error = TryFromPrimitiveError;

    fn try_from(number: i32) -> (r: Result<SidType, TryFromPrimitiveError>) {
        SidType::try_from_primitive(number)
    }
}

impl vstd::std_specs::convert::TryFromSpecImpl<i32> for SidType {
    open spec fn obeys_try_from_spec() -> bool {
        true
    }

    open spec fn try_from_spec(number: i32) -> Result<SidType, TryFromPrimitiveError> {
        match SidType::of_number(number) {
            Some(kind) => Ok(kind),
            None => Err(TryFromPrimitiveError { number }),
        }
    }
}

impl From<SidType> for i32 {
    fn from(kind: SidType) -> (number: i32) {
        kind.into_primitive()
    }
}

impl vstd::std_specs::convert::FromSpecImpl<SidType> for i32 {
    open spec fn obeys_from_spec() -> bool {
        true
    }

    open spec fn from_spec(kind: SidType) -> i32 {
        kind.spec_number()
    }
}

} // verus!
