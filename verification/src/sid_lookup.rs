//! What an account lookup reports about an identifier, and the rules that
//! its answers obey.
pub mod domain_and_name;
pub mod error;
pub mod sid_type;

use crate::sid_lookup::domain_and_name::DomainAndName;
use crate::sid_lookup::sid_type::{SidType, TryFromPrimitiveError};
use vstd::prelude::*;

verus! {

/// What an account lookup found for an identifier.
#[derive(Clone, Debug, PartialEq, Eq)]
pub struct SidLookup {
    /// The account that the identifier names.
    pub domain_name: DomainAndName,
    /// The kind of the account, as the number the system reported.
    pub sid_type_raw: i32,
}

impl SidLookup {
    /// The kind of the account, where the number reported stands for one.
    pub fn sid_type(&self) -> (r: Result<SidType, TryFromPrimitiveError>)
        ensures
            r is Ok <==> SidType::of_number(self.sid_type_raw) is Some,
            r matches Ok(kind) ==> SidType::of_number(self.sid_type_raw) == Some(kind),
            r matches Err(e) ==> e.number == self.sid_type_raw,
    {
        SidType::try_from_primitive(self.sid_type_raw)
    }
}

} // verus!
