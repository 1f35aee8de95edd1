//! Windows security identifiers: their byte geometry, their text form and
//! the representations that borrow or own them.
//!
//! An identifier is a revision byte, a six-byte authority and between one
//! and fifteen 32-bit sub-authorities. Every representation in this crate
//! is described by the same mathematical value, [`sid::SidValue`], and all
//! contracts are stated over it.
pub mod const_sid;
pub mod parsing;
pub mod security_identifier;
pub mod sid;
pub mod sid_identifier_authority;
pub mod sid_lookup;
pub mod sid_size_info;
pub mod stack_sid;
pub mod token_error;
pub mod utils;
pub mod well_known;

pub use const_sid::ConstSid;
pub use parsing::InvalidSidFormat;
pub use security_identifier::SecurityIdentifier;
pub use sid::Sid;
pub use sid_identifier_authority::SidIdentifierAuthority;
pub use sid_size_info::SidSizeInfo;
pub use stack_sid::StackSid;
pub use token_error::TokenError;
