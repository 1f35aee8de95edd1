//! Bounds shared by every representation of an identifier.
use crate::parsing::InvalidSidFormat;
use crate::sid::{valid_binary, Sid};
use crate::sid_size_info::SidSizeInfo;
use vstd::prelude::*;

verus! {

/// Smallest number of sub-authorities an identifier may carry.
pub const MIN_SUBAUTHORITY_COUNT: u8 = 1;

/// Largest number of sub-authorities an identifier may carry.
pub const MAX_SUBAUTHORITY_COUNT: u8 = 15;

/// Where the revision stands among the bytes of an identifier.
pub const REVISION_OFFSET: usize = 0;

/// Where the number of sub-authorities stands among the bytes of an
/// identifier.
pub const COUNT_OFFSET: usize = 1;

/// Whether `count` is a number of sub-authorities an identifier may carry.
pub open spec fn valid_count(count: int) -> bool {
    1 <= count <= 15
}

/// Tells whether `size` sub-authorities fit an identifier.
pub fn sub_authority_size_guard(size: usize) -> (ok: bool)
    ensures
        ok == valid_count(size as int),
{
    MIN_SUBAUTHORITY_COUNT as usize <= size && size <= MAX_SUBAUTHORITY_COUNT as usize
}

/// Checks that `buf` is the byte form of an identifier, reading single
/// bytes only: the revision, the count, and the length that the count
/// calls for.
pub fn validate_sid_bytes_unaligned(buf: &[u8]) -> (r: Result<(), InvalidSidFormat>)
    ensures
        r is Ok <==> valid_binary(buf@),
{
    if buf.len() < SidSizeInfo::smallest().get_layout().size() {
        return Err(InvalidSidFormat);
    }
    if buf[REVISION_OFFSET] != Sid::REVISION {
        return Err(InvalidSidFormat);
    }
    match SidSizeInfo::from_count(buf[COUNT_OFFSET]) {
        None => Err(InvalidSidFormat),
        Some(info) => {
            if buf.len() != info.get_layout().size() {
                Err(InvalidSidFormat)
            } else {
                Ok(())
            }
        },
    }
}

} // verus!
