//! Byte geometry of an identifier: how many bytes a given number of
//! sub-authorities occupies, and back.
use crate::utils::{sub_authority_size_guard, valid_count};
use vstd::prelude::*;

verus! {

/// Bytes taken by the fixed header: revision, count and the authority.
pub const SID_HEAD_SIZE: usize = 8;

/// Alignment of the header, which is that of a sub-authority.
pub const SID_HEAD_ALIGN: usize = 4;

/// Bytes taken by one sub-authority.
pub const SUB_AUTHORITY_SIZE: usize = 4;

/// Number of bytes of an identifier with `count` sub-authorities.
pub open spec fn full_size(count: int) -> int {
    8 + 4 * count
}

/// Whether `size` is the byte length of some identifier.
pub open spec fn valid_full_size(size: int) -> bool {
    exists|count: int| valid_count(count) && size == #[trigger] full_size(count)
}

/// Size and alignment of a block of memory.
#[derive(Clone, Copy, Debug, PartialEq, Eq, Structural)]
pub struct Layout {
    size: usize,
    align: usize,
}

impl Layout {
    /// The size as a mathematical integer.
    pub closed spec fn spec_size(self) -> int {
        self.size as int
    }

    /// The alignment as a mathematical integer.
    pub closed spec fn spec_align(self) -> int {
        self.align as int
    }

    /// Number of bytes of the block.
    pub fn size(&self) -> (size: usize)
        ensures
            size == self.spec_size(),
    {
        self.size
    }

    /// Alignment of the block, in bytes.
    pub fn align(&self) -> (align: usize)
        ensures
            align == self.spec_align(),
    {
        self.align
    }
}

/// A number of sub-authorities known to be valid.
#[derive(Clone, Copy, Debug, PartialEq, Eq, Structural, PartialOrd, Ord, Hash)]
pub struct SidSizeInfo {
    sub_authority_count: u8,
}

impl SidSizeInfo {
    #[verifier::type_invariant]
    spec fn inv(self) -> bool {
        valid_count(self.sub_authority_count as int)
    }

    /// The number of sub-authorities this value stands for.
    pub closed spec fn count(self) -> int {
        self.sub_authority_count as int
    }

    /// The geometry of the smallest identifier.
    pub fn smallest() -> (info: Self)
        ensures
            info.count() == 1,
    {
        SidSizeInfo { sub_authority_count: 1 }
    }

    /// The geometry of the largest identifier.
    pub fn largest() -> (info: Self)
        ensures
            info.count() == 15,
    {
        SidSizeInfo { sub_authority_count: 15 }
    }

    /// Accepts `sub_authority_count` when it lies between one and fifteen.
    pub fn from_count(sub_authority_count: u8) -> (info: Option<Self>)
        ensures
            info is Some <==> valid_count(sub_authority_count as int),
            info matches Some(i) ==> i.count() == sub_authority_count,
    {
        if sub_authority_size_guard(sub_authority_count as usize) {
            Some(SidSizeInfo { sub_authority_count })
        } else {
            None
        }
    }

    /// The number of sub-authorities, always between one and fifteen.
    pub fn get_sub_authority_count(self) -> (count: u8)
        ensures
            count == self.count(),
            valid_count(count as int),
    {
        proof {
            use_type_invariant(&self);
        }
        self.sub_authority_count
    }

    /// Recovers the geometry from the byte length of a whole identifier.
    ///
    /// Lengths below the smallest identifier, above the largest one, or that
    /// leave a partial sub-authority are refused.
    pub fn from_full_size(size: usize) -> (info: Option<Self>)
        ensures
            info is Some <==> valid_full_size(size as int),
            info matches Some(i) ==> full_size(i.count()) == size,
    {
        if size < 12 || 68 < size {
            assert(!valid_full_size(size as int));
            return None;
        }
        let remaining: usize = size - SID_HEAD_SIZE;
        if remaining % SUB_AUTHORITY_SIZE != 0 {
            assert(!valid_full_size(size as int));
            return None;
        }
        let sub_authority_count: usize = remaining / SUB_AUTHORITY_SIZE;
        assert(size == full_size(sub_authority_count as int));
        Self::from_count(sub_authority_count as u8)
    }

    /// Number of bytes of an identifier with this many sub-authorities.
    pub fn get_full_size(&self) -> (size: usize)
        ensures
            size == full_size(self.count()),
    {
        self.get_layout().size()
    }

    /// Size and alignment of an identifier with this many sub-authorities.
    ///
    /// The size is the header followed by the sub-authorities, which is
    /// already a multiple of the alignment.
    pub fn get_layout(&self) -> (layout: Layout)
        ensures
            layout.spec_size() == full_size(self.count()),
            layout.spec_align() == 4,
    {
        proof {
            use_type_invariant(self);
        }
        let count: usize = self.sub_authority_count as usize;
        Layout { size: SID_HEAD_SIZE + count * SUB_AUTHORITY_SIZE, align: SID_HEAD_ALIGN }
    }
}

/// The size of an identifier is eight bytes and four more for each
/// sub-authority, and no other count gives the same size: recovering the
/// count from the size of a layout gives the count the layout was made for.
pub proof fn lemma_full_size_determines_count(count: int, other: int)
    requires
        valid_count(count),
    ensures
        full_size(count) == 8 + 4 * count,
        valid_full_size(full_size(count)),
        full_size(other) == full_size(count) ==> other == count,
{
}

/// Two geometries of the same size are the same geometry: what is
/// recovered from the size of a layout is what the layout was made from.
pub proof fn lemma_size_determines_info(info: SidSizeInfo, back: SidSizeInfo)
    requires
        full_size(back.count()) == full_size(info.count()),
    ensures
        back == info,
{
}

} // verus!
