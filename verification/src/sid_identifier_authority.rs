//! The six-byte authority of an identifier.
use std::cmp::Ordering;
use vstd::prelude::*;

verus! {

/// The authority under which an identifier was issued: six bytes, the most
/// significant first.
#[derive(Clone, Copy, Debug, Hash, Ord)]
pub struct SidIdentifierAuthority {
    /// The raw bytes, most significant first.
    pub value: [u8; 6],
}

/// The number that six bytes stand for, most significant first.
pub open spec fn be48(b: Seq<u8>) -> int
    recommends
        b.len() == 6,
{
    b[0] * 0x100_0000_0000 + b[1] * 0x1_0000_0000 + b[2] * 0x100_0000 + b[3] * 0x1_0000 + b[4]
        * 0x100 + b[5]
}

/// The six bytes, most significant first, of the low 48 bits of `n`.
pub open spec fn be48_bytes(n: int) -> Seq<u8> {
    seq![
        ((n / 0x100_0000_0000) % 256) as u8,
        ((n / 0x1_0000_0000) % 256) as u8,
        ((n / 0x100_0000) % 256) as u8,
        ((n / 0x1_0000) % 256) as u8,
        ((n / 0x100) % 256) as u8,
        (n % 256) as u8,
    ]
}

impl View for SidIdentifierAuthority {
    type V = Seq<u8>;

    open spec fn view(&self) -> Seq<u8> {
        self.value@
    }
}

impl SidIdentifierAuthority {
    /// The authority as a 48-bit number.
    pub open spec fn spec_number(self) -> int {
        be48(self@)
    }

    /// Wraps six raw bytes.
    pub fn new(value: [u8; 6]) -> (authority: Self)
        ensures
            authority.value == value,
    {
        SidIdentifierAuthority { value }
    }

    /// The null authority, `S-1-0`, of the identifier that names nobody.
    pub fn null_authority() -> (authority: Self)
        ensures
            authority@ == seq![0u8, 0, 0, 0, 0, 0],
    {
        SidIdentifierAuthority { value: [0, 0, 0, 0, 0, 0] }
    }

    /// The world authority, `S-1-1`, of the group of everyone.
    pub fn security_world_authority() -> (authority: Self)
        ensures
            authority@ == seq![0u8, 0, 0, 0, 0, 1],
    {
        SidIdentifierAuthority { value: [0, 0, 0, 0, 0, 1] }
    }

    /// The local authority, `S-1-2`, of users logged on locally.
    pub fn security_local_authority() -> (authority: Self)
        ensures
            authority@ == seq![0u8, 0, 0, 0, 0, 2],
    {
        SidIdentifierAuthority { value: [0, 0, 0, 0, 0, 2] }
    }

    /// The creator authority, `S-1-3`, of creator owner and creator group.
    pub fn security_creator_authority() -> (authority: Self)
        ensures
            authority@ == seq![0u8, 0, 0, 0, 0, 3],
    {
        SidIdentifierAuthority { value: [0, 0, 0, 0, 0, 3] }
    }

    /// The non-unique authority, `S-1-4`.
    pub fn security_non_unique_authority() -> (authority: Self)
        ensures
            authority@ == seq![0u8, 0, 0, 0, 0, 4],
    {
        SidIdentifierAuthority { value: [0, 0, 0, 0, 0, 4] }
    }

    /// The NT authority, `S-1-5`, under which most well-known identifiers
    /// are issued.
    pub fn nt_authority() -> (authority: Self)
        ensures
            authority@ == seq![0u8, 0, 0, 0, 0, 5],
    {
        SidIdentifierAuthority { value: [0, 0, 0, 0, 0, 5] }
    }

    /// The resource manager authority, `S-1-9`.
    pub fn security_resource_manager_authority() -> (authority: Self)
        ensures
            authority@ == seq![0u8, 0, 0, 0, 0, 9],
    {
        SidIdentifierAuthority { value: [0, 0, 0, 0, 0, 9] }
    }

    /// The authority as a 48-bit number.
    pub fn number(&self) -> (n: u64)
        ensures
            n == self.spec_number(),
            n < 0x1_0000_0000_0000,
    {
        let b = &self.value;
        let n: u64 = b[0] as u64 * 0x100_0000_0000 + b[1] as u64 * 0x1_0000_0000 + b[2] as u64
            * 0x100_0000 + b[3] as u64 * 0x1_0000 + b[4] as u64 * 0x100 + b[5] as u64;
        n
    }

    /// The authority whose bytes are the low 48 bits of `n`.
    pub fn from_number(n: u64) -> (authority: Self)
        ensures
            authority@ == be48_bytes(n as int),
    {
        let value: [u8; 6] = [
            ((n / 0x100_0000_0000) % 256) as u8,
            ((n / 0x1_0000_0000) % 256) as u8,
            ((n / 0x100_0000) % 256) as u8,
            ((n / 0x1_0000) % 256) as u8,
            ((n / 0x100) % 256) as u8,
            (n % 256) as u8,
        ];
        assert(value@ =~= be48_bytes(n as int));
        SidIdentifierAuthority { value }
    }
}

impl PartialEq for SidIdentifierAuthority {
    /// Two authorities are equal when their six bytes are.
    fn eq(&self, other: &Self) -> (equal: bool) {
        let mut i: usize = 0;
        while i < 6
            invariant
                0 <= i <= 6,
                forall|j: int| 0 <= j < i ==> self.value@[j] == other.value@[j],
            decreases 6 - i,
        {
            if self.value[i] != other.value[i] {
                return false;
            }
            i += 1;
        }
        assert(self.value@ =~= other.value@);
        true
    }
}

impl Eq for SidIdentifierAuthority {

}

impl vstd::std_specs::cmp::PartialEqSpecImpl for SidIdentifierAuthority {
    open spec fn obeys_eq_spec() -> bool {
        true
    }

    open spec fn eq_spec(&self, other: &Self) -> bool {
        self@ == other@
    }
}

impl PartialOrd for SidIdentifierAuthority {
    /// Authorities are ordered byte by byte from the most significant one,
    /// which is the order of the numbers they stand for.
    fn partial_cmp(&self, other: &Self) -> (order: Option<Ordering>) {
        let mine = self.number();
        let theirs = other.number();
        if mine < theirs {
            Some(Ordering::Less)
        } else if mine > theirs {
            Some(Ordering::Greater)
        } else {
            Some(Ordering::Equal)
        }
    }
}

impl vstd::std_specs::cmp::PartialOrdSpecImpl for SidIdentifierAuthority {
    open spec fn obeys_partial_cmp_spec() -> bool {
        true
    }

    open spec fn partial_cmp_spec(&self, other: &Self) -> Option<Ordering> {
        if self.spec_number() < other.spec_number() {
            Some(Ordering::Less)
        } else if self.spec_number() > other.spec_number() {
            Some(Ordering::Greater)
        } else {
            Some(Ordering::Equal)
        }
    }
}

impl Default for SidIdentifierAuthority {
    /// The null authority.
    fn default() -> (authority: Self)
        ensures
            authority@ == seq![0u8, 0, 0, 0, 0, 0],
    {
        Self::null_authority()
    }
}

impl From<[u8; 6]> for SidIdentifierAuthority {
    fn from(value: [u8; 6]) -> (authority: Self) {
        SidIdentifierAuthority { value }
    }
}

impl vstd::std_specs::convert::FromSpecImpl<[u8; 6]> for SidIdentifierAuthority {
    open spec fn obeys_from_spec() -> bool {
        true
    }

    open spec fn from_spec(value: [u8; 6]) -> Self {
        SidIdentifierAuthority { value }
    }
}

impl From<SidIdentifierAuthority> for [u8; 6] {
    fn from(authority: SidIdentifierAuthority) -> (value: Self) {
        authority.value
    }
}

impl vstd::std_specs::convert::FromSpecImpl<SidIdentifierAuthority> for [u8; 6] {
    open spec fn obeys_from_spec() -> bool {
        true
    }

    open spec fn from_spec(authority: SidIdentifierAuthority) -> Self {
        authority.value
    }
}

} // verus!
