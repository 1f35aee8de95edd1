//! The identifier as a mathematical value, its byte layout, and the
//! borrowed view through which every representation is read.
//!
//! ```text
//! offset 0: revision             (1 byte)
//! offset 1: sub-authority count  (1 byte)
//! offset 2: identifier authority (6 bytes, most significant first)
//! offset 8: sub-authorities      (4 bytes each, least significant first)
//! ```
use crate::parsing::{format_sid, lemma_parse_format, sid_text, value_of_text, well_formed_text};
use crate::sid_identifier_authority::{be48, SidIdentifierAuthority};
use crate::sid_size_info::{full_size, Layout, SidSizeInfo};
use crate::utils::valid_count;
use std::collections::hash_map::DefaultHasher;
use std::hash::Hasher;
use vstd::prelude::*;
use vstd::std_specs::hash::DefaultHasherAdditionalSpecFns;

verus! {

/// What an identifier is, whatever holds it.
pub struct SidValue {
    /// The revision of the format.
    pub revision: u8,
    /// The six bytes of the authority, most significant first.
    pub identifier_authority: Seq<u8>,
    /// The sub-authorities, in order; the last one is the relative
    /// identifier.
    pub sub_authority: Seq<u32>,
}

/// The four bytes of `x`, least significant first.
pub open spec fn le_bytes(x: u32) -> Seq<u8> {
    seq![
        (x % 0x100) as u8,
        ((x / 0x100) % 0x100) as u8,
        ((x / 0x1_0000) % 0x100) as u8,
        ((x / 0x100_0000) % 0x100) as u8,
    ]
}

/// The number that four bytes stand for, least significant first.
pub open spec fn le_value(b: Seq<u8>) -> u32
    recommends
        b.len() == 4,
{
    (b[0] + b[1] * 0x100 + b[2] * 0x1_0000 + b[3] * 0x100_0000) as u32
}

impl SidValue {
    /// Revision 1, a six-byte authority and one to fifteen sub-authorities.
    pub open spec fn valid(self) -> bool {
        &&& self.revision == 1
        &&& self.identifier_authority.len() == 6
        &&& valid_count(self.sub_authority.len() as int)
    }

    /// The bytes of the identifier: the header, then each sub-authority.
    pub open spec fn binary(self) -> Seq<u8> {
        Seq::new(
            (8 + 4 * self.sub_authority.len()) as nat,
            |i: int|
                if i == 0 {
                    self.revision
                } else if i == 1 {
                    self.sub_authority.len() as u8
                } else if i < 8 {
                    self.identifier_authority[i - 2]
                } else {
                    le_bytes(self.sub_authority[(i - 8) / 4])[(i - 8) % 4]
                },
        )
    }

    /// The identifier as text.
    pub open spec fn text(self) -> Seq<char> {
        sid_text(self.revision, self.identifier_authority, self.sub_authority)
    }

    /// What a hasher is fed: the revision, the count, the authority, then
    /// each sub-authority.
    pub open spec fn hash_stream(self) -> Seq<Seq<u8>> {
        seq![seq![self.revision], seq![self.sub_authority.len() as u8], self.identifier_authority]
            + Seq::new(self.sub_authority.len(), |k: int| le_bytes(self.sub_authority[k]))
    }

    /// The last sub-authority.
    pub open spec fn rid(self) -> u32
        recommends
            self.sub_authority.len() > 0,
    {
        self.sub_authority.last()
    }
}

/// Whether `b` is the byte form of an identifier: long enough for a
/// header, of revision 1, with a count between one and fifteen that
/// accounts for every byte.
pub open spec fn valid_binary(b: Seq<u8>) -> bool {
    &&& b.len() >= 12
    &&& b[0] == 1
    &&& valid_count(b[1] as int)
    &&& b.len() == full_size(b[1] as int)
}

/// The identifier that the bytes `b` describe.
pub open spec fn value_of_binary(b: Seq<u8>) -> SidValue
    recommends
        valid_binary(b),
{
    SidValue {
        revision: b[0],
        identifier_authority: b.subrange(2, 8),
        sub_authority: Seq::new(b[1] as nat, |k: int| le_value(b.subrange(8 + 4 * k, 12 + 4 * k))),
    }
}

/// Four bytes are the bytes of the number they stand for, and the other
/// way round.
pub proof fn lemma_le_bytes(x: u32, b: Seq<u8>)
    requires
        b.len() == 4,
    ensures
        le_bytes(x).len() == 4,
        le_value(le_bytes(x)) == x,
        le_bytes(le_value(b)) == b,
{
    let q1 = x as int / 0x100;
    let q2 = q1 / 0x100;
    let q3 = q2 / 0x100;
    assert(x as int / 0x1_0000 == q2);
    assert(x as int / 0x100_0000 == q3);
    assert(q3 < 0x100);
    assert(le_value(le_bytes(x)) == x);
    let b0 = b[0] as int;
    let b1 = b[1] as int;
    let b2 = b[2] as int;
    let b3 = b[3] as int;
    let n = b0 + b1 * 0x100 + b2 * 0x1_0000 + b3 * 0x100_0000;
    assert(le_value(b) == n);
    assert(n / 0x100 == b1 + b2 * 0x100 + b3 * 0x1_0000);
    assert(n / 0x1_0000 == b2 + b3 * 0x100);
    assert(n / 0x100_0000 == b3);
    assert(le_bytes(le_value(b)) =~= b);
}

/// The bytes of a valid identifier are well formed and describe it.
pub proof fn lemma_value_of_binary(v: SidValue)
    requires
        v.valid(),
    ensures
        valid_binary(v.binary()),
        value_of_binary(v.binary()) == v,
{
    let b = v.binary();
    let w = value_of_binary(b);
    assert(w.identifier_authority =~= v.identifier_authority);
    assert forall|k: int| 0 <= k < v.sub_authority.len() implies w.sub_authority[k]
        == v.sub_authority[k] by {
        let x = v.sub_authority[k];
        assert(b.subrange(8 + 4 * k, 12 + 4 * k) =~= le_bytes(x)) by {
            assert forall|j: int| 0 <= j < 4 implies b.subrange(8 + 4 * k, 12 + 4 * k)[j]
                == le_bytes(x)[j] by {
                assert(b[8 + 4 * k + j] == le_bytes(v.sub_authority[(4 * k + j) / 4])[(4 * k + j)
                    % 4]);
            }
        }
        lemma_le_bytes(x, le_bytes(x));
    }
    assert(w.sub_authority =~= v.sub_authority);
}

/// Well-formed bytes describe a valid identifier, whose bytes they are.
pub proof fn lemma_binary_of_value(b: Seq<u8>)
    requires
        valid_binary(b),
    ensures
        value_of_binary(b).valid(),
        value_of_binary(b).binary() == b,
{
    let v = value_of_binary(b);
    let c = v.binary();
    assert(c.len() == b.len());
    assert forall|i: int| 0 <= i < b.len() implies c[i] == b[i] by {
        if i >= 8 {
            let k = (i - 8) / 4;
            let j = (i - 8) % 4;
            let word = b.subrange(8 + 4 * k, 12 + 4 * k);
            lemma_le_bytes(0, word);
            assert(v.sub_authority[k] == le_value(word));
            assert(word[j] == b[i]);
        }
    }
    assert(c =~= b);
}

/// Two valid identifiers are the same exactly when their bytes are.
pub proof fn lemma_binary_decides_equality(a: SidValue, b: SidValue)
    requires
        a.valid(),
        b.valid(),
    ensures
        (a.binary() == b.binary()) <==> a == b,
{
    lemma_value_of_binary(a);
    lemma_value_of_binary(b);
}

/// The text of a valid identifier is well formed and reads back as that
/// identifier; writing what was read gives the same text again.
///
/// This holds where the authority fits 32 bits. A larger one is written
/// in hexadecimal, which no text may hold.
pub proof fn lemma_value_of_text(v: SidValue)
    requires
        v.valid(),
        be48(v.identifier_authority) <= 0xffff_ffff,
    ensures
        well_formed_text(v.text()),
        value_of_text(v.text()) == v,
        value_of_text(v.text()).text() == v.text(),
{
    lemma_parse_format(v.identifier_authority, v.sub_authority);
}

/// Identifiers with the same content feed a hasher the same, and so hash
/// alike from any state of the hasher, whatever holds them.
pub proof fn lemma_equal_values_hash_alike(a: SidValue, b: SidValue, state: Seq<Seq<u8>>)
    requires
        a == b,
    ensures
        a.binary() == b.binary(),
        a.hash_stream() == b.hash_stream(),
        DefaultHasher::spec_finish(state + a.hash_stream()) == DefaultHasher::spec_finish(
            state + b.hash_stream(),
        ),
{
}

/// The fixed part of an identifier: everything but the sub-authorities.
#[derive(Clone, Copy, Debug)]
pub struct SidHead {
    /// The revision of the format.
    pub revision: u8,
    /// The number of sub-authorities that follow.
    pub sub_authority_count: u8,
    /// The authority under which the identifier was issued.
    pub identifier_authority: SidIdentifierAuthority,
}

/// The four bytes of `x`, least significant first.
pub(crate) fn u32_le_bytes(x: u32) -> (b: [u8; 4])
    ensures
        b@ == le_bytes(x),
{
    let b: [u8; 4] = [
        (x % 0x100) as u8,
        ((x / 0x100) % 0x100) as u8,
        ((x / 0x1_0000) % 0x100) as u8,
        ((x / 0x100_0000) % 0x100) as u8,
    ];
    assert(b@ =~= le_bytes(x));
    b
}

/// The number that the four bytes from `at` on stand for.
pub(crate) fn u32_from_le_bytes(bytes: &[u8], at: usize) -> (x: u32)
    requires
        at + 4 <= bytes@.len(),
    ensures
        x == le_value(bytes@.subrange(at as int, at + 4)),
{
    let x: u32 = bytes[at] as u32 + bytes[at + 1] as u32 * 0x100 + bytes[at + 2] as u32 * 0x1_0000
        + bytes[at + 3] as u32 * 0x100_0000;
    x
}

/// The sub-authorities stored in `bytes` from offset 8 on.
pub(crate) fn sub_authorities_from_bytes(bytes: &[u8]) -> (sub_authority: Vec<u32>)
    requires
        valid_binary(bytes@),
    ensures
        sub_authority@ == value_of_binary(bytes@).sub_authority,
{
    let count: usize = bytes[1] as usize;
    let mut sub_authority: Vec<u32> = Vec::with_capacity(count);
    let mut k: usize = 0;
    while k < count
        invariant
            0 <= k <= count,
            count == bytes@[1],
            valid_binary(bytes@),
            sub_authority@.len() == k,
            forall|j: int|
                0 <= j < k ==> sub_authority@[j] == value_of_binary(bytes@).sub_authority[j],
        decreases count - k,
    {
        sub_authority.push(u32_from_le_bytes(bytes, 8 + 4 * k));
        k += 1;
    }
    assert(sub_authority@ =~= value_of_binary(bytes@).sub_authority);
    sub_authority
}

/// The authority stored in `bytes` at offsets 2 to 7.
pub(crate) fn authority_from_bytes(bytes: &[u8]) -> (authority: SidIdentifierAuthority)
    requires
        bytes@.len() >= 8,
    ensures
        authority@ == bytes@.subrange(2, 8),
{
    let value: [u8; 6] = [bytes[2], bytes[3], bytes[4], bytes[5], bytes[6], bytes[7]];
    assert(value@ =~= bytes@.subrange(2, 8));
    SidIdentifierAuthority::new(value)
}

/// A borrowed identifier: the header by value, the sub-authorities by
/// reference. Every owning representation is read through one of these.
#[derive(Clone, Copy, Debug)]
pub struct Sid<'a> {
    head: SidHead,
    sub_authority: &'a [u32],
}

impl<'a> View for Sid<'a> {
    type V = SidValue;

    closed spec fn view(&self) -> SidValue {
        SidValue {
            revision: self.head.revision,
            identifier_authority: self.head.identifier_authority@,
            sub_authority: self.sub_authority@,
        }
    }
}

impl<'a> Sid<'a> {
    /// The only revision in use.
    pub const REVISION: u8 = 1;

    #[verifier::type_invariant]
    spec fn inv(self) -> bool {
        &&& self.head.revision == 1
        &&& self.head.sub_authority_count == self.sub_authority@.len()
        &&& valid_count(self.sub_authority@.len() as int)
    }

    /// A view of revision 1 over the given parts.
    pub(crate) fn from_parts(
        identifier_authority: SidIdentifierAuthority,
        sub_authority: &'a [u32],
    ) -> (sid: Self)
        requires
            valid_count(sub_authority@.len() as int),
        ensures
            sid@.revision == 1,
            sid@.identifier_authority == identifier_authority@,
            sid@.sub_authority == sub_authority@,
            sid@.valid(),
    {
        Sid {
            head: SidHead {
                revision: 1,
                sub_authority_count: sub_authority.len() as u8,
                identifier_authority,
            },
            sub_authority,
        }
    }

    /// The header: revision, count and authority.
    pub fn head(&self) -> (head: SidHead)
        ensures
            head.revision == self@.revision,
            head.sub_authority_count == self@.sub_authority.len(),
            head.identifier_authority@ == self@.identifier_authority,
            self@.valid(),
    {
        proof {
            use_type_invariant(self);
        }
        self.head
    }

    /// The revision, which is 1.
    pub fn revision(&self) -> (revision: u8)
        ensures
            revision == self@.revision,
            revision == 1,
    {
        proof {
            use_type_invariant(self);
        }
        self.head.revision
    }

    /// The number of sub-authorities, between one and fifteen.
    pub fn sub_authority_count(&self) -> (count: u8)
        ensures
            count == self@.sub_authority.len(),
            valid_count(count as int),
    {
        proof {
            use_type_invariant(self);
        }
        self.head.sub_authority_count
    }

    /// The authority under which the identifier was issued.
    pub fn identifier_authority(&self) -> (authority: SidIdentifierAuthority)
        ensures
            authority@ == self@.identifier_authority,
    {
        self.head.identifier_authority
    }

    /// The sub-authorities, in order: exactly as many as the count says.
    pub fn get_sub_authorities(&self) -> (sub_authority: &'a [u32])
        ensures
            sub_authority@ == self@.sub_authority,
            valid_count(sub_authority@.len() as int),
    {
        proof {
            use_type_invariant(self);
        }
        self.sub_authority
    }

    /// The smallest layout that holds this identifier.
    pub fn get_current_min_layout(&self) -> (layout: Layout)
        ensures
            layout.spec_size() == full_size(self@.sub_authority.len() as int),
            layout.spec_align() == 4,
    {
        proof {
            use_type_invariant(self);
        }
        match SidSizeInfo::from_count(self.head.sub_authority_count) {
            Some(info) => info.get_layout(),
            None => {
                assert(false);
                SidSizeInfo::smallest().get_layout()
            },
        }
    }

    /// The bytes of the identifier: the header and exactly as many
    /// sub-authorities as it has.
    pub fn as_binary(&self) -> (bytes: Vec<u8>)
        ensures
            bytes@ == self@.binary(),
            valid_binary(bytes@),
    {
        proof {
            use_type_invariant(self);
            lemma_value_of_binary(self@);
        }
        let ghost want = self@.binary();
        let mut bytes: Vec<u8> = Vec::with_capacity(self.get_current_min_layout().size());
        bytes.push(self.head.revision);
        bytes.push(self.head.sub_authority_count);
        let mut i: usize = 0;
        while i < 6
            invariant
                0 <= i <= 6,
                want == self@.binary(),
                bytes@.len() == 2 + i,
                forall|j: int| 0 <= j < bytes@.len() ==> bytes@[j] == want[j],
            decreases 6 - i,
        {
            bytes.push(self.head.identifier_authority.value[i]);
            i += 1;
        }
        let mut k: usize = 0;
        while k < self.sub_authority.len()
            invariant
                0 <= k <= self.sub_authority@.len(),
                self.sub_authority@.len() <= 15,
                want == self@.binary(),
                bytes@.len() == 8 + 4 * k,
                forall|j: int| 0 <= j < bytes@.len() ==> bytes@[j] == want[j],
            decreases self.sub_authority@.len() - k,
        {
            let word = u32_le_bytes(self.sub_authority[k]);
            let mut j: usize = 0;
            while j < 4
                invariant
                    0 <= j <= 4,
                    0 <= k < self.sub_authority@.len(),
                    self.sub_authority@.len() <= 15,
                    want == self@.binary(),
                    word@ == le_bytes(self.sub_authority@[k as int]),
                    bytes@.len() == 8 + 4 * k + j,
                    forall|j: int| 0 <= j < bytes@.len() ==> bytes@[j] == want[j],
                decreases 4 - j,
            {
                bytes.push(word[j]);
                j += 1;
            }
            k += 1;
        }
        assert(bytes@ =~= want);
        bytes
    }

    /// The identifier as text: `S-1-`, the authority, then each
    /// sub-authority after a `-`.
    pub fn to_string(&self) -> (text: String)
        ensures
            text@ == self@.text(),
    {
        format_sid(self.head.revision, &self.head.identifier_authority, self.sub_authority)
    }

    /// Feeds the identifier to `state`: the revision, the count, the
    /// authority, then each sub-authority.
    pub fn hash(&self, state: &mut DefaultHasher)
        ensures
            final(state)@ == old(state)@ + self@.hash_stream(),
    {
        let ghost stream = self@.hash_stream();
        let revision: [u8; 1] = [self.head.revision];
        state.write(revision.as_slice());
        proof {
            use_type_invariant(self);
            assert(revision@ =~= stream[0]);
        }
        let count: [u8; 1] = [self.head.sub_authority_count];
        state.write(count.as_slice());
        proof {
            assert(count@ =~= stream[1]);
        }
        state.write(self.head.identifier_authority.value.as_slice());
        assert(state@ =~= old(state)@ + stream.take(3));
        let mut k: usize = 0;
        while k < self.sub_authority.len()
            invariant
                0 <= k <= self.sub_authority@.len(),
                stream == self@.hash_stream(),
                state@ == old(state)@ + stream.take(3 + k),
            decreases self.sub_authority@.len() - k,
        {
            let word = u32_le_bytes(self.sub_authority[k]);
            state.write(word.as_slice());
            assert(state@ =~= old(state)@ + stream.take(3 + k + 1)) by {
                assert(stream[3 + k] == le_bytes(self.sub_authority@[k as int]));
            }
            k += 1;
        }
        assert(stream.take(3 + k) =~= stream);
    }
}

impl<'a> Sid<'a> {
    /// The last sub-authority, which names an entity within its domain.
    pub fn rid(&self) -> (rid: u32)
        ensures
            rid == self@.rid(),
    {
        proof {
            use_type_invariant(self);
        }
        self.sub_authority[self.sub_authority.len() - 1]
    }

    /// Whether `self` and `other` are the same identifier.
    pub fn same_as(&self, other: &Sid<'_>) -> (equal: bool)
        ensures
            equal == (self@ == other@),
            equal == (self@.binary() == other@.binary()),
    {
        proof {
            use_type_invariant(self);
            use_type_invariant(other);
            lemma_binary_decides_equality(self@, other@);
        }
        if self.head.identifier_authority != other.head.identifier_authority {
            return false;
        }
        if self.sub_authority.len() != other.sub_authority.len() {
            return false;
        }
        let mut k: usize = 0;
        while k < self.sub_authority.len()
            invariant
                0 <= k <= self.sub_authority@.len(),
                self.sub_authority@.len() == other.sub_authority@.len(),
                forall|j: int| 0 <= j < k ==> self.sub_authority@[j] == other.sub_authority@[j],
                (self@.binary() == other@.binary()) <==> self@ == other@,
            decreases self.sub_authority@.len() - k,
        {
            if self.sub_authority[k] != other.sub_authority[k] {
                return false;
            }
            k += 1;
        }
        assert(self.sub_authority@ =~= other.sub_authority@);
        true
    }
}

impl<'a, 'b> PartialEq<Sid<'b>> for Sid<'a> {
    /// Two views are equal when they show the same identifier, which is
    /// when their bytes are the same.
    fn eq(&self, other: &Sid<'b>) -> (equal: bool) {
        self.same_as(other)
    }
}

impl<'a> Eq for Sid<'a> {

}

impl<'a, 'b> vstd::std_specs::cmp::PartialEqSpecImpl<Sid<'b>> for Sid<'a> {
    open spec fn obeys_eq_spec() -> bool {
        true
    }

    open spec fn eq_spec(&self, other: &Sid<'b>) -> bool {
        self@ == other@
    }
}

} // verus!
