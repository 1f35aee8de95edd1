//! The identifier whose number of sub-authorities is part of its type.
use crate::security_identifier::SecurityIdentifier;
use crate::sid::{valid_binary, Sid, SidHead, SidValue};
use crate::sid_identifier_authority::SidIdentifierAuthority;
use crate::stack_sid::StackSid;
use crate::utils::valid_count;
use std::collections::hash_map::DefaultHasher;
use vstd::prelude::*;

verus! {

/// The numbers of sub-authorities that an identifier may have. It is
/// implemented for the arrays of one to fifteen sub-authorities and for
/// nothing else, so that an identifier of any other length has no type.
pub trait SidLenValid<const N: usize> {
    /// `N` lies between one and fifteen.
    proof fn len_in_range()
        ensures
            valid_count(N as int),
    ;
}

impl SidLenValid<1> for [u32; 1] {
    proof fn len_in_range() {
    }
}

impl SidLenValid<2> for [u32; 2] {
    proof fn len_in_range() {
    }
}

impl SidLenValid<3> for [u32; 3] {
    proof fn len_in_range() {
    }
}

impl SidLenValid<4> for [u32; 4] {
    proof fn len_in_range() {
    }
}

impl SidLenValid<5> for [u32; 5] {
    proof fn len_in_range() {
    }
}

impl SidLenValid<6> for [u32; 6] {
    proof fn len_in_range() {
    }
}

impl SidLenValid<7> for [u32; 7] {
    proof fn len_in_range() {
    }
}

impl SidLenValid<8> for [u32; 8] {
    proof fn len_in_range() {
    }
}

impl SidLenValid<9> for [u32; 9] {
    proof fn len_in_range() {
    }
}

impl SidLenValid<10> for [u32; 10] {
    proof fn len_in_range() {
    }
}

impl SidLenValid<11> for [u32; 11] {
    proof fn len_in_range() {
    }
}

impl SidLenValid<12> for [u32; 12] {
    proof fn len_in_range() {
    }
}

impl SidLenValid<13> for [u32; 13] {
    proof fn len_in_range() {
    }
}

impl SidLenValid<14> for [u32; 14] {
    proof fn len_in_range() {
    }
}

impl SidLenValid<15> for [u32; 15] {
    proof fn len_in_range() {
    }
}

/// Whatever `N` an identifier type is written for lies between one and
/// fifteen.
pub proof fn lemma_len_in_range<const N: usize>() where [u32; N]: SidLenValid<N>
    ensures
        valid_count(N as int),
{
    <[u32; N] as SidLenValid<N>>::len_in_range();
}

/// A source has another number of sub-authorities than the type asks for.
#[derive(Clone, Copy, Debug, PartialEq, Eq, Structural)]
pub struct LengthMismatch;

/// An identifier with exactly `N` sub-authorities, stored inline.
#[derive(Clone, Copy, Debug)]
pub struct ConstSid<const N: usize> where [u32; N]: SidLenValid<N> {
    head: SidHead,
    sub_authority: [u32; N],
}

impl<const N: usize> View for ConstSid<N> where [u32; N]: SidLenValid<N> {
    type V = SidValue;

    closed spec fn view(&self) -> SidValue {
        SidValue {
            revision: self.head.revision,
            identifier_authority: self.head.identifier_authority@,
            sub_authority: self.sub_authority@,
        }
    }
}

impl<const N: usize> ConstSid<N> where [u32; N]: SidLenValid<N> {
    #[verifier::type_invariant]
    spec fn inv(self) -> bool {
        &&& self.head.revision == 1
        &&& self.head.sub_authority_count == N
    }

    /// An identifier of revision 1 with the given authority and
    /// sub-authorities.
    pub fn new(identifier_authority: SidIdentifierAuthority, sub_authority: [u32; N]) -> (sid: Self)
        ensures
            sid@ == (SidValue {
                revision: 1,
                identifier_authority: identifier_authority@,
                sub_authority: sub_authority@,
            }),
            sid@.valid(),
    {
        proof {
            lemma_len_in_range::<N>();
        }
        ConstSid {
            head: SidHead { revision: 1, sub_authority_count: N as u8, identifier_authority },
            sub_authority,
        }
    }

    /// A view of this identifier, with `N` sub-authorities.
    pub fn as_sid(&self) -> (sid: Sid<'_>)
        ensures
            sid@ == self@,
            self@.valid(),
            self@.sub_authority.len() == N,
    {
        proof {
            use_type_invariant(self);
            lemma_len_in_range::<N>();
        }
        Sid::from_parts(self.head.identifier_authority, self.sub_authority.as_slice())
    }

    /// A copy of the identifier that `sid` shows, if it has `N`
    /// sub-authorities.
    pub fn try_from_sid(sid: Sid<'_>) -> (r: Result<Self, LengthMismatch>)
        ensures
            r is Ok <==> sid@.sub_authority.len() == N,
            r matches Ok(c) ==> c@ == sid@ && c@.valid(),
    {
        let source = sid.get_sub_authorities();
        if source.len() != N {
            return Err(LengthMismatch);
        }
        let mut sub_authority: [u32; N] = [0;N];
        let mut k: usize = 0;
        while k < N
            invariant
                0 <= k <= N,
                source@.len() == N,
                forall|j: int| 0 <= j < k ==> sub_authority@[j] == source@[j],
            decreases N - k,
        {
            sub_authority[k] = source[k];
            k += 1;
        }
        assert(sub_authority@ =~= source@);
        let head = sid.head();
        Ok(
            ConstSid {
                head: SidHead {
                    revision: head.revision,
                    sub_authority_count: head.sub_authority_count,
                    identifier_authority: head.identifier_authority,
                },
                sub_authority,
            },
        )
    }

    /// The revision, which is 1.
    pub fn revision(&self) -> (revision: u8)
        ensures
            revision == self@.revision,
            revision == 1,
    {
        self.as_sid().revision()
    }

    /// The number of sub-authorities, which is `N`.
    pub fn sub_authority_count(&self) -> (count: u8)
        ensures
            count == self@.sub_authority.len(),
            count == N,
    {
        self.as_sid().sub_authority_count()
    }

    /// The authority under which the identifier was issued.
    pub fn identifier_authority(&self) -> (authority: SidIdentifierAuthority)
        ensures
            authority@ == self@.identifier_authority,
    {
        self.head.identifier_authority
    }

    /// The sub-authorities, in order.
    pub fn sub_authority(&self) -> (sub_authority: [u32; N])
        ensures
            sub_authority@ == self@.sub_authority,
    {
        self.sub_authority
    }

    /// The bytes of the identifier.
    pub fn as_bytes(&self) -> (bytes: Vec<u8>)
        ensures
            bytes@ == self@.binary(),
            valid_binary(bytes@),
    {
        self.as_sid().as_binary()
    }

    /// The last sub-authority, which names an entity within its domain.
    pub fn rid(&self) -> (rid: u32)
        ensures
            rid == self@.rid(),
    {
        proof {
            lemma_len_in_range::<N>();
        }
        self.sub_authority[N - 1]
    }

    /// The identifier as text.
    pub fn to_string(&self) -> (text: String)
        ensures
            text@ == self@.text(),
    {
        self.as_sid().to_string()
    }

    /// Feeds the identifier to `state`, as its view does.
    pub fn hash(&self, state: &mut DefaultHasher)
        ensures
            final(state)@ == old(state)@ + self@.hash_stream(),
    {
        self.as_sid().hash(state)
    }
}

impl<const N: usize> PartialEq for ConstSid<N> where [u32; N]: SidLenValid<N> {
    fn eq(&self, other: &Self) -> (equal: bool) {
        self.as_sid().same_as(&other.as_sid())
    }
}

impl<const N: usize> Eq for ConstSid<N> where [u32; N]: SidLenValid<N> {

}

impl<const N: usize> vstd::std_specs::cmp::PartialEqSpecImpl for ConstSid<N> where [u32; N]: SidLenValid<N> {
    open spec fn obeys_eq_spec() -> bool {
        true
    }

    open spec fn eq_spec(&self, other: &Self) -> bool {
        self@ == other@
    }
}

impl<'a, const N: usize> PartialEq<Sid<'a>> for ConstSid<N> where [u32; N]: SidLenValid<N> {
    fn eq(&self, other: &Sid<'a>) -> (equal: bool) {
        self.as_sid().same_as(other)
    }
}

impl<'a, const N: usize> vstd::std_specs::cmp::PartialEqSpecImpl<Sid<'a>> for ConstSid<N> where [u32; N]: SidLenValid<N> {
    open spec fn obeys_eq_spec() -> bool {
        true
    }

    open spec fn eq_spec(&self, other: &Sid<'a>) -> bool {
        self@ == other@
    }
}

impl<'a, const N: usize> PartialEq<ConstSid<N>> for Sid<'a> where [u32; N]: SidLenValid<N> {
    fn eq(&self, other: &ConstSid<N>) -> (equal: bool) {
        self.same_as(&other.as_sid())
    }
}

impl<'a, const N: usize> vstd::std_specs::cmp::PartialEqSpecImpl<ConstSid<N>> for Sid<'a> where [u32; N]: SidLenValid<N> {
    open spec fn obeys_eq_spec() -> bool {
        true
    }

    open spec fn eq_spec(&self, other: &ConstSid<N>) -> bool {
        self@ == other@
    }
}

impl<const N: usize> PartialEq<SecurityIdentifier> for ConstSid<N> where [u32; N]: SidLenValid<N> {
    fn eq(&self, other: &SecurityIdentifier) -> (equal: bool) {
        self.as_sid().same_as(&other.as_sid())
    }
}

impl<const N: usize> vstd::std_specs::cmp::PartialEqSpecImpl<SecurityIdentifier> for ConstSid<N> where [u32; N]: SidLenValid<N> {
    open spec fn obeys_eq_spec() -> bool {
        true
    }

    open spec fn eq_spec(&self, other: &SecurityIdentifier) -> bool {
        self@ == other@
    }
}

impl<const N: usize> PartialEq<ConstSid<N>> for SecurityIdentifier where [u32; N]: SidLenValid<N> {
    fn eq(&self, other: &ConstSid<N>) -> (equal: bool) {
        self.as_sid().same_as(&other.as_sid())
    }
}

impl<const N: usize> vstd::std_specs::cmp::PartialEqSpecImpl<ConstSid<N>> for SecurityIdentifier where [u32; N]: SidLenValid<N> {
    open spec fn obeys_eq_spec() -> bool {
        true
    }

    open spec fn eq_spec(&self, other: &ConstSid<N>) -> bool {
        self@ == other@
    }
}

impl<const N: usize> PartialEq<StackSid> for ConstSid<N> where [u32; N]: SidLenValid<N> {
    fn eq(&self, other: &StackSid) -> (equal: bool) {
        self.as_sid().same_as(&other.as_sid())
    }
}

impl<const N: usize> vstd::std_specs::cmp::PartialEqSpecImpl<StackSid> for ConstSid<N> where [u32; N]: SidLenValid<N> {
    open spec fn obeys_eq_spec() -> bool {
        true
    }

    open spec fn eq_spec(&self, other: &StackSid) -> bool {
        self@ == other@
    }
}

impl<const N: usize> PartialEq<ConstSid<N>> for StackSid where [u32; N]: SidLenValid<N> {
    fn eq(&self, other: &ConstSid<N>) -> (equal: bool) {
        self.as_sid().same_as(&other.as_sid())
    }
}

impl<const N: usize> vstd::std_specs::cmp::PartialEqSpecImpl<ConstSid<N>> for StackSid where [u32; N]: SidLenValid<N> {
    open spec fn obeys_eq_spec() -> bool {
        true
    }

    open spec fn eq_spec(&self, other: &ConstSid<N>) -> bool {
        self@ == other@
    }
}

impl<const N: usize> From<ConstSid<N>> for SecurityIdentifier where [u32; N]: SidLenValid<N> {
    /// A copy on the heap.
    fn from(value: ConstSid<N>) -> (owned: Self)
        ensures
            owned@ == value@,
    {
        SecurityIdentifier::from_sid(value.as_sid())
    }
}

impl<const N: usize> vstd::std_specs::convert::FromSpecImpl<ConstSid<N>> for SecurityIdentifier where [u32; N]: SidLenValid<N> {
    open spec fn obeys_from_spec() -> bool {
        false
    }

    open spec fn from_spec(value: ConstSid<N>) -> Self {
        arbitrary()
    }
}

impl<'a, const N: usize> TryFrom<Sid<'a>> for ConstSid<N> where [u32; N]: SidLenValid<N> {
    type Error = LengthMismatch;

    /// Succeeds when the view has `N` sub-authorities.
    fn try_from(value: Sid<'a>) -> (r: Result<Self, LengthMismatch>)
        ensures
            r is Ok <==> value@.sub_authority.len() == N,
            r matches Ok(c) ==> c@ == value@,
    {
        Self::try_from_sid(value)
    }
}

impl<'a, const N: usize> vstd::std_specs::convert::TryFromSpecImpl<Sid<'a>> for ConstSid<N> where [u32; N]: SidLenValid<N> {
    open spec fn obeys_try_from_spec() -> bool {
        false
    }

    open spec fn try_from_spec(value: Sid<'a>) -> Result<Self, LengthMismatch> {
        arbitrary()
    }
}

impl<const N: usize> TryFrom<SecurityIdentifier> for ConstSid<N> where [u32; N]: SidLenValid<N> {
    type Error = LengthMismatch;

    /// Succeeds when the identifier has `N` sub-authorities.
    fn try_from(value: SecurityIdentifier) -> (r: Result<Self, LengthMismatch>)
        ensures
            r is Ok <==> value@.sub_authority.len() == N,
            r matches Ok(c) ==> c@ == value@,
    {
        Self::try_from_sid(value.as_sid())
    }
}

impl<const N: usize> vstd::std_specs::convert::TryFromSpecImpl<SecurityIdentifier> for ConstSid<N> where [u32; N]: SidLenValid<N> {
    open spec fn obeys_try_from_spec() -> bool {
        false
    }

    open spec fn try_from_spec(value: SecurityIdentifier) -> Result<Self, LengthMismatch> {
        arbitrary()
    }
}

} // verus!
