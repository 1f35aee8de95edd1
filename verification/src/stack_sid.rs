//! The identifier that holds its sub-authorities inline, in room for
//! fifteen, and so never allocates.
use crate::parsing::{
    sub_authority_as_slice, value_of_text, well_formed_text, InvalidSidFormat, SidComponents,
};
use crate::security_identifier::SecurityIdentifier;
use crate::sid::{
    authority_from_bytes, lemma_binary_of_value, u32_from_le_bytes, valid_binary, value_of_binary,
    Sid, SidHead, SidValue,
};
use crate::sid_identifier_authority::SidIdentifierAuthority;
use crate::sid_size_info::{full_size, Layout};
use crate::utils::{sub_authority_size_guard, valid_count, validate_sid_bytes_unaligned};
use std::collections::hash_map::DefaultHasher;
use vstd::prelude::*;
use vstd::std_specs::cmp::PartialEqSpec;
use vstd::std_specs::hash::DefaultHasherAdditionalSpecFns;

verus! {

/// An identifier stored inline. Of its fifteen slots only the first
/// `count` belong to the identifier; nothing shows the others.
pub struct StackSid {
    head: SidHead,
    sub_authority: [u32; 15],
}

impl View for StackSid {
    type V = SidValue;

    closed spec fn view(&self) -> SidValue {
        SidValue {
            revision: self.head.revision,
            identifier_authority: self.head.identifier_authority@,
            sub_authority: self.sub_authority@.subrange(0, self.head.sub_authority_count as int),
        }
    }
}

impl StackSid {
    #[verifier::type_invariant]
    spec fn inv(self) -> bool {
        &&& self.head.revision == 1
        &&& valid_count(self.head.sub_authority_count as int)
    }

    /// An identifier of revision 1 with the given authority and
    /// sub-authorities, of which there must be one to fifteen.
    pub fn try_new(identifier_authority: SidIdentifierAuthority, sub_authority: &[u32]) -> (sid:
        Option<Self>)
        ensures
            sid is Some <==> valid_count(sub_authority@.len() as int),
            sid matches Some(s) ==> s@.valid() && s@ == (SidValue {
                revision: 1,
                identifier_authority: identifier_authority@,
                sub_authority: sub_authority@,
            }),
    {
        if sub_authority_size_guard(sub_authority.len()) {
            Some(Self::new_unchecked(identifier_authority, sub_authority))
        } else {
            None
        }
    }

    /// An identifier of revision 1 with the given authority and
    /// sub-authorities, for a caller who knows that there are one to
    /// fifteen of them.
    pub fn new_unchecked(identifier_authority: SidIdentifierAuthority, sub_authority: &[u32]) -> (sid:
        Self)
        requires
            valid_count(sub_authority@.len() as int),
        ensures
            sid@ == (SidValue {
                revision: 1,
                identifier_authority: identifier_authority@,
                sub_authority: sub_authority@,
            }),
            sid@.valid(),
    {
        let mut array: [u32; 15] = [0;15];
        let mut k: usize = 0;
        while k < sub_authority.len()
            invariant
                0 <= k <= sub_authority@.len() <= 15,
                forall|j: int| 0 <= j < k ==> array@[j] == sub_authority@[j],
            decreases sub_authority@.len() - k,
        {
            array[k] = sub_authority[k];
            k += 1;
        }
        assert(array@.subrange(0, sub_authority@.len() as int) =~= sub_authority@);
        StackSid {
            head: SidHead {
                revision: Sid::REVISION,
                sub_authority_count: sub_authority.len() as u8,
                identifier_authority,
            },
            sub_authority: array,
        }
    }

    /// Reads an identifier from its byte form.
    ///
    /// Succeeds exactly on well-formed bytes, and then holds the
    /// identifier that they describe.
    pub fn from_bytes(bytes: &[u8]) -> (r: Result<Self, InvalidSidFormat>)
        ensures
            r is Ok <==> valid_binary(bytes@),
            r matches Ok(sid) ==> sid@.valid() && sid@ == value_of_binary(bytes@),
    {
        proof {
            if valid_binary(bytes@) {
                lemma_binary_of_value(bytes@);
            }
        }
        match validate_sid_bytes_unaligned(bytes) {
            Err(e) => Err(e),
            Ok(()) => {
                let count: usize = bytes[1] as usize;
                let mut array: [u32; 15] = [0;15];
                let mut k: usize = 0;
                while k < count
                    invariant
                        0 <= k <= count,
                        count == bytes@[1],
                        valid_binary(bytes@),
                        forall|j: int|
                            0 <= j < k ==> array@[j] == value_of_binary(bytes@).sub_authority[j],
                    decreases count - k,
                {
                    array[k] = u32_from_le_bytes(bytes, 8 + 4 * k);
                    k += 1;
                }
                assert(array@.subrange(0, count as int) =~= value_of_binary(
                    bytes@,
                ).sub_authority);
                Ok(
                    StackSid {
                        head: SidHead {
                            revision: bytes[0],
                            sub_authority_count: bytes[1],
                            identifier_authority: authority_from_bytes(bytes),
                        },
                        sub_authority: array,
                    },
                )
            },
        }
    }

    /// Reads an identifier from its text.
    ///
    /// Succeeds exactly on well-formed texts.
    pub fn from_str(s: &str) -> (r: Result<Self, InvalidSidFormat>)
        ensures
            r is Ok <==> well_formed_text(s@),
            r matches Ok(sid) ==> sid@.valid() && sid@ == value_of_text(s@),
    {
        match SidComponents::from_str(s) {
            Err(e) => Err(e),
            Ok(components) => {
                let sub_authority = sub_authority_as_slice(&components.sub_authority);
                Ok(
                    Self::new_unchecked(
                        SidIdentifierAuthority::new(components.identifier_authority),
                        sub_authority,
                    ),
                )
            },
        }
    }

    /// A view of this identifier, over the slots in use only.
    pub fn as_sid(&self) -> (sid: Sid<'_>)
        ensures
            sid@ == self@,
            self@.valid(),
    {
        proof {
            use_type_invariant(self);
        }
        let used = vstd::slice::slice_subrange(
            self.sub_authority.as_slice(),
            0,
            self.head.sub_authority_count as usize,
        );
        Sid::from_parts(self.head.identifier_authority, used)
    }

    /// A copy of the identifier that `sid` shows.
    pub fn from_sid(sid: Sid<'_>) -> (owned: Self)
        ensures
            owned@ == sid@,
            owned@.valid(),
    {
        let head = sid.head();
        Self::new_unchecked(head.identifier_authority, sid.get_sub_authorities())
    }

    /// Makes `self` a copy of `source`: the header and the slots that
    /// `source` uses are overwritten, the others are left as they are.
    pub fn clone_from(&mut self, source: &Self)
        ensures
            final(self)@ == source@,
            final(self)@.valid(),
    {
        proof {
            use_type_invariant(source);
        }
        let count: usize = source.head.sub_authority_count as usize;
        let mut array: [u32; 15] = self.sub_authority;
        let mut k: usize = 0;
        while k < count
            invariant
                0 <= k <= count <= 15,
                forall|j: int| 0 <= j < k ==> array@[j] == source.sub_authority@[j],
            decreases count - k,
        {
            array[k] = source.sub_authority[k];
            k += 1;
        }
        assert(array@.subrange(0, count as int) =~= source.sub_authority@.subrange(
            0,
            count as int,
        ));
        *self = StackSid { head: source.head, sub_authority: array };
    }

    /// The revision, which is 1.
    pub fn revision(&self) -> (revision: u8)
        ensures
            revision == self@.revision,
            revision == 1,
    {
        self.as_sid().revision()
    }

    /// The number of sub-authorities, between one and fifteen.
    pub fn sub_authority_count(&self) -> (count: u8)
        ensures
            count == self@.sub_authority.len(),
            valid_count(count as int),
    {
        self.as_sid().sub_authority_count()
    }

    /// The authority under which the identifier was issued.
    pub fn identifier_authority(&self) -> (authority: SidIdentifierAuthority)
        ensures
            authority@ == self@.identifier_authority,
    {
        self.as_sid().identifier_authority()
    }

    /// The sub-authorities, in order: the slots in use and no other.
    pub fn get_sub_authorities(&self) -> (sub_authority: &[u32])
        ensures
            sub_authority@ == self@.sub_authority,
            valid_count(sub_authority@.len() as int),
    {
        self.as_sid().get_sub_authorities()
    }

    /// The smallest layout that holds this identifier, which leaves the
    /// unused slots out.
    pub fn get_current_min_layout(&self) -> (layout: Layout)
        ensures
            layout.spec_size() == full_size(self@.sub_authority.len() as int),
            layout.spec_align() == 4,
    {
        self.as_sid().get_current_min_layout()
    }

    /// The bytes of the identifier, which leave the unused slots out.
    pub fn as_binary(&self) -> (bytes: Vec<u8>)
        ensures
            bytes@ == self@.binary(),
            valid_binary(bytes@),
    {
        self.as_sid().as_binary()
    }

    /// The identifier as text.
    pub fn to_string(&self) -> (text: String)
        ensures
            text@ == self@.text(),
    {
        self.as_sid().to_string()
    }

    /// Feeds the identifier to `state`, as its view does.
    pub fn hash(&self, state: &mut DefaultHasher)
        ensures
            final(state)@ == old(state)@ + self@.hash_stream(),
    {
        self.as_sid().hash(state)
    }
}

impl Clone for StackSid {
    fn clone(&self) -> (copy: Self)
        ensures
            copy@ == self@,
            copy@.valid(),
    {
        Self::from_sid(self.as_sid())
    }
}

impl PartialEq for StackSid {
    fn eq(&self, other: &Self) -> (equal: bool) {
        self.as_sid().same_as(&other.as_sid())
    }
}

impl Eq for StackSid {

}

impl vstd::std_specs::cmp::PartialEqSpecImpl for StackSid {
    open spec fn obeys_eq_spec() -> bool {
        true
    }

    open spec fn eq_spec(&self, other: &Self) -> bool {
        self@ == other@
    }
}

impl<'a> PartialEq<Sid<'a>> for StackSid {
    fn eq(&self, other: &Sid<'a>) -> (equal: bool) {
        self.as_sid().same_as(other)
    }
}

impl<'a> vstd::std_specs::cmp::PartialEqSpecImpl<Sid<'a>> for StackSid {
    open spec fn obeys_eq_spec() -> bool {
        true
    }

    open spec fn eq_spec(&self, other: &Sid<'a>) -> bool {
        self@ == other@
    }
}

impl<'a> PartialEq<StackSid> for Sid<'a> {
    fn eq(&self, other: &StackSid) -> (equal: bool) {
        self.same_as(&other.as_sid())
    }
}

impl<'a> vstd::std_specs::cmp::PartialEqSpecImpl<StackSid> for Sid<'a> {
    open spec fn obeys_eq_spec() -> bool {
        true
    }

    open spec fn eq_spec(&self, other: &StackSid) -> bool {
        self@ == other@
    }
}

impl PartialEq<SecurityIdentifier> for StackSid {
    fn eq(&self, other: &SecurityIdentifier) -> (equal: bool) {
        self.as_sid().same_as(&other.as_sid())
    }
}

impl vstd::std_specs::cmp::PartialEqSpecImpl<SecurityIdentifier> for StackSid {
    open spec fn obeys_eq_spec() -> bool {
        true
    }

    open spec fn eq_spec(&self, other: &SecurityIdentifier) -> bool {
        self@ == other@
    }
}

impl PartialEq<StackSid> for SecurityIdentifier {
    fn eq(&self, other: &StackSid) -> (equal: bool) {
        self.as_sid().same_as(&other.as_sid())
    }
}

impl vstd::std_specs::cmp::PartialEqSpecImpl<StackSid> for SecurityIdentifier {
    open spec fn obeys_eq_spec() -> bool {
        true
    }

    open spec fn eq_spec(&self, other: &StackSid) -> bool {
        self@ == other@
    }
}

impl<'a> From<Sid<'a>> for StackSid {
    /// An inline copy.
    fn from(value: Sid<'a>) -> (owned: Self)
        ensures
            owned@ == value@,
    {
        Self::from_sid(value)
    }
}

impl<'a> vstd::std_specs::convert::FromSpecImpl<Sid<'a>> for StackSid {
    open spec fn obeys_from_spec() -> bool {
        false
    }

    open spec fn from_spec(value: Sid<'a>) -> Self {
        arbitrary()
    }
}

impl<'a> TryFrom<&'a [u8]> for StackSid {
    type Error = InvalidSidFormat;

    /// Reads an identifier from its byte form.
    fn try_from(value: &'a [u8]) -> (r: Result<Self, InvalidSidFormat>)
        ensures
            r is Ok <==> valid_binary(value@),
            r matches Ok(sid) ==> sid@ == value_of_binary(value@),
    {
        Self::from_bytes(value)
    }
}

impl<'a> vstd::std_specs::convert::TryFromSpecImpl<&'a [u8]> for StackSid {
    open spec fn obeys_try_from_spec() -> bool {
        false
    }

    open spec fn try_from_spec(value: &'a [u8]) -> Result<Self, InvalidSidFormat> {
        arbitrary()
    }
}

impl core::str::FromStr for StackSid {
    type Err = InvalidSidFormat;

    /// Reads an identifier from its text.
    fn from_str(s: &str) -> (r: Result<Self, InvalidSidFormat>)
        ensures
            r is Ok <==> well_formed_text(s@),
            r matches Ok(sid) ==> sid@.valid() && sid@ == value_of_text(s@),
    {
        StackSid::from_str(s)
    }
}

/// An identifier on the heap and one stored inline that hold the same
/// content are equal, either way round, and hash alike.
pub proof fn lemma_heap_and_stack_agree(a: SecurityIdentifier, b: StackSid, state: Seq<Seq<u8>>)
    requires
        a@ == b@,
    ensures
        a.eq_spec(&b),
        b.eq_spec(&a),
        DefaultHasher::spec_finish(state + a@.hash_stream()) == DefaultHasher::spec_finish(
            state + b@.hash_stream(),
        ),
{
}

} // verus!
