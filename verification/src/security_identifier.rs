//! The identifier that owns its sub-authorities on the heap, sized to
//! exactly as many as it has.
use crate::parsing::{
    sub_authority_as_slice, value_of_text, well_formed_text, InvalidSidFormat, SidComponents,
};
use crate::sid::{
    authority_from_bytes, lemma_binary_of_value, sub_authorities_from_bytes, valid_binary,
    value_of_binary, Sid, SidHead, SidValue,
};
use crate::sid_identifier_authority::SidIdentifierAuthority;
use crate::sid_size_info::{full_size, Layout};
use crate::utils::{sub_authority_size_guard, valid_count, validate_sid_bytes_unaligned};
use std::collections::hash_map::DefaultHasher;
use vstd::prelude::*;

verus! {

/// An identifier that owns its storage.
#[derive(Debug)]
pub struct SecurityIdentifier {
    head: SidHead,
    sub_authority: Vec<u32>,
}

impl View for SecurityIdentifier {
    type V = SidValue;

    closed spec fn view(&self) -> SidValue {
        SidValue {
            revision: self.head.revision,
            identifier_authority: self.head.identifier_authority@,
            sub_authority: self.sub_authority@,
        }
    }
}

impl SecurityIdentifier {
    #[verifier::type_invariant]
    spec fn inv(self) -> bool {
        &&& self.head.revision == 1
        &&& self.head.sub_authority_count == self.sub_authority@.len()
        &&& valid_count(self.sub_authority@.len() as int)
    }

    /// An identifier of revision 1 with the given authority and
    /// sub-authorities, of which there must be one to fifteen.
    pub fn try_new(identifier_authority: SidIdentifierAuthority, sub_authority: &[u32]) -> (sid:
        Option<Self>)
        ensures
            sid is Some <==> valid_count(sub_authority@.len() as int),
            sid matches Some(s) ==> s@.valid() && s@ == (SidValue {
                revision: 1,
                identifier_authority: identifier_authority@,
                sub_authority: sub_authority@,
            }),
    {
        if sub_authority_size_guard(sub_authority.len()) {
            Some(Self::new_unchecked(identifier_authority, sub_authority))
        } else {
            None
        }
    }

    /// An identifier of revision 1 with the given authority and
    /// sub-authorities, for a caller who knows that there are one to
    /// fifteen of them.
    pub fn new_unchecked(identifier_authority: SidIdentifierAuthority, sub_authority: &[u32]) -> (sid:
        Self)
        requires
            valid_count(sub_authority@.len() as int),
        ensures
            sid@ == (SidValue {
                revision: 1,
                identifier_authority: identifier_authority@,
                sub_authority: sub_authority@,
            }),
            sid@.valid(),
    {
        let mut owned: Vec<u32> = Vec::with_capacity(sub_authority.len());
        owned.extend_from_slice(sub_authority);
        assert(owned@ =~= sub_authority@);
        SecurityIdentifier {
            head: SidHead {
                revision: Sid::REVISION,
                sub_authority_count: sub_authority.len() as u8,
                identifier_authority,
            },
            sub_authority: owned,
        }
    }

    /// Reads an identifier from its byte form.
    ///
    /// Succeeds exactly on well-formed bytes, and then holds the
    /// identifier that they describe.
    pub fn from_bytes(bytes: &[u8]) -> (r: Result<Self, InvalidSidFormat>)
        ensures
            r is Ok <==> valid_binary(bytes@),
            r matches Ok(sid) ==> sid@.valid() && sid@ == value_of_binary(bytes@),
    {
        proof {
            if valid_binary(bytes@) {
                lemma_binary_of_value(bytes@);
            }
        }
        match validate_sid_bytes_unaligned(bytes) {
            Err(e) => Err(e),
            Ok(()) => Ok(Self::from_bytes_unchecked(bytes)),
        }
    }

    /// Copies the identifier out of bytes known to be well formed.
    fn from_bytes_unchecked(bytes: &[u8]) -> (sid: Self)
        requires
            valid_binary(bytes@),
        ensures
            sid@ == value_of_binary(bytes@),
    {
        SecurityIdentifier {
            head: SidHead {
                revision: bytes[0],
                sub_authority_count: bytes[1],
                identifier_authority: authority_from_bytes(bytes),
            },
            sub_authority: sub_authorities_from_bytes(bytes),
        }
    }

    /// Reads an identifier from its text.
    ///
    /// Succeeds exactly on well-formed texts.
    pub fn from_str(s: &str) -> (r: Result<Self, InvalidSidFormat>)
        ensures
            r is Ok <==> well_formed_text(s@),
            r matches Ok(sid) ==> sid@.valid() && sid@ == value_of_text(s@),
    {
        match SidComponents::from_str(s) {
            Err(e) => Err(e),
            Ok(components) => {
                let sub_authority = sub_authority_as_slice(&components.sub_authority);
                Ok(
                    Self::new_unchecked(
                        SidIdentifierAuthority::new(components.identifier_authority),
                        sub_authority,
                    ),
                )
            },
        }
    }

    /// A view of this identifier.
    pub fn as_sid(&self) -> (sid: Sid<'_>)
        ensures
            sid@ == self@,
            self@.valid(),
    {
        proof {
            use_type_invariant(self);
        }
        Sid::from_parts(self.head.identifier_authority, self.sub_authority.as_slice())
    }

    /// A copy of the identifier that `sid` shows.
    pub fn from_sid(sid: Sid<'_>) -> (owned: Self)
        ensures
            owned@ == sid@,
            owned@.valid(),
    {
        let head = sid.head();
        let owned = Self::new_unchecked(head.identifier_authority, sid.get_sub_authorities());
        owned
    }

    /// Makes `self` a copy of `source`, in place where both have the same
    /// number of sub-authorities.
    pub fn clone_from(&mut self, source: &Self)
        ensures
            final(self)@ == source@,
            final(self)@.valid(),
    {
        proof {
            use_type_invariant(&*self);
            use_type_invariant(source);
        }
        if self.sub_authority.len() == source.sub_authority.len() {
            let mut k: usize = 0;
            while k < source.sub_authority.len()
                invariant
                    0 <= k <= source.sub_authority@.len(),
                    self.sub_authority@.len() == source.sub_authority@.len(),
                    self.head.revision == 1,
                    self.head.sub_authority_count == source.head.sub_authority_count,
                    source.head.sub_authority_count == source.sub_authority@.len(),
                    valid_count(source.sub_authority@.len() as int),
                    forall|j: int|
                        0 <= j < k ==> self.sub_authority@[j] == source.sub_authority@[j],
                decreases source.sub_authority@.len() - k,
            {
                self.sub_authority[k] = source.sub_authority[k];
                k += 1;
            }
            self.head.identifier_authority = source.head.identifier_authority;
            assert(self.sub_authority@ =~= source.sub_authority@);
        } else {
            *self = source.clone();
        }
    }

    /// The revision, which is 1.
    pub fn revision(&self) -> (revision: u8)
        ensures
            revision == self@.revision,
            revision == 1,
    {
        self.as_sid().revision()
    }

    /// The number of sub-authorities, between one and fifteen.
    pub fn sub_authority_count(&self) -> (count: u8)
        ensures
            count == self@.sub_authority.len(),
            valid_count(count as int),
    {
        self.as_sid().sub_authority_count()
    }

    /// The authority under which the identifier was issued.
    pub fn identifier_authority(&self) -> (authority: SidIdentifierAuthority)
        ensures
            authority@ == self@.identifier_authority,
    {
        self.as_sid().identifier_authority()
    }

    /// The sub-authorities, in order.
    pub fn get_sub_authorities(&self) -> (sub_authority: &[u32])
        ensures
            sub_authority@ == self@.sub_authority,
            valid_count(sub_authority@.len() as int),
    {
        self.as_sid().get_sub_authorities()
    }

    /// The smallest layout that holds this identifier.
    pub fn get_current_min_layout(&self) -> (layout: Layout)
        ensures
            layout.spec_size() == full_size(self@.sub_authority.len() as int),
            layout.spec_align() == 4,
    {
        self.as_sid().get_current_min_layout()
    }

    /// The bytes of the identifier.
    pub fn as_binary(&self) -> (bytes: Vec<u8>)
        ensures
            bytes@ == self@.binary(),
            valid_binary(bytes@),
    {
        self.as_sid().as_binary()
    }

    /// The identifier as text.
    pub fn to_string(&self) -> (text: String)
        ensures
            text@ == self@.text(),
    {
        self.as_sid().to_string()
    }

    /// Feeds the identifier to `state`, as its view does.
    pub fn hash(&self, state: &mut DefaultHasher)
        ensures
            final(state)@ == old(state)@ + self@.hash_stream(),
    {
        self.as_sid().hash(state)
    }
}

impl Clone for SecurityIdentifier {
    fn clone(&self) -> (copy: Self)
        ensures
            copy@ == self@,
            copy@.valid(),
    {
        Self::from_sid(self.as_sid())
    }
}

impl PartialEq for SecurityIdentifier {
    fn eq(&self, other: &Self) -> (equal: bool) {
        self.as_sid().same_as(&other.as_sid())
    }
}

impl Eq for SecurityIdentifier {

}

impl vstd::std_specs::cmp::PartialEqSpecImpl for SecurityIdentifier {
    open spec fn obeys_eq_spec() -> bool {
        true
    }

    open spec fn eq_spec(&self, other: &Self) -> bool {
        self@ == other@
    }
}

impl<'a> PartialEq<Sid<'a>> for SecurityIdentifier {
    fn eq(&self, other: &Sid<'a>) -> (equal: bool) {
        self.as_sid().same_as(other)
    }
}

impl<'a> vstd::std_specs::cmp::PartialEqSpecImpl<Sid<'a>> for SecurityIdentifier {
    open spec fn obeys_eq_spec() -> bool {
        true
    }

    open spec fn eq_spec(&self, other: &Sid<'a>) -> bool {
        self@ == other@
    }
}

impl<'a> PartialEq<SecurityIdentifier> for Sid<'a> {
    fn eq(&self, other: &SecurityIdentifier) -> (equal: bool) {
        self.same_as(&other.as_sid())
    }
}

impl<'a> vstd::std_specs::cmp::PartialEqSpecImpl<SecurityIdentifier> for Sid<'a> {
    open spec fn obeys_eq_spec() -> bool {
        true
    }

    open spec fn eq_spec(&self, other: &SecurityIdentifier) -> bool {
        self@ == other@
    }
}

impl<'a> Sid<'a> {
    /// A copy on the heap of the identifier shown.
    pub fn to_owned(&self) -> (owned: SecurityIdentifier)
        ensures
            owned@ == self@,
    {
        SecurityIdentifier::from_sid(*self)
    }
}

impl<'a> From<Sid<'a>> for SecurityIdentifier {
    /// A copy on the heap.
    fn from(value: Sid<'a>) -> (owned: Self)
        ensures
            owned@ == value@,
    {
        Self::from_sid(value)
    }
}

impl<'a> vstd::std_specs::convert::FromSpecImpl<Sid<'a>> for SecurityIdentifier {
    open spec fn obeys_from_spec() -> bool {
        false
    }

    open spec fn from_spec(value: Sid<'a>) -> Self {
        arbitrary()
    }
}

impl<'a> TryFrom<&'a [u8]> for SecurityIdentifier {
    type Error = InvalidSidFormat;

    /// Reads an identifier from its byte form.
    fn try_from(value: &'a [u8]) -> (r: Result<Self, InvalidSidFormat>)
        ensures
            r is Ok <==> valid_binary(value@),
            r matches Ok(sid) ==> sid@ == value_of_binary(value@),
    {
        Self::from_bytes(value)
    }
}

impl<'a> vstd::std_specs::convert::TryFromSpecImpl<&'a [u8]> for SecurityIdentifier {
    open spec fn obeys_try_from_spec() -> bool {
        false
    }

    open spec fn try_from_spec(value: &'a [u8]) -> Result<Self, InvalidSidFormat> {
        arbitrary()
    }
}

impl core::str::FromStr for SecurityIdentifier {
    type Err = InvalidSidFormat;

    /// Reads an identifier from its text.
    fn from_str(s: &str) -> (r: Result<Self, InvalidSidFormat>)
        ensures
            r is Ok <==> well_formed_text(s@),
            r matches Ok(sid) ==> sid@.valid() && sid@ == value_of_text(s@),
    {
        SecurityIdentifier::from_str(s)
    }
}

} // verus!
