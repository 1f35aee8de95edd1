//! Account names of the form `DOMAIN\Name`, and the policy that says which
//! of them are acceptable.
//!
//! Lengths and positions are counted in UTF-16 code units, as the system
//! that issues the names counts them: a character outside the basic plane
//! counts for two.
use crate::parsing::string_push;
use vstd::prelude::*;
use vstd::std_specs::iter::IteratorSpec;
use vstd::string::{StrSliceExecFns, StringExecFns, StringSliceAdditionalSpecFns};
use vstd::utf8::encode_utf8;

verus! {

/// The character that separates the domain from the name.
pub const SEPARATOR: char = '\\';

/// Which part of an account name an error is about.
#[derive(Clone, Copy, Debug, PartialEq, Eq, Structural)]
pub enum Component {
    /// The part before the separator.
    Domain,
    /// The part after the separator.
    Name,
}

/// Why a text is not an acceptable account name.
#[derive(Clone, Copy, Debug, PartialEq, Eq, Structural)]
pub enum DomainParsingError {
    /// The text holds no separator.
    MissingSeparator,
    /// The text holds more than one separator.
    TooManySeparators,
    /// The domain is empty and the policy asks for one.
    EmptyDomain,
    /// The name is empty and the policy asks for one.
    EmptyName,
    /// A part is longer than the policy allows.
    ComponentTooLong {
        /// The part that is too long.
        which: Component,
        /// The length that the policy allows.
        max: usize,
        /// The length of the part.
        actual: usize,
    },
    /// A part holds a code unit that the policy forbids.
    ForbiddenUnit {
        /// The part that holds it.
        which: Component,
        /// The code unit.
        unit: u32,
        /// Where it stands in the part.
        index: usize,
    },
}

/// What is asked of the two parts of an account name.
#[derive(Clone, Copy, Debug, PartialEq, Eq)]
pub struct ParsePolicy {
    /// Whether the domain may be empty, as in `\User`.
    pub allow_empty_domain: bool,
    /// Whether the name may be empty, as in `DOMAIN\`.
    pub allow_empty_name: bool,
    /// The greatest length of a part, if there is one.
    pub max_component_len: Option<usize>,
    /// Code units that no part may hold. The unit zero is always forbidden.
    pub forbidden_ascii: &'static [u8],
}

/// The number of code units that `c` takes.
pub open spec fn unit_width(c: char) -> nat {
    if (c as u32) < 0x1_0000 {
        1
    } else {
        2
    }
}

/// The number of code units that `s` takes.
pub open spec fn unit_len(s: Seq<char>) -> nat
    decreases s.len(),
{
    if s.len() == 0 {
        0
    } else {
        unit_width(s[0]) + unit_len(s.drop_first())
    }
}

/// Whether `c` is the unit zero or one of the units in `forbidden`.
pub open spec fn is_forbidden(forbidden: Seq<u8>, c: char) -> bool {
    c as u32 == 0 || exists|i: int| 0 <= i < forbidden.len() && #[trigger] forbidden[i] as u32 == c as u32
}

/// Whether `at` is where the first forbidden character of `s` stands.
pub open spec fn is_first_forbidden(forbidden: Seq<u8>, s: Seq<char>, at: int) -> bool {
    &&& 0 <= at < s.len()
    &&& is_forbidden(forbidden, s[at])
    &&& forall|j: int| 0 <= j < at ==> !is_forbidden(forbidden, #[trigger] s[j])
}

/// Whether no character of `s` is forbidden.
pub open spec fn none_forbidden(forbidden: Seq<u8>, s: Seq<char>) -> bool {
    forall|j: int| 0 <= j < s.len() ==> !is_forbidden(forbidden, #[trigger] s[j])
}

/// Where the first forbidden character of `s` stands, if there is one.
pub open spec fn first_forbidden(forbidden: Seq<u8>, s: Seq<char>) -> int {
    choose|at: int| is_first_forbidden(forbidden, s, at)
}

/// Whether `at` is where the first separator of `s` stands.
pub open spec fn is_first_separator(s: Seq<char>, at: int) -> bool {
    &&& 0 <= at < s.len()
    &&& s[at] == SEPARATOR
    &&& forall|j: int| 0 <= j < at ==> #[trigger] s[j] != SEPARATOR
}

/// Where the first separator of `s` stands, if there is one.
pub open spec fn first_separator(s: Seq<char>) -> int {
    choose|at: int| is_first_separator(s, at)
}

/// A policy as a mathematical value.
pub struct PolicyValue {
    /// Whether the domain may be empty.
    pub allow_empty_domain: bool,
    /// Whether the name may be empty.
    pub allow_empty_name: bool,
    /// The greatest length of a part, if there is one.
    pub max_component_len: Option<usize>,
    /// Code units that no part may hold, besides the unit zero.
    pub forbidden_ascii: Seq<u8>,
}

impl View for ParsePolicy {
    type V = PolicyValue;

    open spec fn view(&self) -> PolicyValue {
        PolicyValue {
            allow_empty_domain: self.allow_empty_domain,
            allow_empty_name: self.allow_empty_name,
            max_component_len: self.max_component_len,
            forbidden_ascii: self.forbidden_ascii@,
        }
    }
}

/// What is asked by default: a name that is not empty, and no separator
/// inside either part.
pub open spec fn default_policy_value() -> PolicyValue {
    PolicyValue {
        allow_empty_domain: true,
        allow_empty_name: false,
        max_component_len: None,
        forbidden_ascii: seq![92u8, 0u8],
    }
}

impl PolicyValue {
    /// The verdict of this policy on the part `s`.
    ///
    /// An empty part is judged by the policy's word on empty parts alone.
    /// Otherwise the length is held against the limit first, and then the
    /// first forbidden unit is reported with its position.
    pub open spec fn verdict(self, which: Component, s: Seq<char>) -> Result<
        (),
        DomainParsingError,
    > {
        if s.len() == 0 {
            match which {
                Component::Domain => if self.allow_empty_domain {
                    Ok(())
                } else {
                    Err(DomainParsingError::EmptyDomain)
                },
                Component::Name => if self.allow_empty_name {
                    Ok(())
                } else {
                    Err(DomainParsingError::EmptyName)
                },
            }
        } else if self.max_component_len is Some && unit_len(s) > self.max_component_len->0 {
            Err(
                DomainParsingError::ComponentTooLong {
                    which,
                    max: self.max_component_len->0,
                    actual: unit_len(s) as usize,
                },
            )
        } else if none_forbidden(self.forbidden_ascii, s) {
            Ok(())
        } else {
            let at = first_forbidden(self.forbidden_ascii, s);
            Err(
                DomainParsingError::ForbiddenUnit {
                    which,
                    unit: s[at] as u32,
                    index: unit_len(s.take(at)) as usize,
                },
            )
        }
    }

    /// The verdict of this policy on a domain and a name: that on the
    /// domain where it is refused, and otherwise that on the name.
    pub open spec fn verdict_pair(self, domain: Seq<char>, name: Seq<char>) -> Result<
        (),
        DomainParsingError,
    > {
        match self.verdict(Component::Domain, domain) {
            Err(e) => Err(e),
            Ok(()) => self.verdict(Component::Name, name),
        }
    }

    /// What a text is read as under this policy: the parts on either side
    /// of its one separator, where the policy accepts them.
    pub open spec fn reading(self, s: Seq<char>) -> Result<
        (Seq<char>, Seq<char>),
        DomainParsingError,
    > {
        if !s.contains(SEPARATOR) {
            Err(DomainParsingError::MissingSeparator)
        } else {
            let at = first_separator(s);
            let domain = s.take(at);
            let name = s.skip(at + 1);
            if name.contains(SEPARATOR) {
                Err(DomainParsingError::TooManySeparators)
            } else {
                match self.verdict_pair(domain, name) {
                    Err(e) => Err(e),
                    Ok(()) => Ok((domain, name)),
                }
            }
        }
    }

}

impl ParsePolicy {
    /// A policy with the given demands.
    pub fn new(
        allow_empty_domain: bool,
        allow_empty_name: bool,
        max_component_len: Option<usize>,
        forbidden_ascii: &'static [u8],
    ) -> (policy: Self)
        ensures
            policy@ == (PolicyValue {
                allow_empty_domain,
                allow_empty_name,
                max_component_len,
                forbidden_ascii: forbidden_ascii@,
            }),
    {
        ParsePolicy { allow_empty_domain, allow_empty_name, max_component_len, forbidden_ascii }
    }
}

/// A text takes no more code units than its encoding takes bytes.
pub proof fn lemma_unit_len_bound(s: Seq<char>)
    ensures
        unit_len(s) <= encode_utf8(s).len(),
    decreases s.len(),
{
    if s.len() > 0 {
        lemma_unit_len_bound(s.drop_first());
        vstd::utf8::char_is_scalar(s[0]);
    }
}

/// The code units of a text are those of its parts.
pub proof fn lemma_unit_len_add(a: Seq<char>, b: Seq<char>)
    ensures
        unit_len(a + b) == unit_len(a) + unit_len(b),
    decreases a.len(),
{
    if a.len() == 0 {
        assert(a + b =~= b);
    } else {
        lemma_unit_len_add(a.drop_first(), b);
        assert((a + b).drop_first() =~= a.drop_first() + b);
    }
}

/// The number of code units that `s` takes.
pub fn unit_count(s: &str) -> (count: usize)
    ensures
        count == unit_len(s@),
{
    let limit: usize = s.as_bytes().len();
    proof {
        lemma_unit_len_bound(s@);
        assert(s.spec_bytes() == encode_utf8(s@));
    }
    let mut count: usize = 0;
    let mut chars = s.chars();
    let ghost mut k: int = 0;
    assert(s@.subrange(0, s@.len() as int) =~= s@);
    loop
        invariant
            0 <= k <= s@.len(),
            chars.remaining() == s@.subrange(k, s@.len() as int),
            chars.obeys_prophetic_iter_laws(),
            count + unit_len(chars.remaining()) == unit_len(s@),
            unit_len(s@) <= limit,
        ensures
            count == unit_len(s@),
        decreases s@.len() - k,
    {
        let ghost rest = chars.remaining();
        match chars.next() {
            Some(c) => {
                proof {
                    assert(rest.drop_first() =~= s@.subrange(k + 1, s@.len() as int));
                    k = k + 1;
                }
                if (c as u32) < 0x1_0000 {
                    count += 1;
                } else {
                    count += 2;
                }
            },
            None => {
                break ;
            },
        }
    }
    count
}

/// Whether `c` is the unit zero or one of the units in `forbidden`.
pub fn forbids(forbidden: &[u8], c: char) -> (found: bool)
    ensures
        found == is_forbidden(forbidden@, c),
{
    if c as u32 == 0 {
        return true;
    }
    let mut i: usize = 0;
    while i < forbidden.len()
        invariant
            0 <= i <= forbidden@.len(),
            c as u32 != 0,
            forall|j: int| 0 <= j < i ==> #[trigger] forbidden@[j] as u32 != c as u32,
        decreases forbidden@.len() - i,
    {
        if forbidden[i] as u32 == c as u32 {
            return true;
        }
        i += 1;
    }
    false
}

impl ParsePolicy {
    /// Holds one part of an account name against this policy.
    pub fn validate_component(&self, which: Component, s: &str) -> (r: Result<
        (),
        DomainParsingError,
    >)
        ensures
            r == self@.verdict(which, s@),
    {
        if s.is_empty() {
            return match which {
                Component::Domain => {
                    if self.allow_empty_domain {
                        Ok(())
                    } else {
                        Err(DomainParsingError::EmptyDomain)
                    }
                },
                Component::Name => {
                    if self.allow_empty_name {
                        Ok(())
                    } else {
                        Err(DomainParsingError::EmptyName)
                    }
                },
            };
        }
        let len = unit_count(s);
        match self.max_component_len {
            Some(max) => {
                if len > max {
                    return Err(DomainParsingError::ComponentTooLong { which, max, actual: len });
                }
            },
            None => {},
        }
        let ghost forbidden = self.forbidden_ascii@;
        let mut index: usize = 0;
        let mut chars = s.chars();
        let ghost mut k: int = 0;
        assert(s@.take(0) =~= Seq::<char>::empty());
        loop
            invariant
                0 <= k <= s@.len(),
                chars.remaining() == s@.subrange(k, s@.len() as int),
                chars.obeys_prophetic_iter_laws(),
                forbidden == self.forbidden_ascii@,
                forall|j: int| 0 <= j < k ==> !is_forbidden(forbidden, #[trigger] s@[j]),
                index == unit_len(s@.take(k)),
                len == unit_len(s@),
                s@.len() > 0,
                self.max_component_len is Some ==> len <= self.max_component_len->0,
            ensures
                k == s@.len(),
                none_forbidden(forbidden, s@),
            decreases s@.len() - k,
        {
            match chars.next() {
                Some(c) => {
                    assert(c == s@[k]);
                    if forbids(self.forbidden_ascii, c) {
                        assert(is_first_forbidden(forbidden, s@, k));
                        assert(first_forbidden(forbidden, s@) == k);
                        return Err(
                            DomainParsingError::ForbiddenUnit { which, unit: c as u32, index },
                        );
                    }
                    proof {
                        lemma_unit_len_add(s@.take(k), seq![c]);
                        assert(s@.take(k + 1) =~= s@.take(k) + seq![c]);
                        assert(seq![c].drop_first() =~= Seq::<char>::empty());
                        assert(unit_len(Seq::<char>::empty()) == 0);
                        assert(seq![c][0] == c);
                        assert(unit_len(seq![c]) == unit_width(c));
                        lemma_unit_len_add(s@.take(k + 1), s@.skip(k + 1));
                        assert(s@.take(k + 1) + s@.skip(k + 1) =~= s@);
                    }
                    if (c as u32) < 0x1_0000 {
                        index += 1;
                    } else {
                        index += 2;
                    }
                    proof {
                        k = k + 1;
                    }
                },
                None => {
                    break ;
                },
            }
        }
        Ok(())
    }
}

impl ParsePolicy {
    /// What is asked by default: a name that is not empty, and no
    /// separator inside either part.
    pub fn default_policy() -> (policy: Self)
        ensures
            policy@ == default_policy_value(),
    {
        let forbidden_ascii: &'static [u8] = &[92, 0];
        ParsePolicy {
            allow_empty_domain: true,
            allow_empty_name: false,
            max_component_len: None,
            forbidden_ascii,
        }
    }

    /// Holds a domain and a name against this policy, the domain first.
    pub fn validate_pair(&self, domain: &str, name: &str) -> (r: Result<(), DomainParsingError>)
        ensures
            r == self@.verdict_pair(domain@, name@),
    {
        match self.validate_component(Component::Domain, domain) {
            Err(e) => Err(e),
            Ok(()) => self.validate_component(Component::Name, name),
        }
    }
}

impl Default for ParsePolicy {
    fn default() -> (policy: Self)
        ensures
            policy@ == default_policy_value(),
    {
        Self::default_policy()
    }
}

/// An account name: a domain and a name within it.
#[derive(Clone, Debug, PartialEq, Eq, Hash, Default)]
pub struct DomainAndName {
    /// The part before the separator.
    pub domain: String,
    /// The part after the separator.
    pub name: String,
}

impl DomainAndName {
    /// The account name with these parts, whatever they hold.
    pub fn new(domain: &str, name: &str) -> (pair: Self)
        ensures
            pair.domain@ == domain@,
            pair.name@ == name@,
    {
        DomainAndName { domain: domain.to_owned(), name: name.to_owned() }
    }

    /// The account name with these parts, where `policy` accepts them.
    pub fn try_new_with_policy(policy: &ParsePolicy, domain: &str, name: &str) -> (r: Result<
        Self,
        DomainParsingError,
    >)
        ensures
            match policy@.verdict_pair(domain@, name@) {
                Err(e) => r == Err::<Self, DomainParsingError>(e),
                Ok(()) => r is Ok && r->Ok_0.domain@ == domain@ && r->Ok_0.name@ == name@,
            },
    {
        match policy.validate_pair(domain, name) {
            Err(e) => Err(e),
            Ok(()) => Ok(Self::new(domain, name)),
        }
    }

    /// Reads `DOMAIN\Name` under `policy`: the text must hold exactly
    /// one separator, and the policy must accept both parts.
    pub fn parse_with_policy(policy: &ParsePolicy, s: &str) -> (r: Result<Self, DomainParsingError>)
        ensures
            match policy@.reading(s@) {
                Err(e) => r == Err::<Self, DomainParsingError>(e),
                Ok((domain, name)) => r is Ok && r->Ok_0.domain@ == domain && r->Ok_0.name@
                    == name,
            },
    {
        let len = s.unicode_len();
        let mut first: Option<usize> = None;
        let mut second = false;
        let mut chars = s.chars();
        let mut k: usize = 0;
        assert(s@.subrange(0, s@.len() as int) =~= s@);
        loop
            invariant
                0 <= k <= s@.len(),
                len == s@.len(),
                chars.remaining() == s@.subrange(k as int, s@.len() as int),
                chars.obeys_prophetic_iter_laws(),
                first is None ==> forall|j: int| 0 <= j < k ==> #[trigger] s@[j] != SEPARATOR,
                first matches Some(at) ==> at < k && is_first_separator(s@, at as int),
                first is None ==> !second,
                first matches Some(at) ==> (second <==> exists|j: int|
                    at < j < k && #[trigger] s@[j] == SEPARATOR),
            ensures
                k == s@.len(),
            decreases s@.len() - k,
        {
            match chars.next() {
                Some(c) => {
                    assert(c == s@[k as int]);
                    if c == SEPARATOR {
                        match first {
                            None => {
                                first = Some(k);
                            },
                            Some(_) => {
                                second = true;
                            },
                        }
                    }
                    k += 1;
                },
                None => {
                    break ;
                },
            }
        }
        match first {
            None => {
                assert(!s@.contains(SEPARATOR));
                Err(DomainParsingError::MissingSeparator)
            },
            Some(at) => {
                proof {
                    assert(s@[at as int] == SEPARATOR);
                    assert(s@.contains(SEPARATOR));
                    assert(first_separator(s@) == at);
                    let rest = s@.skip(at + 1);
                    if second {
                        let j = choose|j: int| at < j < k && #[trigger] s@[j] == SEPARATOR;
                        assert(rest[j - at - 1] == SEPARATOR);
                        assert(rest.contains(SEPARATOR));
                    } else {
                        if rest.contains(SEPARATOR) {
                            let i = choose|i: int| 0 <= i < rest.len() && rest[i] == SEPARATOR;
                            assert(s@[at + 1 + i] == SEPARATOR);
                        }
                    }
                }
                if second {
                    return Err(DomainParsingError::TooManySeparators);
                }
                let domain = s.substring_char(0, at);
                let name = s.substring_char(at + 1, len);
                assert(domain@ =~= s@.take(at as int));
                assert(name@ =~= s@.skip(at + 1));
                match policy.validate_pair(domain, name) {
                    Err(e) => Err(e),
                    Ok(()) => Ok(Self::new(domain, name)),
                }
            },
        }
    }

    /// Reads `DOMAIN\Name` under the default policy.
    pub fn from_str(s: &str) -> (r: Result<Self, DomainParsingError>)
        ensures
            match default_policy_value().reading(s@) {
                Err(e) => r == Err::<Self, DomainParsingError>(e),
                Ok((domain, name)) => r is Ok && r->Ok_0.domain@ == domain && r->Ok_0.name@
                    == name,
            },
    {
        let policy = ParsePolicy::default_policy();
        Self::parse_with_policy(&policy, s)
    }

    /// The account name as text: the domain, the separator, the name.
    pub fn to_string(&self) -> (text: String)
        ensures
            text@ == self.domain@ + seq![SEPARATOR] + self.name@,
    {
        let mut text = self.domain.clone();
        string_push(&mut text, SEPARATOR);
        text.append(self.name.as_str());
        text
    }
}

impl core::str::FromStr for DomainAndName {
    type Err = DomainParsingError;

    /// Reads `DOMAIN\Name` under the default policy.
    fn from_str(s: &str) -> (r: Result<Self, DomainParsingError>)
        ensures
            match default_policy_value().reading(s@) {
                Err(e) => r == Err::<Self, DomainParsingError>(e),
                Ok((domain, name)) => r is Ok && r->Ok_0.domain@ == domain && r->Ok_0.name@
                    == name,
            },
    {
        DomainAndName::from_str(s)
    }
}

/// An account name that was written as text reads back as itself:
/// joining a domain and a name that hold no separator, and that the
/// policy accepts, gives a text that is read as that domain and that name.
pub proof fn lemma_reading_of_text(policy: PolicyValue, domain: Seq<char>, name: Seq<char>)
    requires
        !domain.contains(SEPARATOR),
        !name.contains(SEPARATOR),
        policy.verdict_pair(domain, name) is Ok,
    ensures
        policy.reading(domain + seq![SEPARATOR] + name) == Ok::<
            (Seq<char>, Seq<char>),
            DomainParsingError,
        >((domain, name)),
{
    let s = domain + seq![SEPARATOR] + name;
    let at = domain.len() as int;
    assert(s[at] == SEPARATOR);
    assert(s.contains(SEPARATOR));
    assert forall|j: int| 0 <= j < at implies #[trigger] s[j] != SEPARATOR by {
        assert(s[j] == domain[j]);
        assert(domain.contains(domain[j]));
    }
    assert(is_first_separator(s, at));
    assert(first_separator(s) == at);
    assert(s.take(at) =~= domain);
    assert(s.skip(at + 1) =~= name);
}

} // verus!
