//! The text form of an identifier: `S-1-<authority>-<sub>-<sub>...`.
//!
//! The grammar is stated over sequences of characters. A text is cut at
//! every `-`; the first field is the letter `S` in either case, the second
//! the revision, the third the authority and every further one a
//! sub-authority. Numeric fields are decimal, with an optional leading `+`.
use arrayvec::ArrayVec;
use crate::sid::SidValue;
use crate::sid_identifier_authority::{be48, be48_bytes, SidIdentifierAuthority};
use vstd::prelude::*;
use vstd::std_specs::iter::IteratorSpec;

verus! {

/// The text or the bytes handed in do not describe an identifier.
#[derive(Clone, Copy, Debug, PartialEq, Eq, Structural)]
pub struct InvalidSidFormat;

impl InvalidSidFormat {
    /// What went wrong, in words.
    pub fn to_string(&self) -> (text: String)
        ensures
            text@ == "Invalid format for Sid"@,
    {
        "Invalid format for Sid".to_owned()
    }
}

/// The fields of `s`, cut at every `-`.
///
/// A text without `-` is one field; a trailing `-` leaves an empty last
/// field.
pub open spec fn split_dash(s: Seq<char>) -> Seq<Seq<char>>
    decreases s.len(),
{
    if s.len() == 0 {
        seq![Seq::<char>::empty()]
    } else if s.last() == '-' {
        split_dash(s.drop_last()).push(Seq::<char>::empty())
    } else {
        let fields = split_dash(s.drop_last());
        fields.drop_last().push(fields.last().push(s.last()))
    }
}

/// Whether `c` is a decimal digit.
pub open spec fn is_digit(c: char) -> bool {
    '0' <= c <= '9'
}

/// The number a decimal digit stands for.
pub open spec fn digit_value(c: char) -> nat {
    (c as u32 - '0' as u32) as nat
}

/// Whether `d` holds decimal digits only.
pub open spec fn all_digits(d: Seq<char>) -> bool {
    forall|i: int| 0 <= i < d.len() ==> is_digit(#[trigger] d[i])
}

/// The number that the decimal digits `d` stand for.
pub open spec fn digits_value(d: Seq<char>) -> nat
    decreases d.len(),
{
    if d.len() == 0 {
        0
    } else {
        digits_value(d.drop_last()) * 10 + digit_value(d.last())
    }
}

/// A numeric field without its optional leading `+`.
pub open spec fn unsigned_digits(f: Seq<char>) -> Seq<char> {
    if f.len() > 0 && f[0] == '+' {
        f.drop_first()
    } else {
        f
    }
}

/// The number a field stands for, if it is a decimal number of at most
/// `limit`: an optional `+`, then one digit or more.
pub open spec fn parse_unsigned(f: Seq<char>, limit: nat) -> Option<nat> {
    let d = unsigned_digits(f);
    if d.len() > 0 && all_digits(d) && digits_value(d) <= limit {
        Some(digits_value(d))
    } else {
        None
    }
}

/// The largest number the field at position `j` may hold: the revision is
/// a byte, the authority 64 bits wide, a sub-authority 32 bits.
pub open spec fn field_limit(j: int) -> nat {
    if j == 1 {
        0xff
    } else if j == 2 {
        0xffff_ffff_ffff_ffff
    } else {
        0xffff_ffff
    }
}

/// Whether `f` is acceptable as the field at position `j` of a text.
pub open spec fn field_ok(f: Seq<char>, j: int) -> bool {
    if j == 0 {
        f == seq!['S'] || f == seq!['s']
    } else if j == 1 {
        parse_unsigned(f, field_limit(1)) == Some(1nat)
    } else {
        parse_unsigned(f, field_limit(j)) is Some
    }
}

/// Whether the first `n` of `fields` are acceptable and leave room for no
/// more than fifteen sub-authorities.
pub open spec fn fields_ok(fields: Seq<Seq<char>>, n: int) -> bool {
    &&& n <= 18
    &&& forall|j: int| 0 <= j < n ==> field_ok(#[trigger] fields[j], j)
}

/// Whether `s` is the text of an identifier.
pub open spec fn well_formed_text(s: Seq<char>) -> bool {
    let fields = split_dash(s);
    4 <= fields.len() && fields_ok(fields, fields.len() as int)
}

/// The number in the authority field of a well-formed text.
pub open spec fn parsed_authority(s: Seq<char>) -> nat {
    parse_unsigned(split_dash(s)[2], field_limit(2)).unwrap()
}

/// The sub-authorities among `fields`, of which `n` are in use.
pub open spec fn sub_authorities_of(fields: Seq<Seq<char>>, n: int) -> Seq<u32> {
    Seq::new(
        if n > 3 {
            (n - 3) as nat
        } else {
            0
        },
        |i: int| parse_unsigned(fields[i + 3], field_limit(3)).unwrap() as u32,
    )
}

/// The sub-authorities of a well-formed text, in order.
pub open spec fn parsed_sub_authority(s: Seq<char>) -> Seq<u32> {
    let fields = split_dash(s);
    sub_authorities_of(fields, fields.len() as int)
}

/// The identifier that a well-formed text describes: revision 1, the low
/// six bytes of the authority field, and the sub-authorities.
pub open spec fn value_of_text(s: Seq<char>) -> SidValue {
    SidValue {
        revision: 1,
        identifier_authority: be48_bytes(parsed_authority(s) as int),
        sub_authority: parsed_sub_authority(s),
    }
}

/// `arrayvec::ArrayVec`, a vector that holds at most `CAP` elements
/// inline. What it holds is known through [`items`] alone.
#[verifier::external_type_specification]
#[verifier::external_body]
#[verifier::reject_recursive_types(T)]
pub struct ExArrayVec<T, const CAP: usize>(ArrayVec<T, CAP>);

/// The elements that a bounded vector of sub-authorities holds, in order.
pub uninterp spec fn items(v: ArrayVec<u32, 15>) -> Seq<u32>;

/// `ArrayVec::new`: a bounded vector that holds nothing.
#[verifier::external_body]
fn sub_authority_new() -> (v: ArrayVec<u32, 15>)
    ensures
        items(v) == Seq::<u32>::empty(),
{
    ArrayVec::new()
}

/// `ArrayVec::try_push`: appends `element` while fewer than fifteen
/// elements are held, and otherwise leaves the vector as it was and says so.
#[verifier::external_body]
fn sub_authority_try_push(v: &mut ArrayVec<u32, 15>, element: u32) -> (pushed: bool)
    ensures
        pushed == (items(*old(v)).len() < 15),
        pushed ==> items(*final(v)) == items(*old(v)).push(element),
        !pushed ==> items(*final(v)) == items(*old(v)),
{
    v.try_push(element).is_ok()
}

/// `ArrayVec::as_slice`: the elements held, in order.
#[verifier::external_body]
pub(crate) fn sub_authority_as_slice(v: &ArrayVec<u32, 15>) -> (s: &[u32])
    ensures
        s@ == items(*v),
{
    v.as_slice()
}

/// The authority and the sub-authorities read from a text.
pub struct SidComponents {
    /// The authority, most significant byte first.
    pub identifier_authority: [u8; 6],
    /// The sub-authorities, in order.
    pub sub_authority: ArrayVec<u32, 15>,
}

/// What has been read of one numeric field.
struct Number {
    value: u64,
    digits: bool,
    empty: bool,
    bad: bool,
}

impl Number {
    /// Whether `self` describes the field `f`, read so far under `limit`.
    spec fn describes(self, f: Seq<char>, limit: u64) -> bool {
        let d = unsigned_digits(f);
        &&& self.bad == !(all_digits(d) && digits_value(d) <= limit)
        &&& !self.bad ==> {
            &&& self.value == digits_value(d)
            &&& self.digits == (d.len() > 0)
            &&& self.empty == (f.len() == 0)
        }
    }

    fn new(limit: u64) -> (n: Self)
        ensures
            n.describes(Seq::<char>::empty(), limit),
    {
        Number { value: 0, digits: false, empty: true, bad: false }
    }

    fn push(&mut self, c: char, limit: u64, Ghost(f): Ghost<Seq<char>>)
        requires
            old(self).describes(f, limit),
        ensures
            final(self).describes(f.push(c), limit),
    {
        let ghost d = unsigned_digits(f);
        let ghost d2 = unsigned_digits(f.push(c));
        proof {
            if f.len() == 0 && c == '+' {
                assert(d2 =~= Seq::<char>::empty());
            } else {
                assert(d2 =~= d.push(c));
                assert(d2.drop_last() =~= d);
                assert(all_digits(d2) ==> all_digits(d)) by {
                    if all_digits(d2) {
                        assert forall|i: int| 0 <= i < d.len() implies is_digit(#[trigger] d[i]) by {
                            assert(d2[i] == d[i]);
                        }
                    }
                }
                assert(all_digits(d2) ==> is_digit(c)) by {
                    if all_digits(d2) {
                        assert(d2[d2.len() - 1] == c);
                    }
                }
            }
        }
        if self.bad {
            return ;
        }
        if self.empty && c == '+' {
            self.empty = false;
            return ;
        }
        self.empty = false;
        if '0' <= c && c <= '9' {
            let digit: u64 = (c as u32 - '0' as u32) as u64;
            let grown: Option<u64> = match self.value.checked_mul(10) {
                Some(tens) => tens.checked_add(digit),
                None => None,
            };
            match grown {
                Some(value) => {
                    if value <= limit {
                        self.value = value;
                        self.digits = true;
                    } else {
                        self.bad = true;
                    }
                },
                None => {
                    self.bad = true;
                },
            }
        } else {
            self.bad = true;
        }
    }

    fn result(&self, limit: u64, Ghost(f): Ghost<Seq<char>>) -> (r: Option<u64>)
        requires
            self.describes(f, limit),
        ensures
            r is Some <==> parse_unsigned(f, limit as nat) is Some,
            r matches Some(v) ==> parse_unsigned(f, limit as nat) == Some(v as nat),
    {
        if !self.bad && self.digits {
            Some(self.value)
        } else {
            None
        }
    }
}

/// What has been read of the first field.
#[derive(Clone, Copy, PartialEq, Eq, Structural)]
enum Head {
    Nothing,
    Letter,
    Other,
}

impl Head {
    /// Whether `self` describes the first field `f`, read so far.
    spec fn describes(self, f: Seq<char>) -> bool {
        match self {
            Head::Nothing => f.len() == 0,
            Head::Letter => f == seq!['S'] || f == seq!['s'],
            Head::Other => f.len() > 0 && !(f == seq!['S'] || f == seq!['s']),
        }
    }
}

/// The largest number the field at position `index` may hold.
fn limit_of(index: usize) -> (limit: u64)
    ensures
        limit == field_limit(index as int),
{
    if index == 1 {
        0xff
    } else if index == 2 {
        0xffff_ffff_ffff_ffff
    } else {
        0xffff_ffff
    }
}

/// A text read up to some character: the fields that are complete, and
/// what has been seen of the one being read.
struct Reader {
    index: usize,
    ok: bool,
    head: Head,
    number: Number,
    authority: u64,
    sub_authority: ArrayVec<u32, 15>,
}

impl Reader {
    /// Whether `self` is the state after reading a text cut into `fields`.
    spec fn follows(self, fields: Seq<Seq<char>>) -> bool {
        &&& fields.len() >= 1
        &&& self.ok == fields_ok(fields, fields.len() - 1)
        &&& self.ok ==> {
            &&& self.index == fields.len() - 1
            &&& self.index > 2 ==> Some(self.authority as nat) == parse_unsigned(
                fields[2],
                field_limit(2),
            )
            &&& items(self.sub_authority) == sub_authorities_of(fields, self.index as int)
            &&& if self.index == 0 {
                self.head.describes(fields.last())
            } else {
                self.number.describes(fields.last(), field_limit(self.index as int) as u64)
            }
        }
    }

    fn new() -> (r: Self)
        ensures
            r.follows(split_dash(Seq::<char>::empty())),
    {
        let r = Reader {
            index: 0,
            ok: true,
            head: Head::Nothing,
            number: Number::new(0),
            authority: 0,
            sub_authority: sub_authority_new(),
        };
        proof {
            let fields = split_dash(Seq::<char>::empty());
            assert(items(r.sub_authority) =~= sub_authorities_of(fields, 0));
        }
        r
    }

    /// Reads a character other than `-`, which extends the current field.
    fn take(&mut self, c: char, Ghost(fields): Ghost<Seq<Seq<char>>>)
        requires
            old(self).follows(fields),
            c != '-',
        ensures
            final(self).follows(fields.drop_last().push(fields.last().push(c))),
    {
        let ghost after = fields.drop_last().push(fields.last().push(c));
        proof {
            assert(after.len() == fields.len());
            assert forall|j: int| 0 <= j < fields.len() - 1 implies #[trigger] after[j]
                == fields[j] by {}
            assert(fields_ok(after, after.len() - 1) == fields_ok(fields, fields.len() - 1)) by {
                if fields_ok(after, after.len() - 1) {
                    assert forall|j: int| 0 <= j < fields.len() - 1 implies field_ok(
                        #[trigger] fields[j],
                        j,
                    ) by {
                        assert(after[j] == fields[j]);
                    }
                }
                if fields_ok(fields, fields.len() - 1) {
                    assert forall|j: int| 0 <= j < after.len() - 1 implies field_ok(
                        #[trigger] after[j],
                        j,
                    ) by {
                        assert(after[j] == fields[j]);
                    }
                }
            }
            assert(after.last() == fields.last().push(c));
            if self.ok {
                assert(sub_authorities_of(after, self.index as int) =~= sub_authorities_of(
                    fields,
                    self.index as int,
                ));
            }
        }
        if !self.ok {
            return ;
        }
        if self.index == 0 {
            let ghost f = fields.last();
            proof {
                if f.len() == 0 {
                    assert(f.push(c) =~= seq![c]);
                    assert(seq![c][0] == c);
                    assert(seq!['S'][0] == 'S');
                    assert(seq!['s'][0] == 's');
                } else {
                    assert(f.push(c).len() >= 2);
                    assert(seq!['S'].len() == 1);
                    assert(seq!['s'].len() == 1);
                }
            }
            self.head = match self.head {
                Head::Nothing => if c == 'S' || c == 's' {
                    Head::Letter
                } else {
                    Head::Other
                },
                _ => Head::Other,
            };
        } else {
            let limit = limit_of(self.index);
            self.number.push(c, limit, Ghost(fields.last()));
        }
    }

    /// Reads a `-`, or the end of the text: the current field is complete
    /// and an empty one begins.
    fn dash(&mut self, Ghost(fields): Ghost<Seq<Seq<char>>>)
        requires
            old(self).follows(fields),
        ensures
            final(self).follows(fields.push(Seq::<char>::empty())),
    {
        let ghost after = fields.push(Seq::<char>::empty());
        let ghost n = fields.len() as int;
        proof {
            assert forall|j: int| 0 <= j < n implies #[trigger] after[j] == fields[j] by {}
            assert(fields_ok(after, n) ==> fields_ok(fields, n - 1)) by {
                if fields_ok(after, n) {
                    assert forall|j: int| 0 <= j < n - 1 implies field_ok(
                        #[trigger] fields[j],
                        j,
                    ) by {
                        assert(after[j] == fields[j]);
                    }
                }
            }
            assert(fields_ok(after, n) ==> field_ok(fields[n - 1], n - 1)) by {
                if fields_ok(after, n) {
                    assert(after[n - 1] == fields[n - 1]);
                }
            }
            assert(fields_ok(fields, n - 1) && field_ok(fields[n - 1], n - 1) && n <= 18
                ==> fields_ok(after, n)) by {
                if fields_ok(fields, n - 1) && field_ok(fields[n - 1], n - 1) && n <= 18 {
                    assert forall|j: int| 0 <= j < n implies field_ok(#[trigger] after[j], j) by {
                        assert(after[j] == fields[j]);
                    }
                }
            }
        }
        if !self.ok {
            return ;
        }
        let ghost last = fields.last();
        if self.index == 0 {
            if self.head != Head::Letter {
                self.ok = false;
                return ;
            }
        } else {
            let limit = limit_of(self.index);
            let number = self.number.result(limit, Ghost(last));
            match number {
                None => {
                    self.ok = false;
                    return ;
                },
                Some(value) => {
                    if self.index == 1 {
                        if value != 1 {
                            self.ok = false;
                            return ;
                        }
                    } else if self.index == 2 {
                        self.authority = value;
                    } else {
                        let pushed = sub_authority_try_push(&mut self.sub_authority, value as u32);
                        if !pushed {
                            self.ok = false;
                            return ;
                        }
                    }
                },
            }
        }
        self.index = self.index + 1;
        self.number = Number::new(limit_of(self.index));
        proof {
            assert(fields_ok(after, n));
            assert(items(self.sub_authority) =~= sub_authorities_of(after, self.index as int));
            assert(after.last() =~= Seq::<char>::empty());
        }
    }
}

impl SidComponents {
    /// The sub-authorities held, in order.
    pub open spec fn spec_sub_authority(&self) -> Seq<u32> {
        items(self.sub_authority)
    }

    /// Reads the text of an identifier.
    ///
    /// Succeeds exactly on the well-formed texts, and then returns the low
    /// six bytes of the authority field and the sub-authorities in order.
    pub fn from_str(s: &str) -> (r: Result<SidComponents, InvalidSidFormat>)
        ensures
            r is Ok <==> well_formed_text(s@),
            r matches Ok(c) ==> {
                &&& c.identifier_authority@ == be48_bytes(parsed_authority(s@) as int)
                &&& c.spec_sub_authority() == parsed_sub_authority(s@)
            },
    {
        let mut reader = Reader::new();
        let mut chars = s.chars();
        let ghost mut k: int = 0;
        assert(s@.subrange(0, 0) =~= Seq::<char>::empty());
        loop
            invariant
                0 <= k <= s@.len(),
                chars.remaining() == s@.subrange(k, s@.len() as int),
                chars.obeys_prophetic_iter_laws(),
                reader.follows(split_dash(s@.subrange(0, k))),
            ensures
                k == s@.len(),
            decreases s@.len() - k,
        {
            let ghost fields = split_dash(s@.subrange(0, k));
            match chars.next() {
                Some(c) => {
                    proof {
                        let before = s@.subrange(0, k);
                        let now = s@.subrange(0, k + 1);
                        assert(now.drop_last() =~= before);
                        assert(now.last() == c);
                    }
                    if c == '-' {
                        reader.dash(Ghost(fields));
                    } else {
                        reader.take(c, Ghost(fields));
                    }
                    proof {
                        k = k + 1;
                    }
                },
                None => {
                    break ;
                },
            }
        }
        assert(s@.subrange(0, k) =~= s@);
        let ghost fields = split_dash(s@);
        reader.dash(Ghost(fields));
        proof {
            let after = fields.push(Seq::<char>::empty());
            let n = fields.len() as int;
            assert forall|j: int| 0 <= j < n implies #[trigger] after[j] == fields[j] by {}
            assert(fields_ok(after, n) == fields_ok(fields, n)) by {
                if fields_ok(after, n) {
                    assert forall|j: int| 0 <= j < n implies field_ok(
                        #[trigger] fields[j],
                        j,
                    ) by {
                        assert(after[j] == fields[j]);
                    }
                }
                if fields_ok(fields, n) {
                    assert forall|j: int| 0 <= j < n implies field_ok(#[trigger] after[j], j) by {
                        assert(after[j] == fields[j]);
                    }
                }
            }
            if reader.ok && n > 2 {
                assert(after[2] == fields[2]);
                assert(sub_authorities_of(after, n) =~= sub_authorities_of(fields, n));
            }
        }
        if reader.ok && reader.index >= 4 {
            let authority = SidIdentifierAuthority::from_number(reader.authority);
            Ok(
                SidComponents {
                    identifier_authority: authority.value,
                    sub_authority: reader.sub_authority,
                },
            )
        } else {
            Err(InvalidSidFormat)
        }
    }
}

/// The character of a decimal digit.
pub open spec fn digit_char(d: nat) -> char
    recommends
        d < 10,
{
    (('0' as u8) + d as u8) as char
}

/// The character of a hexadecimal digit, in upper case.
pub open spec fn hex_char(d: nat) -> char
    recommends
        d < 16,
{
    if d < 10 {
        digit_char(d)
    } else {
        (('A' as u8) + (d - 10) as u8) as char
    }
}

/// `n` in decimal, without leading zeros.
pub open spec fn decimal(n: nat) -> Seq<char>
    decreases n,
{
    if n < 10 {
        seq![digit_char(n)]
    } else {
        decimal(n / 10).push(digit_char(n % 10))
    }
}

/// `n` in upper-case hexadecimal, without leading zeros.
pub open spec fn upper_hex(n: nat) -> Seq<char>
    decreases n,
{
    if n < 16 {
        seq![hex_char(n)]
    } else {
        upper_hex(n / 16).push(hex_char(n % 16))
    }
}

/// The authority field: decimal where the number fits 32 bits, and
/// otherwise `0x` followed by upper-case hexadecimal.
pub open spec fn authority_text(n: nat) -> Seq<char> {
    if n <= 0xffff_ffff {
        decimal(n)
    } else {
        seq!['0', 'x'] + upper_hex(n)
    }
}

/// The fields of the text of an identifier: the letter `S`, the revision,
/// the authority, then each sub-authority.
pub open spec fn sid_fields(revision: u8, authority: Seq<u8>, sub_authority: Seq<u32>) -> Seq<
    Seq<char>,
> {
    Seq::new(
        3 + sub_authority.len(),
        |j: int|
            if j == 0 {
                seq!['S']
            } else if j == 1 {
                decimal(revision as nat)
            } else if j == 2 {
                authority_text(be48(authority) as nat)
            } else {
                decimal(sub_authority[j - 3] as nat)
            },
    )
}

/// `fields` with a `-` between each two neighbours.
pub open spec fn join_dash(fields: Seq<Seq<char>>) -> Seq<char>
    decreases fields.len(),
{
    if fields.len() == 0 {
        Seq::<char>::empty()
    } else if fields.len() == 1 {
        fields[0]
    } else {
        join_dash(fields.drop_last()) + seq!['-'] + fields.last()
    }
}

/// The text of the identifier with these parts.
pub open spec fn sid_text(revision: u8, authority: Seq<u8>, sub_authority: Seq<u32>) -> Seq<char> {
    join_dash(sid_fields(revision, authority, sub_authority))
}

/// `String::push`: appends one character.
#[verifier::external_body]
pub(crate) fn string_push(s: &mut String, c: char)
    ensures
        final(s)@ == old(s)@.push(c),
{
    s.push(c)
}

/// Appends `n` in decimal.
pub(crate) fn push_decimal(out: &mut String, n: u64)
    ensures
        final(out)@ == old(out)@ + decimal(n as nat),
    decreases n,
{
    if n >= 10 {
        push_decimal(out, n / 10);
    }
    let digit: u8 = (n % 10) as u8;
    string_push(out, (('0' as u8) + digit) as char);
    proof {
        if n >= 10 {
            assert(final(out)@ =~= old(out)@ + decimal((n / 10) as nat).push(
                digit_char((n % 10) as nat),
            ));
        } else {
            assert(final(out)@ =~= old(out)@ + seq![digit_char(n as nat)]);
        }
    }
}

/// Appends `n` in upper-case hexadecimal.
fn push_upper_hex(out: &mut String, n: u64)
    ensures
        final(out)@ == old(out)@ + upper_hex(n as nat),
    decreases n,
{
    if n >= 16 {
        push_upper_hex(out, n / 16);
    }
    let digit: u8 = (n % 16) as u8;
    let c: char = if digit < 10 {
        (('0' as u8) + digit) as char
    } else {
        (('A' as u8) + (digit - 10)) as char
    };
    string_push(out, c);
    proof {
        if n >= 16 {
            assert(final(out)@ =~= old(out)@ + upper_hex((n / 16) as nat).push(
                hex_char((n % 16) as nat),
            ));
        } else {
            assert(final(out)@ =~= old(out)@ + seq![hex_char(n as nat)]);
        }
    }
}

/// Writes an identifier as text: `S`, the revision, the authority and the
/// sub-authorities, each two separated by `-`.
pub fn format_sid(revision: u8, authority: &SidIdentifierAuthority, sub_authority: &[u32]) -> (out:
    String)
    ensures
        out@ == sid_text(revision, authority@, sub_authority@),
{
    let ghost fields = sid_fields(revision, authority@, sub_authority@);
    let mut out = String::new();
    string_push(&mut out, 'S');
    assert(out@ =~= join_dash(fields.take(1))) by {
        assert(fields.take(1)[0] == fields[0]);
        assert(out@ =~= seq!['S']);
    }
    string_push(&mut out, '-');
    push_decimal(&mut out, revision as u64);
    assert(out@ =~= join_dash(fields.take(2))) by {
        assert(fields.take(2).drop_last() =~= fields.take(1));
        assert(fields.take(2).last() == fields[1]);
    }
    string_push(&mut out, '-');
    let number = authority.number();
    if number <= 0xffff_ffff {
        push_decimal(&mut out, number);
    } else {
        string_push(&mut out, '0');
        string_push(&mut out, 'x');
        push_upper_hex(&mut out, number);
    }
    assert(out@ =~= join_dash(fields.take(3))) by {
        assert(fields.take(3).drop_last() =~= fields.take(2));
        assert(fields.take(3).last() == fields[2]);
    }
    let mut i: usize = 0;
    while i < sub_authority.len()
        invariant
            0 <= i <= sub_authority@.len(),
            fields == sid_fields(revision, authority@, sub_authority@),
            out@ == join_dash(fields.take(3 + i)),
        decreases sub_authority@.len() - i,
    {
        string_push(&mut out, '-');
        push_decimal(&mut out, sub_authority[i] as u64);
        assert(out@ =~= join_dash(fields.take(3 + i + 1))) by {
            assert(fields.take(3 + i + 1).drop_last() =~= fields.take(3 + i));
            assert(fields.take(3 + i + 1).last() == fields[3 + i]);
        }
        i += 1;
    }
    assert(fields.take(3 + i) =~= fields);
    out
}

/// Whether `d` is free of `-`.
pub open spec fn no_dash(d: Seq<char>) -> bool {
    forall|i: int| 0 <= i < d.len() ==> #[trigger] d[i] != '-'
}

/// A decimal digit reads back as the number it was written for.
proof fn lemma_digit_char(d: nat)
    requires
        d < 10,
    ensures
        is_digit(digit_char(d)),
        digit_value(digit_char(d)) == d,
{
}

/// The decimal text of a number is made of digits and stands for it.
pub proof fn lemma_decimal(n: nat)
    ensures
        decimal(n).len() > 0,
        all_digits(decimal(n)),
        digits_value(decimal(n)) == n,
    decreases n,
{
    if n < 10 {
        lemma_digit_char(n);
        let d = decimal(n);
        assert(d.drop_last() =~= Seq::<char>::empty());
        assert(digits_value(d.drop_last()) == 0);
    } else {
        lemma_decimal(n / 10);
        lemma_digit_char(n % 10);
        let d = decimal(n);
        assert(d.drop_last() =~= decimal(n / 10));
        assert(d.last() == digit_char(n % 10));
        assert forall|i: int| 0 <= i < d.len() implies is_digit(#[trigger] d[i]) by {
            if i < d.len() - 1 {
                assert(d[i] == decimal(n / 10)[i]);
            }
        }
    }
}

/// A number written in decimal is read back as itself, whenever the field
/// admits it.
pub proof fn lemma_parse_decimal(n: nat, limit: nat)
    requires
        n <= limit,
    ensures
        parse_unsigned(decimal(n), limit) == Some(n),
        no_dash(decimal(n)),
{
    lemma_decimal(n);
    let d = decimal(n);
    assert(is_digit(d[0]));
    assert(unsigned_digits(d) == d);
    assert forall|i: int| 0 <= i < d.len() implies #[trigger] d[i] != '-' by {
        assert(is_digit(d[i]));
    }
}

/// A text without `-` is a single field.
proof fn lemma_split_single(d: Seq<char>)
    requires
        no_dash(d),
    ensures
        split_dash(d) == seq![d],
    decreases d.len(),
{
    if d.len() == 0 {
        assert(d =~= Seq::<char>::empty());
    } else {
        assert(d.last() != '-') by {
            assert(d[d.len() - 1] != '-');
        }
        assert(no_dash(d.drop_last())) by {
            assert forall|i: int| 0 <= i < d.drop_last().len() implies #[trigger] d.drop_last()[i]
                != '-' by {
                assert(d[i] != '-');
            }
        }
        lemma_split_single(d.drop_last());
        let fields = split_dash(d.drop_last());
        assert(fields.last().push(d.last()) =~= d);
        assert(fields.drop_last().push(d) =~= seq![d]);
    }
}

/// Appending `-` and a field without `-` to a text appends that field to
/// its fields.
proof fn lemma_split_push_field(s: Seq<char>, d: Seq<char>)
    requires
        no_dash(d),
    ensures
        split_dash(s + seq!['-'] + d) == split_dash(s).push(d),
    decreases d.len(),
{
    let whole = s + seq!['-'] + d;
    if d.len() == 0 {
        assert(whole.drop_last() =~= s);
        assert(whole.last() == '-');
        assert(d =~= Seq::<char>::empty());
    } else {
        assert(d.last() != '-') by {
            assert(d[d.len() - 1] != '-');
        }
        assert(no_dash(d.drop_last())) by {
            assert forall|i: int| 0 <= i < d.drop_last().len() implies #[trigger] d.drop_last()[i]
                != '-' by {
                assert(d[i] != '-');
            }
        }
        lemma_split_push_field(s, d.drop_last());
        assert(whole.drop_last() =~= s + seq!['-'] + d.drop_last());
        assert(whole.last() == d.last());
        let fields = split_dash(whole.drop_last());
        assert(fields.last().push(d.last()) =~= d);
        assert(fields.drop_last() =~= split_dash(s));
    }
}

/// Cutting at every `-` undoes joining with `-`, for fields free of `-`.
pub proof fn lemma_split_join(fields: Seq<Seq<char>>)
    requires
        fields.len() >= 1,
        forall|j: int| 0 <= j < fields.len() ==> no_dash(#[trigger] fields[j]),
    ensures
        split_dash(join_dash(fields)) == fields,
    decreases fields.len(),
{
    if fields.len() == 1 {
        lemma_split_single(fields[0]);
        assert(seq![fields[0]] =~= fields);
    } else {
        let front = fields.drop_last();
        assert forall|j: int| 0 <= j < front.len() implies no_dash(#[trigger] front[j]) by {
            assert(front[j] == fields[j]);
        }
        lemma_split_join(front);
        assert(no_dash(fields.last())) by {
            assert(fields.last() == fields[fields.len() - 1]);
        }
        lemma_split_push_field(join_dash(front), fields.last());
        assert(front.push(fields.last()) =~= fields);
    }
}

/// Dividing `q * d + r` by `d` gives `q` and leaves `r`, for `r` below `d`.
proof fn lemma_quotient(q: int, r: int, d: int)
    requires
        0 < d,
        0 <= r < d,
    ensures
        (q * d + r) / d == q,
        (q * d + r) % d == r,
{
    vstd::arithmetic::div_mod::lemma_fundamental_div_mod_converse(q * d + r, d, q, r);
}

/// Six bytes are the bytes of the number they stand for.
pub proof fn lemma_be48_bytes(b: Seq<u8>)
    requires
        b.len() == 6,
    ensures
        0 <= be48(b) < 0x1_0000_0000_0000,
        be48_bytes(be48(b)) == b,
{
    let n = be48(b);
    let b0 = b[0] as int;
    let b1 = b[1] as int;
    let b2 = b[2] as int;
    let b3 = b[3] as int;
    let b4 = b[4] as int;
    let b5 = b[5] as int;
    let q1 = b0 * 0x100 + b1;
    let q2 = q1 * 0x100 + b2;
    let q3 = q2 * 0x100 + b3;
    let q4 = q3 * 0x100 + b4;
    lemma_quotient(b0, n - b0 * 0x100_0000_0000, 0x100_0000_0000);
    lemma_quotient(q1, n - q1 * 0x1_0000_0000, 0x1_0000_0000);
    lemma_quotient(q2, n - q2 * 0x100_0000, 0x100_0000);
    lemma_quotient(q3, n - q3 * 0x1_0000, 0x1_0000);
    lemma_quotient(q4, n - q4 * 0x100, 0x100);
    lemma_quotient(b0, b1, 0x100);
    lemma_quotient(q1, b2, 0x100);
    lemma_quotient(q2, b3, 0x100);
    lemma_quotient(q3, b4, 0x100);
    lemma_quotient(q4, b5, 0x100);
    assert(n / 0x100_0000_0000 == b0);
    assert(n / 0x1_0000_0000 == q1);
    assert(n / 0x100_0000 == q2);
    assert(n / 0x1_0000 == q3);
    assert(n / 0x100 == q4);
    assert(b0 % 256 == b0);
    assert(be48_bytes(n) =~= b);
}

/// Reading the text written for an identifier gives its parts back.
///
/// This holds for revision 1, an authority that fits 32 bits, and one to
/// fifteen sub-authorities. A larger authority is written in hexadecimal,
/// which the grammar does not admit.
pub proof fn lemma_parse_format(authority: Seq<u8>, sub_authority: Seq<u32>)
    requires
        authority.len() == 6,
        be48(authority) <= 0xffff_ffff,
        1 <= sub_authority.len() <= 15,
    ensures
        well_formed_text(sid_text(1, authority, sub_authority)),
        be48_bytes(parsed_authority(sid_text(1, authority, sub_authority)) as int) == authority,
        parsed_sub_authority(sid_text(1, authority, sub_authority)) == sub_authority,
{
    let fields = sid_fields(1, authority, sub_authority);
    let text = sid_text(1, authority, sub_authority);
    lemma_be48_bytes(authority);
    let number = be48(authority) as nat;
    assert forall|j: int| 0 <= j < fields.len() implies no_dash(#[trigger] fields[j]) && field_ok(
        fields[j],
        j,
    ) by {
        if j == 0 {
            assert(seq!['S'][0] == 'S');
        } else if j == 1 {
            lemma_parse_decimal(1, field_limit(1));
        } else if j == 2 {
            lemma_parse_decimal(number, field_limit(2));
        } else {
            lemma_parse_decimal(sub_authority[j - 3] as nat, field_limit(j));
        }
    }
    lemma_split_join(fields);
    assert(split_dash(text) == fields);
    lemma_parse_decimal(number, field_limit(2));
    assert(parsed_authority(text) == number);
    assert(parsed_sub_authority(text) =~= sub_authority) by {
        assert forall|i: int| 0 <= i < sub_authority.len() implies parsed_sub_authority(text)[i]
            == sub_authority[i] by {
            lemma_parse_decimal(sub_authority[i] as nat, field_limit(3));
        }
    }
}

impl core::str::FromStr for SidComponents {
    type Err = InvalidSidFormat;

    /// Reads the text of an identifier.
    fn from_str(s: &str) -> (r: Result<Self, InvalidSidFormat>)
        ensures
            r is Ok <==> well_formed_text(s@),
            r matches Ok(c) ==> {
                &&& c.identifier_authority@ == be48_bytes(parsed_authority(s@) as int)
                &&& c.spec_sub_authority() == parsed_sub_authority(s@)
            },
    {
        SidComponents::from_str(s)
    }
}

} // verus!
