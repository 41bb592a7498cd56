//! Identifiers: 128-bit numbers with the textual forms of UUIDs.

use crate::text::str_of;
use vstd::prelude::*;

verus! {

/// The hexadecimal digit of a number below sixteen.
pub open spec fn hex_digit(n: nat) -> char {
    if n < 10 {
        (('0' as u32 + n) as u32) as char
    } else {
        (('a' as u32 + (n - 10)) as u32) as char
    }
}

/// The last hexadecimal digits of a number, so many of them.
pub open spec fn hex_digits(n: nat, count: nat) -> Seq<char>
    decreases count,
{
    if count == 0 {
        Seq::empty()
    } else {
        hex_digits(n / 16, (count - 1) as nat).push(hex_digit(n % 16))
    }
}

/// The text of an identifier without hyphens: thirty-two digits.
pub open spec fn simple_hex(id: u128) -> Seq<char> {
    hex_digits(id as nat, 32)
}

/// The hyphenated text of an identifier: groups of eight, four, four, four and
/// twelve digits.
pub open spec fn hyphenated(id: u128) -> Seq<char> {
    let digits = simple_hex(id);
    digits.subrange(0, 8) + seq!['-'] + digits.subrange(8, 12) + seq!['-'] + digits.subrange(12, 16)
        + seq!['-'] + digits.subrange(16, 20) + seq!['-'] + digits.subrange(20, 32)
}

/// What `uuid::Uuid::parse_str` makes of a text.
pub uninterp spec fn parsed_id(text: Seq<char>) -> Option<u128>;

/// A hexadecimal digit in lower case.
pub open spec fn is_hex(c: char) -> bool {
    '0' <= c <= '9' || 'a' <= c <= 'f'
}

/// The number of digits, and that they are digits.
pub proof fn lemma_hex_digits(n: nat, count: nat)
    ensures
        hex_digits(n, count).len() == count,
        forall|i: int| 0 <= i < count ==> is_hex(#[trigger] hex_digits(n, count)[i]),
    decreases count,
{
    if count > 0 {
        lemma_hex_digits(n / 16, (count - 1) as nat);
    }
}

/// `uuid::Uuid::to_string`: the hyphenated text, which `uuid::Uuid::parse_str`
/// reads back.
#[verifier::external_body]
pub(crate) fn id_text(id: u128) -> (r: String)
    ensures
        r@ == hyphenated(id),
        parsed_id(r@) == Some(id),
{
    uuid::Uuid::from_u128(id).to_string()
}

/// `uuid::Uuid::simple`, displayed: the digits without hyphens.
#[verifier::external_body]
pub(crate) fn id_hex(id: u128) -> (r: String)
    ensures
        r@ == simple_hex(id),
{
    uuid::Uuid::from_u128(id).simple().to_string()
}

/// `uuid::Uuid::parse_str`: the identifier that a text denotes.
#[verifier::external_body]
pub(crate) fn read_id(text: &str) -> (r: Option<u128>)
    ensures
        r == parsed_id(text@),
{
    uuid::Uuid::parse_str(text).ok().map(|id| id.as_u128())
}

/// Whether an identifier has the form of a random one: version four and the
/// variant of RFC 9562.
pub open spec fn is_random_id(id: u128) -> bool {
    id / 0x1000_0000_0000_0000_0000u128 % 16 == 4 && id / 0x4000_0000_0000_0000u128 % 4 == 2
}

/// `uuid::Uuid::new_v4`: a random identifier. Its version and variant are fixed;
/// the rest is left to chance.
#[verifier::external_body]
fn random_id() -> (r: u128)
    ensures
        is_random_id(r),
{
    uuid::Uuid::new_v4().as_u128()
}

/// A new random identifier.
pub fn new_identifier() -> (r: u128)
    ensures
        is_random_id(r),
{
    random_id()
}

/// The identifier that an optional text denotes.
pub open spec fn parsed_optional_id(text: Option<Seq<char>>) -> Option<u128> {
    match text {
        Some(text) => parsed_id(text),
        None => None,
    }
}

/// The identifier that an optional text denotes.
pub fn read_optional_id(text: Option<&str>) -> (r: Option<u128>)
    ensures
        r == parsed_optional_id(str_of(text)),
{
    match text {
        Some(text) => read_id(text),
        None => None,
    }
}

/// The hyphenated text of an identifier.
pub fn identifier_text(id: u128) -> (r: String)
    ensures
        r@ == hyphenated(id),
        parsed_id(r@) == Some(id),
{
    id_text(id)
}

/// The identifier that a text denotes.
pub fn parse_identifier(text: &str) -> (r: Option<u128>)
    ensures
        r == parsed_id(text@),
{
    read_id(text)
}

proof fn lemma_digits_differ(n: nat, m: nat, count: nat)
    requires
        n < vstd::arithmetic::power::pow(16, count),
        m < vstd::arithmetic::power::pow(16, count),
        hex_digits(n, count) == hex_digits(m, count),
    ensures
        n == m,
    decreases count,
{
    reveal(vstd::arithmetic::power::pow);
    if count > 0 {
        let less = (count - 1) as nat;
        let bound = vstd::arithmetic::power::pow(16, less);
        assert(vstd::arithmetic::power::pow(16, count) == 16 * bound);
        lemma_hex_digits(n / 16, less);
        lemma_hex_digits(m / 16, less);
        let a = hex_digits(n, count);
        let b = hex_digits(m, count);
        assert(a.drop_last() =~= hex_digits(n / 16, less));
        assert(b.drop_last() =~= hex_digits(m / 16, less));
        assert(a.last() == b.last());
        assert(n % 16 == m % 16);
        lemma_digits_differ(n / 16, m / 16, less);
    }
}

/// No two identifiers have one text, in neither form.
pub proof fn lemma_ids_have_their_own_text(one: u128, other: u128)
    ensures
        simple_hex(one) == simple_hex(other) ==> one == other,
        hyphenated(one) == hyphenated(other) ==> one == other,
        hyphenated(one).len() == 36,
{
    lemma_hex_digits(one as nat, 32);
    lemma_hex_digits(other as nat, 32);
    assert(u128::MAX < vstd::arithmetic::power::pow(16, 32)) by {
        reveal(vstd::arithmetic::power::pow);
        reveal_with_fuel(vstd::arithmetic::power::pow, 33);
    }
    let a = hyphenated(one);
    let b = hyphenated(other);
    if a == b {
        assert(simple_hex(one) =~= simple_hex(other)) by {
            assert forall|i: int| 0 <= i < 32 implies simple_hex(one)[i] == simple_hex(other)[i] by {
                let at = if i < 8 {
                    i
                } else if i < 12 {
                    i + 1
                } else if i < 16 {
                    i + 2
                } else if i < 20 {
                    i + 3
                } else {
                    i + 4
                };
                assert(a[at] == simple_hex(one)[i]);
                assert(b[at] == simple_hex(other)[i]);
            }
        }
    }
    if simple_hex(one) == simple_hex(other) {
        lemma_digits_differ(one as nat, other as nat, 32);
    }
}

} // verus!
