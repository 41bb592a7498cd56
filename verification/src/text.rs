//! Text as sequences of characters: the small vocabulary that the rest of the
//! library states its contracts in, and the verified functions that compute it.

use vstd::prelude::*;
use vstd::string::*;

verus! {

/// `String::push` appends one character.
pub assume_specification[ String::push ](text: &mut String, c: char)
    ensures
        final(text)@ == old(text)@.push(c),
;

/// The view of an optional text.
pub open spec fn text_of(text: Option<String>) -> Option<Seq<char>> {
    match text {
        Some(value) => Some(value@),
        None => None,
    }
}

/// The view of a borrowed optional text.
pub open spec fn str_of(text: Option<&str>) -> Option<Seq<char>> {
    match text {
        Some(text) => Some(text@),
        None => None,
    }
}

/// The views of a list of texts.
pub open spec fn texts_of(texts: Seq<String>) -> Seq<Seq<char>> {
    texts.map_values(|text: String| text@)
}

/// Unicode `White_Space`.
pub open spec fn is_white(c: char) -> bool {
    ||| '\u{9}' <= c <= '\u{d}'
    ||| c == ' '
    ||| c == '\u{85}'
    ||| c == '\u{a0}'
    ||| c == '\u{1680}'
    ||| '\u{2000}' <= c <= '\u{200a}'
    ||| c == '\u{2028}'
    ||| c == '\u{2029}'
    ||| c == '\u{202f}'
    ||| c == '\u{205f}'
    ||| c == '\u{3000}'
}

/// Unicode general category `Cc`.
pub open spec fn is_control(c: char) -> bool {
    c <= '\u{1f}' || '\u{7f}' <= c <= '\u{9f}'
}

/// The digits `0` to `9`.
pub open spec fn is_digit(c: char) -> bool {
    '0' <= c <= '9'
}

/// The ASCII letters and digits.
pub open spec fn is_ascii_word(c: char) -> bool {
    is_digit(c) || 'a' <= c <= 'z' || 'A' <= c <= 'Z'
}

/// The lower-case form of an ASCII letter, and every other character itself.
pub open spec fn lower(c: char) -> char {
    if 'A' <= c <= 'Z' {
        ((c as u32 + 32) as u32) as char
    } else {
        c
    }
}

/// A text with its ASCII letters in lower case.
pub open spec fn lowered(text: Seq<char>) -> Seq<char> {
    text.map_values(|c: char| lower(c))
}

/// A text without its leading white space.
pub open spec fn trimmed_start(text: Seq<char>) -> Seq<char>
    decreases text.len(),
{
    if text.len() > 0 && is_white(text[0]) {
        trimmed_start(text.drop_first())
    } else {
        text
    }
}

/// A text without its trailing white space.
pub open spec fn trimmed_end(text: Seq<char>) -> Seq<char>
    decreases text.len(),
{
    if text.len() > 0 && is_white(text.last()) {
        trimmed_end(text.drop_last())
    } else {
        text
    }
}

/// A text without white space at either end.
pub open spec fn trimmed(text: Seq<char>) -> Seq<char> {
    trimmed_end(trimmed_start(text))
}

/// Whether `part` stands in `text` at the given place.
pub open spec fn stands_at(text: Seq<char>, part: Seq<char>, at: int) -> bool {
    &&& 0 <= at
    &&& at + part.len() <= text.len()
    &&& text.subrange(at, at + part.len()) == part
}

/// Whether `part` stands in `text` somewhere.
pub open spec fn has_part(text: Seq<char>, part: Seq<char>) -> bool {
    exists|at: int| #[trigger] stands_at(text, part, at)
}

/// Whether `text` begins with `part`.
pub open spec fn begins_with(text: Seq<char>, part: Seq<char>) -> bool {
    stands_at(text, part, 0)
}

/// Whether `text` ends with `part`.
pub open spec fn finishes_with(text: Seq<char>, part: Seq<char>) -> bool {
    stands_at(text, part, text.len() - part.len())
}

/// The pieces of a sequence between the occurrences of a separator. There is
/// always at least one, and a piece may be empty.
pub open spec fn pieces<T>(text: Seq<T>, separator: T) -> Seq<Seq<T>>
    decreases text.len(),
{
    if text.len() == 0 {
        seq![Seq::<T>::empty()]
    } else {
        let before = pieces(text.drop_last(), separator);
        if text.last() == separator {
            before.push(Seq::<T>::empty())
        } else {
            before.update(before.len() - 1, before.last().push(text.last()))
        }
    }
}

/// The pieces of a list put together with a glue between them.
pub open spec fn glued(parts: Seq<Seq<char>>, glue: Seq<char>) -> Seq<char>
    decreases parts.len(),
{
    if parts.len() == 0 {
        Seq::empty()
    } else if parts.len() == 1 {
        parts[0]
    } else {
        glued(parts.drop_last(), glue) + glue + parts.last()
    }
}

/// The decimal digits of a number.
pub open spec fn decimal(n: nat) -> Seq<char>
    decreases n,
{
    if n < 10 {
        seq![(('0' as u32 + n) as u32) as char]
    } else {
        decimal(n / 10).push((('0' as u32 + n % 10) as u32) as char)
    }
}

/// The decimal form of an integer, with a sign where it is negative.
pub open spec fn signed_decimal(n: int) -> Seq<char> {
    if n < 0 {
        seq!['-'] + decimal((-n) as nat)
    } else {
        decimal(n as nat)
    }
}

/// Whether a character is white space.
pub fn white(c: char) -> (r: bool)
    ensures
        r == is_white(c),
{
    ('\u{9}' <= c && c <= '\u{d}') || c == ' ' || c == '\u{85}' || c == '\u{a0}' || c == '\u{1680}'
        || ('\u{2000}' <= c && c <= '\u{200a}') || c == '\u{2028}' || c == '\u{2029}' || c
        == '\u{202f}' || c == '\u{205f}' || c == '\u{3000}'
}

/// Whether a character is a control character.
pub fn control(c: char) -> (r: bool)
    ensures
        r == is_control(c),
{
    c <= '\u{1f}' || ('\u{7f}' <= c && c <= '\u{9f}')
}

/// Whether a character is an ASCII letter or digit.
pub fn ascii_word(c: char) -> (r: bool)
    ensures
        r == is_ascii_word(c),
{
    ('0' <= c && c <= '9') || ('a' <= c && c <= 'z') || ('A' <= c && c <= 'Z')
}

/// The lower-case form of one character.
pub fn lower_char(c: char) -> (r: char)
    ensures
        r == lower(c),
{
    if 'A' <= c && c <= 'Z' {
        ((c as u8) + 32) as char
    } else {
        c
    }
}

/// The characters of a text, in order.
pub fn to_chars(text: &str) -> (chars: Vec<char>)
    ensures
        chars@ == text@,
{
    let mut chars: Vec<char> = Vec::new();
    for c in it: text.chars()
        invariant
            it.seq() == text@,
            chars@ == it.seq().take(it.index()),
    {
        chars.push(c);
    }
    chars
}

/// The text made of the characters from one place up to another.
pub fn chars_between(chars: &Vec<char>, from: usize, to: usize) -> (text: String)
    requires
        from <= to <= chars.len(),
    ensures
        text@ == chars@.subrange(from as int, to as int),
{
    let mut text = String::new();
    let mut i: usize = from;
    while i < to
        invariant
            from <= i <= to <= chars.len(),
            text@ == chars@.subrange(from as int, i as int),
        decreases to - i,
    {
        text.push(chars[i]);
        i += 1;
        assert(text@ =~= chars@.subrange(from as int, i as int));
    }
    text
}

/// The text made of a list of characters.
pub fn from_chars(chars: &Vec<char>) -> (text: String)
    ensures
        text@ == chars@,
{
    let text = chars_between(chars, 0, chars.len());
    assert(chars@.subrange(0, chars@.len() as int) =~= chars@);
    text
}

/// Whether two texts hold the same characters.
pub fn same_text(left: &str, right: &str) -> (same: bool)
    ensures
        same == (left@ == right@),
{
    let a = left.as_bytes();
    let b = right.as_bytes();
    proof {
        vstd::utf8::encode_utf8_decode_utf8(left@);
        vstd::utf8::encode_utf8_decode_utf8(right@);
    }
    if a.len() != b.len() {
        return false;
    }
    let mut i: usize = 0;
    while i < a.len()
        invariant
            0 <= i <= a.len(),
            a@.len() == b@.len(),
            a@ == vstd::utf8::encode_utf8(left@),
            b@ == vstd::utf8::encode_utf8(right@),
            forall|k: int| 0 <= k < i ==> a@[k] == b@[k],
        decreases a.len() - i,
    {
        if a[i] != b[i] {
            assert(a@[i as int] != b@[i as int]);
            return false;
        }
        i += 1;
    }
    assert(a@ =~= b@);
    true
}

/// Whether an optional text is present and holds the given characters.
pub fn is_text(value: &Option<String>, text: &str) -> (r: bool)
    ensures
        r == (text_of(*value) == Some(text@)),
{
    match value {
        Some(value) => same_text(value.as_str(), text),
        None => false,
    }
}

/// Whether two optional texts are both absent or hold the same characters.
pub fn same_optional_text(left: &Option<String>, right: &Option<String>) -> (r: bool)
    ensures
        r == (text_of(*left) == text_of(*right)),
{
    match (left, right) {
        (Some(a), Some(b)) => same_text(a.as_str(), b.as_str()),
        (None, None) => true,
        _ => false,
    }
}

/// Whether a list holds the given text.
pub fn holds_text(texts: &Vec<String>, text: &str) -> (r: bool)
    ensures
        r == texts_of(texts@).contains(text@),
{
    let mut i: usize = 0;
    while i < texts.len()
        invariant
            0 <= i <= texts.len(),
            forall|k: int| 0 <= k < i ==> texts@[k]@ != text@,
        decreases texts.len() - i,
    {
        if same_text(texts[i].as_str(), text) {
            assert(texts_of(texts@)[i as int] == text@);
            return true;
        }
        i += 1;
    }
    assert forall|k: int| 0 <= k < texts_of(texts@).len() implies texts_of(texts@)[k] != text@ by {
        assert(texts_of(texts@)[k] == texts@[k]@);
    }
    false
}

/// A copy of a list of texts.
pub fn copy_texts(texts: &Vec<String>) -> (copy: Vec<String>)
    ensures
        copy@ == texts@,
{
    let mut copy: Vec<String> = Vec::new();
    let mut i: usize = 0;
    while i < texts.len()
        invariant
            0 <= i <= texts.len(),
            copy@ == texts@.take(i as int),
        decreases texts.len() - i,
    {
        copy.push(texts[i].clone());
        i += 1;
        assert(copy@ =~= texts@.take(i as int));
    }
    assert(texts@.take(texts@.len() as int) =~= texts@);
    copy
}

/// A copy of an optional text.
pub fn copy_text(value: &Option<String>) -> (copy: Option<String>)
    ensures
        copy == *value,
{
    match value {
        Some(text) => Some(text.clone()),
        None => None,
    }
}

/// An optional text borrowed.
pub fn borrowed<'a>(value: &'a Option<String>) -> (r: Option<&'a str>)
    ensures
        r is Some <==> value is Some,
        r is Some ==> r->0@ == value->0@,
{
    match value {
        Some(text) => Some(text.as_str()),
        None => None,
    }
}

/// The text with its ASCII letters in lower case.
pub fn to_lower(text: &str) -> (r: String)
    ensures
        r@ == lowered(text@),
{
    let chars = to_chars(text);
    let mut r = String::new();
    let mut i: usize = 0;
    while i < chars.len()
        invariant
            0 <= i <= chars.len(),
            r@ == lowered(chars@).take(i as int),
        decreases chars.len() - i,
    {
        r.push(lower_char(chars[i]));
        i += 1;
        assert(r@ =~= lowered(chars@).take(i as int));
    }
    assert(lowered(chars@).take(chars@.len() as int) =~= lowered(chars@));
    r
}

/// Whether `part` stands in `chars` at the given place.
pub fn stands_here(chars: &Vec<char>, part: &Vec<char>, at: usize) -> (r: bool)
    ensures
        r == stands_at(chars@, part@, at as int),
{
    if at > chars.len() || part.len() > chars.len() - at {
        return false;
    }
    let mut i: usize = 0;
    while i < part.len()
        invariant
            0 <= i <= part.len(),
            at + part.len() <= chars.len(),
            forall|k: int| 0 <= k < i ==> chars@[at + k] == part@[k],
        decreases part.len() - i,
    {
        if chars[at + i] != part[i] {
            assert(chars@.subrange(at as int, at + part@.len())[i as int] != part@[i as int]);
            return false;
        }
        i += 1;
    }
    assert(chars@.subrange(at as int, at + part@.len()) =~= part@);
    true
}

/// Whether `part` stands in `text`.
pub fn contains(text: &str, part: &str) -> (r: bool)
    ensures
        r == has_part(text@, part@),
{
    let chars = to_chars(text);
    let wanted = to_chars(part);
    if wanted.len() > chars.len() {
        return false;
    }
    let last: usize = chars.len() - wanted.len();
    let mut at: usize = 0;
    while at <= last
        invariant
            0 <= at <= last + 1,
            last == chars.len() - wanted.len(),
            chars@ == text@,
            wanted@ == part@,
            forall|k: int| 0 <= k < at ==> !stands_at(chars@, wanted@, k),
        decreases last + 1 - at,
    {
        if stands_here(&chars, &wanted, at) {
            return true;
        }
        if at == last {
            return false;
        }
        at += 1;
    }
    false
}

/// The text with the first place of `from` in it replaced.
pub open spec fn replaced_once(text: Seq<char>, from: Seq<char>, to: Seq<char>) -> Seq<char>
    decreases text.len(),
{
    if begins_with(text, from) {
        to + text.skip(from.len() as int)
    } else if text.len() == 0 {
        text
    } else {
        seq![text[0]] + replaced_once(text.drop_first(), from, to)
    }
}

/// The text with the first place of `from` in it replaced.
pub fn replace_once(text: &str, from: &str, to: &str) -> (r: String)
    ensures
        r@ == replaced_once(text@, from@, to@),
{
    let chars = to_chars(text);
    let wanted = to_chars(from);
    let mut before = String::new();
    let mut at: usize = 0;
    assert(text@.skip(0) =~= text@);
    assert(before@ + replaced_once(text@.skip(0), from@, to@) =~= replaced_once(text@, from@, to@));
    while at < chars.len()
        invariant
            0 <= at <= chars.len(),
            chars@ == text@,
            wanted@ == from@,
            before@ == text@.take(at as int),
            before@ + replaced_once(text@.skip(at as int), from@, to@) == replaced_once(text@, from@, to@),
        decreases chars.len() - at,
    {
        let ghost rest = text@.skip(at as int);
        proof {
            if at + from@.len() <= text@.len() {
                assert(rest.subrange(0, from@.len() as int) =~= text@.subrange(at as int, at + from@.len()));
            }
        }
        if stands_here(&chars, &wanted, at) {
            before.append(to);
            before.append(chars_between(&chars, at + wanted.len(), chars.len()).as_str());
            assert(before@ =~= text@.take(at as int) + (to@ + rest.skip(from@.len() as int)));
            return before;
        }
        proof {
            assert(rest.drop_first() =~= text@.skip(at + 1));
            assert(before@ + (seq![rest[0]] + replaced_once(text@.skip(at + 1), from@, to@))
                =~= before@.push(chars@[at as int]) + replaced_once(text@.skip(at + 1), from@, to@));
        }
        before.push(chars[at]);
        assert(before@ =~= text@.take(at + 1));
        at += 1;
    }
    assert(text@.skip(at as int) =~= Seq::empty());
    if wanted.len() == 0 {
        before.append(to);
        assert(begins_with(Seq::<char>::empty(), from@)) by {
            assert(Seq::<char>::empty().subrange(0, 0) =~= from@);
        }
        assert(before@ =~= text@.take(at as int) + (to@ + Seq::<char>::empty().skip(0)));
    } else {
        assert(before@ =~= text@.take(at as int) + Seq::<char>::empty());
    }
    before
}

/// Whether `text` begins with `part`.
pub fn starts_with(text: &str, part: &str) -> (r: bool)
    ensures
        r == begins_with(text@, part@),
{
    stands_here(&to_chars(text), &to_chars(part), 0)
}

/// Whether `text` ends with `part`.
pub fn ends_with(text: &str, part: &str) -> (r: bool)
    ensures
        r == finishes_with(text@, part@),
{
    let chars = to_chars(text);
    let wanted = to_chars(part);
    if wanted.len() > chars.len() {
        return false;
    }
    stands_here(&chars, &wanted, chars.len() - wanted.len())
}

/// What follows `part` where `text` begins with it.
pub fn after_prefix(text: &str, part: &str) -> (r: Option<String>)
    ensures
        match r {
            Some(rest) => begins_with(text@, part@) && text@ == part@ + rest@,
            None => !begins_with(text@, part@),
        },
{
    let chars = to_chars(text);
    let wanted = to_chars(part);
    if stands_here(&chars, &wanted, 0) {
        let rest = chars_between(&chars, wanted.len(), chars.len());
        assert(text@ =~= part@ + rest@);
        Some(rest)
    } else {
        None
    }
}

proof fn lemma_trimmed_start(text: Seq<char>, from: int)
    requires
        0 <= from <= text.len(),
        forall|k: int| 0 <= k < from ==> is_white(text[k]),
        from < text.len() ==> !is_white(text[from]),
    ensures
        trimmed_start(text) == text.skip(from),
    decreases from,
{
    if from == 0 {
        assert(text.skip(0) =~= text);
    } else {
        lemma_trimmed_start(text.drop_first(), from - 1);
        assert(text.drop_first().skip(from - 1) =~= text.skip(from));
    }
}

proof fn lemma_trimmed_end(text: Seq<char>, to: int)
    requires
        0 <= to <= text.len(),
        forall|k: int| to <= k < text.len() ==> is_white(text[k]),
        to > 0 ==> !is_white(text[to - 1]),
    ensures
        trimmed_end(text) == text.take(to),
    decreases text.len() - to,
{
    if to == text.len() {
        assert(text.take(to) =~= text);
    } else {
        lemma_trimmed_end(text.drop_last(), to);
        assert(text.drop_last().take(to) =~= text.take(to));
    }
}

/// The text without white space at either end.
pub fn trim(text: &str) -> (r: String)
    ensures
        r@ == trimmed(text@),
{
    let chars = to_chars(text);
    let mut from: usize = 0;
    while from < chars.len() && white(chars[from])
        invariant
            0 <= from <= chars.len(),
            forall|k: int| 0 <= k < from ==> is_white(chars@[k]),
        decreases chars.len() - from,
    {
        from += 1;
    }
    let mut to: usize = chars.len();
    while to > from && white(chars[to - 1])
        invariant
            from <= to <= chars.len(),
            forall|k: int| to <= k < chars.len() ==> is_white(chars@[k]),
        decreases to,
    {
        to -= 1;
    }
    proof {
        lemma_trimmed_start(chars@, from as int);
        let rest = chars@.skip(from as int);
        assert forall|k: int| to - from <= k < rest.len() implies is_white(rest[k]) by {
            assert(rest[k] == chars@[from + k]);
        }
        if to > from {
            assert(rest[to - from - 1] == chars@[to - 1]);
        }
        lemma_trimmed_end(rest, to - from);
        assert(rest.take(to - from) =~= chars@.subrange(from as int, to as int));
    }
    chars_between(&chars, from, to)
}

/// The parts of a list put together with a glue between them.
pub fn glue_texts(parts: &Vec<String>, glue: &str) -> (r: String)
    ensures
        r@ == glued(texts_of(parts@), glue@),
{
    let mut r = String::new();
    let mut i: usize = 0;
    while i < parts.len()
        invariant
            0 <= i <= parts.len(),
            r@ == glued(texts_of(parts@).take(i as int), glue@),
        decreases parts.len() - i,
    {
        let ghost views = texts_of(parts@);
        if i > 0 {
            r.append(glue);
        }
        r.append(parts[i].as_str());
        proof {
            assert(views.take(i + 1).drop_last() =~= views.take(i as int));
            assert(views.take(i + 1).last() == parts@[i as int]@);
            if i == 0 {
                assert(r@ =~= views.take(1)[0]);
            }
        }
        i += 1;
    }
    assert(texts_of(parts@).take(parts@.len() as int) =~= texts_of(parts@));
    r
}

/// The decimal digits of a number.
pub fn decimal_text(n: u64) -> (r: String)
    ensures
        r@ == decimal(n as nat),
    decreases n,
{
    let digit: u8 = (n % 10) as u8;
    let c: char = (48u8 + digit) as char;
    if n < 10 {
        let mut r = String::new();
        r.push(c);
        assert(r@ =~= decimal(n as nat));
        r
    } else {
        let mut r = decimal_text(n / 10);
        r.push(c);
        r
    }
}

/// The decimal form of an integer.
pub fn signed_decimal_text(n: i64) -> (r: String)
    ensures
        r@ == signed_decimal(n as int),
{
    if n < 0 {
        let mut r = String::new();
        r.push('-');
        let magnitude: u64 = (-(n as i128)) as u64;
        let digits = decimal_text(magnitude);
        r.append(digits.as_str());
        assert(r@ =~= signed_decimal(n as int));
        r
    } else {
        decimal_text(n as u64)
    }
}

/// The value of a row of decimal digits.
pub open spec fn digits_value(digits: Seq<char>) -> nat
    decreases digits.len(),
{
    if digits.len() == 0 {
        0
    } else {
        digits_value(digits.drop_last()) * 10 + (digits.last() as u32 - '0' as u32) as nat
    }
}

/// The digits of a number, which may follow a plus sign.
pub open spec fn number_digits(text: Seq<char>) -> Seq<char> {
    if text.len() > 0 && text[0] == '+' {
        text.skip(1)
    } else {
        text
    }
}

/// That a row of characters is one of digits.
pub open spec fn all_digits(text: Seq<char>) -> bool {
    forall|i: int| 0 <= i < text.len() ==> is_digit(#[trigger] text[i])
}

/// The number without a sign, of 64 bits, that a text gives in decimal digits.
pub open spec fn number_of(text: Seq<char>) -> Option<u64> {
    let digits = number_digits(text);
    if digits.len() > 0 && all_digits(digits) && digits_value(digits) <= u64::MAX {
        Some(digits_value(digits) as u64)
    } else {
        None
    }
}

proof fn lemma_digits_grow(digits: Seq<char>, at: int)
    requires
        0 <= at <= digits.len(),
        all_digits(digits),
    ensures
        digits_value(digits.take(at)) <= digits_value(digits),
    decreases digits.len() - at,
{
    if at == digits.len() {
        assert(digits.take(at) =~= digits);
    } else {
        assert(digits.take(at + 1).drop_last() =~= digits.take(at));
        lemma_digits_grow(digits, at + 1);
    }
}

/// The number without a sign, of 64 bits, that a text gives in decimal digits.
pub fn read_number(text: &str) -> (r: Option<u64>)
    ensures
        r == number_of(text@),
{
    let chars = to_chars(text);
    let ghost digits = number_digits(text@);
    let start: usize = if chars.len() > 0 && chars[0] == '+' {
        1
    } else {
        0
    };
    assert(digits =~= chars@.skip(start as int));
    if chars.len() == start {
        return None;
    }
    let mut value: u64 = 0;
    let mut i: usize = start;
    assert(digits.take(0) =~= Seq::empty());
    while i < chars.len()
        invariant
            start <= i <= chars.len(),
            digits == number_digits(text@),
            digits == chars@.skip(start as int),
            value == digits_value(digits.take(i - start)),
            all_digits(digits.take(i - start)),
        decreases chars.len() - i,
    {
        let c = chars[i];
        let ghost at = i - start;
        assert(digits[at] == c);
        if !('0' <= c && c <= '9') {
            assert(!is_digit(digits[at]));
            return None;
        }
        proof {
            assert(digits.take(at + 1).drop_last() =~= digits.take(at));
            assert(digits.take(at + 1).last() == c);
            if all_digits(digits) {
                lemma_digits_grow(digits, at + 1);
            }
        }
        let digit: u64 = (c as u32 - '0' as u32) as u64;
        if value > (u64::MAX - digit) / 10 {
            assert(digits_value(digits.take(at + 1)) > u64::MAX);
            return None;
        }
        value = value * 10 + digit;
        i += 1;
        assert forall|k: int| 0 <= k < at + 1 implies is_digit(#[trigger] digits.take(at + 1)[k]) by {
            if k < at {
                assert(digits.take(at)[k] == digits.take(at + 1)[k]);
            }
        }
    }
    assert(digits.take(digits.len() as int) =~= digits);
    Some(value)
}

/// The pieces of a text between the occurrences of a separator.
pub fn split_text(text: &str, separator: char) -> (r: Vec<String>)
    ensures
        texts_of(r@) == pieces(text@, separator),
{
    let chars = to_chars(text);
    let mut done: Vec<String> = Vec::new();
    let mut current = String::new();
    let mut i: usize = 0;
    assert(texts_of(done@).push(current@) =~= pieces(chars@.take(0), separator));
    while i < chars.len()
        invariant
            0 <= i <= chars.len(),
            texts_of(done@).push(current@) == pieces(chars@.take(i as int), separator),
        decreases chars.len() - i,
    {
        let ghost before = pieces(chars@.take(i as int), separator);
        let ghost views = texts_of(done@);
        let ghost piece = current@;
        assert(chars@.take(i + 1).drop_last() =~= chars@.take(i as int));
        if chars[i] == separator {
            done.push(current);
            current = String::new();
            assert(texts_of(done@) =~= before);
        } else {
            current.push(chars[i]);
            assert(before.last() == piece);
            assert(views.push(current@) =~= before.update(before.len() - 1, piece.push(chars@[i as int])));
        }
        i += 1;
    }
    assert(chars@.take(chars@.len() as int) =~= chars@);
    let ghost views = texts_of(done@);
    done.push(current);
    assert(texts_of(done@) =~= views.push(current@));
    done
}

/// The fields of a byte string between its zero bytes.
pub fn split_zero(bytes: &[u8]) -> (r: Vec<Vec<u8>>)
    ensures
        r.len() == pieces(bytes@, 0u8).len(),
        forall|i: int| 0 <= i < r.len() ==> #[trigger] r@[i]@ == pieces(bytes@, 0u8)[i],
{
    let mut done: Vec<Vec<u8>> = Vec::new();
    let mut current: Vec<u8> = Vec::new();
    let mut i: usize = 0;
    assert(bytes@.take(0) =~= Seq::<u8>::empty());
    while i < bytes.len()
        invariant
            0 <= i <= bytes.len(),
            done.len() + 1 == pieces(bytes@.take(i as int), 0u8).len(),
            current@ == pieces(bytes@.take(i as int), 0u8).last(),
            forall|k: int|
                0 <= k < done.len() ==> #[trigger] done@[k]@ == pieces(bytes@.take(i as int), 0u8)[k],
        decreases bytes.len() - i,
    {
        assert(bytes@.take(i + 1).drop_last() =~= bytes@.take(i as int));
        if bytes[i] == 0 {
            done.push(current);
            current = Vec::new();
        } else {
            current.push(bytes[i]);
        }
        i += 1;
    }
    assert(bytes@.take(bytes@.len() as int) =~= bytes@);
    done.push(current);
    done
}

/// There is always at least one piece.
pub proof fn lemma_pieces_not_empty<T>(text: Seq<T>, separator: T)
    ensures
        pieces(text, separator).len() >= 1,
    decreases text.len(),
{
    if text.len() > 0 {
        lemma_pieces_not_empty(text.drop_last(), separator);
    }
}

/// Whether a character stands in a text.
pub fn contains_char(text: &str, c: char) -> (r: bool)
    ensures
        r == text@.contains(c),
{
    let chars = to_chars(text);
    let mut i: usize = 0;
    while i < chars.len()
        invariant
            0 <= i <= chars.len(),
            chars@ == text@,
            forall|k: int| 0 <= k < i ==> chars@[k] != c,
        decreases chars.len() - i,
    {
        if chars[i] == c {
            assert(text@[i as int] == c);
            return true;
        }
        i += 1;
    }
    false
}

/// The text with every occurrence of one character replaced by another.
pub fn replace_char(text: &str, from: char, to: char) -> (r: String)
    ensures
        r@ == text@.map_values(|c: char| if c == from { to } else { c }),
{
    let ghost wanted = text@.map_values(|c: char| if c == from { to } else { c });
    let chars = to_chars(text);
    let mut r = String::new();
    let mut i: usize = 0;
    while i < chars.len()
        invariant
            0 <= i <= chars.len(),
            chars@ == text@,
            wanted == text@.map_values(|c: char| if c == from { to } else { c }),
            r@ == wanted.take(i as int),
        decreases chars.len() - i,
    {
        r.push(if chars[i] == from { to } else { chars[i] });
        i += 1;
        assert(r@ =~= wanted.take(i as int));
    }
    assert(wanted.take(chars@.len() as int) =~= wanted);
    r
}

/// A text without the leading characters that stand in a set.
pub open spec fn strip_start(text: Seq<char>, set: Seq<char>) -> Seq<char>
    decreases text.len(),
{
    if text.len() > 0 && set.contains(text[0]) {
        strip_start(text.drop_first(), set)
    } else {
        text
    }
}

/// A text without the trailing characters that stand in a set.
pub open spec fn strip_end(text: Seq<char>, set: Seq<char>) -> Seq<char>
    decreases text.len(),
{
    if text.len() > 0 && set.contains(text.last()) {
        strip_end(text.drop_last(), set)
    } else {
        text
    }
}

/// A text without a suffix, taken away as often as it stands there.
pub open spec fn without_suffixes(text: Seq<char>, suffix: Seq<char>) -> Seq<char>
    decreases text.len(),
{
    if suffix.len() > 0 && finishes_with(text, suffix) {
        without_suffixes(text.take(text.len() - suffix.len()), suffix)
    } else {
        text
    }
}

/// What follows the last occurrence of a character.
pub open spec fn after_last(text: Seq<char>, c: char) -> Option<Seq<char>>
    decreases text.len(),
{
    if text.len() == 0 {
        None
    } else if text.last() == c {
        Some(Seq::empty())
    } else {
        match after_last(text.drop_last(), c) {
            Some(rest) => Some(rest.push(text.last())),
            None => None,
        }
    }
}

/// White space, and the zero character where asked for.
pub open spec fn is_blank(c: char, zero: bool) -> bool {
    is_white(c) || (zero && c == '\0')
}

/// The pieces of a text between its blanks; a piece may be empty.
pub open spec fn blank_pieces(text: Seq<char>, zero: bool) -> Seq<Seq<char>>
    decreases text.len(),
{
    if text.len() == 0 {
        seq![Seq::<char>::empty()]
    } else {
        let before = blank_pieces(text.drop_last(), zero);
        if is_blank(text.last(), zero) {
            before.push(Seq::<char>::empty())
        } else {
            before.update(before.len() - 1, before.last().push(text.last()))
        }
    }
}

/// The pieces that are not empty.
pub open spec fn filled(list: Seq<Seq<char>>) -> Seq<Seq<char>>
    decreases list.len(),
{
    if list.len() == 0 {
        Seq::empty()
    } else if list.last().len() > 0 {
        filled(list.drop_last()).push(list.last())
    } else {
        filled(list.drop_last())
    }
}

/// The words of a text.
pub open spec fn words(text: Seq<char>) -> Seq<Seq<char>> {
    filled(blank_pieces(text, false))
}

/// The first characters of a text, at most so many.
pub open spec fn first_chars(text: Seq<char>, most: nat) -> Seq<char> {
    if text.len() <= most {
        text
    } else {
        text.take(most as int)
    }
}

proof fn lemma_strip_start(text: Seq<char>, set: Seq<char>, from: int)
    requires
        0 <= from <= text.len(),
        forall|k: int| 0 <= k < from ==> set.contains(text[k]),
        from < text.len() ==> !set.contains(text[from]),
    ensures
        strip_start(text, set) == text.skip(from),
    decreases from,
{
    if from == 0 {
        assert(text.skip(0) =~= text);
    } else {
        lemma_strip_start(text.drop_first(), set, from - 1);
        assert(text.drop_first().skip(from - 1) =~= text.skip(from));
    }
}

proof fn lemma_strip_end(text: Seq<char>, set: Seq<char>, to: int)
    requires
        0 <= to <= text.len(),
        forall|k: int| to <= k < text.len() ==> set.contains(text[k]),
        to > 0 ==> !set.contains(text[to - 1]),
    ensures
        strip_end(text, set) == text.take(to),
    decreases text.len() - to,
{
    if to == text.len() {
        assert(text.take(to) =~= text);
    } else {
        lemma_strip_end(text.drop_last(), set, to);
        assert(text.drop_last().take(to) =~= text.take(to));
    }
}

/// The text without the leading characters that stand in a set.
pub fn trim_start_of(text: &str, set: &str) -> (r: String)
    ensures
        r@ == strip_start(text@, set@),
{
    let chars = to_chars(text);
    let mut from: usize = 0;
    while from < chars.len() && contains_char(set, chars[from])
        invariant
            0 <= from <= chars.len(),
            forall|k: int| 0 <= k < from ==> set@.contains(chars@[k]),
        decreases chars.len() - from,
    {
        from += 1;
    }
    proof {
        lemma_strip_start(chars@, set@, from as int);
        assert(chars@.skip(from as int) =~= chars@.subrange(from as int, chars@.len() as int));
    }
    chars_between(&chars, from, chars.len())
}

/// The text without the trailing characters that stand in a set.
pub fn trim_end_of(text: &str, set: &str) -> (r: String)
    ensures
        r@ == strip_end(text@, set@),
{
    let chars = to_chars(text);
    let mut to: usize = chars.len();
    while to > 0 && contains_char(set, chars[to - 1])
        invariant
            0 <= to <= chars.len(),
            forall|k: int| to <= k < chars.len() ==> set@.contains(chars@[k]),
        decreases to,
    {
        to -= 1;
    }
    proof {
        lemma_strip_end(chars@, set@, to as int);
        assert(chars@.take(to as int) =~= chars@.subrange(0, to as int));
    }
    chars_between(&chars, 0, to)
}

/// The text without a suffix, taken away as often as it stands there.
pub fn trim_suffixes(text: &str, suffix: &str) -> (r: String)
    ensures
        r@ == without_suffixes(text@, suffix@),
{
    let chars = to_chars(text);
    let wanted = to_chars(suffix);
    let mut to: usize = chars.len();
    assert(chars@.take(to as int) =~= chars@);
    if wanted.len() == 0 {
        return text.to_owned();
    }
    while to >= wanted.len() && stands_here(&chars, &wanted, to - wanted.len())
        invariant
            0 <= to <= chars.len(),
            wanted@ == suffix@,
            chars@ == text@,
            wanted.len() > 0,
            without_suffixes(text@, suffix@) == without_suffixes(chars@.take(to as int), suffix@),
        decreases to,
    {
        proof {
            let here = chars@.take(to as int);
            assert(here.subrange(to - wanted@.len(), to as int) =~= chars@.subrange(
                to - wanted@.len(),
                to as int,
            ));
            assert(here.take(to - wanted@.len()) =~= chars@.take(to - wanted@.len()));
        }
        to -= wanted.len();
    }
    proof {
        let here = chars@.take(to as int);
        if finishes_with(here, suffix@) {
            assert(here.subrange(to - wanted@.len(), to as int) =~= chars@.subrange(
                to - wanted@.len(),
                to as int,
            ));
        }
        assert(here =~= chars@.subrange(0, to as int));
    }
    chars_between(&chars, 0, to)
}

/// What follows the last occurrence of a character.
pub fn after_last_char(text: &str, c: char) -> (r: Option<String>)
    ensures
        text_of(r) == after_last(text@, c),
{
    let chars = to_chars(text);
    let mut from: usize = chars.len();
    proof {
        assert(chars@.take(from as int) =~= chars@);
        assert(chars@.subrange(from as int, from as int) =~= Seq::empty());
    }
    while from > 0
        invariant
            0 <= from <= chars.len(),
            chars@ == text@,
            forall|k: int| from <= k < chars.len() ==> chars@[k] != c,
        decreases from,
    {
        if chars[from - 1] == c {
            proof {
                lemma_after_last(chars@, c, from - 1);
            }
            return Some(chars_between(&chars, from, chars.len()));
        }
        from -= 1;
    }
    proof {
        lemma_no_last(chars@, c);
    }
    None
}

proof fn lemma_after_last(text: Seq<char>, c: char, at: int)
    requires
        0 <= at < text.len(),
        text[at] == c,
        forall|k: int| at < k < text.len() ==> text[k] != c,
    ensures
        after_last(text, c) == Some(text.subrange(at + 1, text.len() as int)),
    decreases text.len(),
{
    if at == text.len() - 1 {
        assert(text.subrange(at + 1, text.len() as int) =~= Seq::empty());
    } else {
        lemma_after_last(text.drop_last(), c, at);
        assert(text.drop_last().subrange(at + 1, text.len() - 1).push(text.last()) =~= text.subrange(
            at + 1,
            text.len() as int,
        ));
    }
}

proof fn lemma_no_last(text: Seq<char>, c: char)
    requires
        forall|k: int| 0 <= k < text.len() ==> text[k] != c,
    ensures
        after_last(text, c) is None,
    decreases text.len(),
{
    if text.len() > 0 {
        lemma_no_last(text.drop_last(), c);
    }
}

/// The pieces of a text between its blanks that are not empty.
pub fn split_blank(text: &str, zero: bool) -> (r: Vec<String>)
    ensures
        texts_of(r@) == filled(blank_pieces(text@, zero)),
{
    let chars = to_chars(text);
    let mut done: Vec<String> = Vec::new();
    let mut current = String::new();
    let mut i: usize = 0;
    let ghost mut all: Seq<Seq<char>> = Seq::empty();
    assert(texts_of(done@) =~= filled(all));
    assert(all.push(current@) =~= blank_pieces(chars@.take(0), zero));
    while i < chars.len()
        invariant
            0 <= i <= chars.len(),
            texts_of(done@) == filled(all),
            all.push(current@) == blank_pieces(chars@.take(i as int), zero),
        decreases chars.len() - i,
    {
        let ghost before = blank_pieces(chars@.take(i as int), zero);
        let ghost piece = current@;
        let ghost views = texts_of(done@);
        assert(chars@.take(i + 1).drop_last() =~= chars@.take(i as int));
        if white(chars[i]) || (zero && chars[i] == '\0') {
            assert(all.push(piece).drop_last() =~= all);
            if !current.as_str().is_empty() {
                done.push(current);
                assert(texts_of(done@) =~= views.push(piece));
            }
            current = String::new();
            proof {
                all = all.push(piece);
                assert(all =~= before);
            }
        } else {
            current.push(chars[i]);
            assert(before.last() == piece);
            assert(all.push(current@) =~= before.update(before.len() - 1, piece.push(chars@[i as int])));
        }
        i += 1;
    }
    assert(chars@.take(chars@.len() as int) =~= chars@);
    assert(all.push(current@).drop_last() =~= all);
    let ghost views = texts_of(done@);
    if !current.as_str().is_empty() {
        done.push(current);
        assert(texts_of(done@) =~= views.push(current@));
    }
    done
}

/// The words of a text.
pub fn split_words(text: &str) -> (r: Vec<String>)
    ensures
        texts_of(r@) == words(text@),
{
    split_blank(text, false)
}

/// The first characters of a text, at most so many.
pub fn take_chars(text: &str, most: usize) -> (r: String)
    ensures
        r@ == first_chars(text@, most as nat),
{
    let chars = to_chars(text);
    if chars.len() <= most {
        text.to_owned()
    } else {
        assert(chars@.take(most as int) =~= chars@.subrange(0, most as int));
        chars_between(&chars, 0, most)
    }
}

/// The number of bytes of a text in UTF-8.
pub open spec fn byte_count(text: Seq<char>) -> nat {
    vstd::utf8::encode_utf8(text).len()
}

/// The number of bytes of a text in UTF-8.
pub fn byte_len(text: &str) -> (n: usize)
    ensures
        n == byte_count(text@),
{
    text.as_bytes().len()
}

/// A list of texts with the given parts.
pub fn text_list<const N: usize>(parts: [&str; N]) -> (r: Vec<String>)
    ensures
        texts_of(r@) == parts@.map_values(|part: &str| part@),
{
    let mut r: Vec<String> = Vec::new();
    let mut i: usize = 0;
    let ghost wanted = parts@.map_values(|part: &str| part@);
    assert(texts_of(r@) =~= wanted.take(0));
    while i < N
        invariant
            0 <= i <= N,
            parts@.len() == N,
            wanted == parts@.map_values(|part: &str| part@),
            texts_of(r@) == wanted.take(i as int),
        decreases N - i,
    {
        let ghost before = texts_of(r@);
        r.push(parts[i].to_owned());
        assert(texts_of(r@) =~= before.push(parts@[i as int]@));
        i += 1;
        assert(texts_of(r@) =~= wanted.take(i as int));
    }
    assert(wanted.take(N as int) =~= wanted);
    r
}

/// Appends the texts of a second list to a first.
pub fn append_texts(list: &mut Vec<String>, more: Vec<String>)
    ensures
        texts_of(final(list)@) == texts_of(old(list)@) + texts_of(more@),
{
    let ghost added = more@;
    let mut more = more;
    list.append(&mut more);
    assert(texts_of(list@) =~= texts_of(old(list)@) + texts_of(added));
}

/// `std::str::from_utf8`: the text that the bytes encode, where they are valid
/// UTF-8.
#[verifier::external_body]
pub(crate) fn utf8_text(bytes: &[u8]) -> (r: Option<String>)
    ensures
        match r {
            Some(text) => vstd::utf8::valid_utf8(bytes@) && text@ == vstd::utf8::decode_utf8(bytes@),
            None => !vstd::utf8::valid_utf8(bytes@),
        },
{
    std::str::from_utf8(bytes).ok().map(str::to_owned)
}

/// What `String::from_utf8_lossy` makes of bytes.
pub uninterp spec fn lossy_text(bytes: Seq<u8>) -> Seq<char>;

/// `String::from_utf8_lossy`: the text that the bytes encode, with replacement
/// characters where they are not valid UTF-8.
#[verifier::external_body]
pub(crate) fn text_lossy(bytes: &[u8]) -> (r: String)
    ensures
        r@ == lossy_text(bytes@),
        vstd::utf8::valid_utf8(bytes@) ==> r@ == vstd::utf8::decode_utf8(bytes@),
{
    String::from_utf8_lossy(bytes).into_owned()
}

/// Whether a text holds ASCII characters alone.
pub open spec fn is_ascii_text(text: Seq<char>) -> bool {
    forall|i: int| 0 <= i < text.len() ==> (#[trigger] text[i] as u32) < 128
}

/// What `str::to_lowercase` makes of a text that is not ASCII.
pub uninterp spec fn lowercase_text(text: Seq<char>) -> Seq<char>;

/// The lower-case form of a text.
pub open spec fn lower_text(text: Seq<char>) -> Seq<char> {
    if is_ascii_text(text) {
        lowered(text)
    } else {
        lowercase_text(text)
    }
}

/// `str::to_lowercase`: the Unicode lower-case form of a text. Of an ASCII text
/// that is the text with its letters in lower case. What becomes of other
/// characters rests on the Unicode tables, and on what stands around them, and is
/// only given a name.
#[verifier::external_body]
pub(crate) fn unicode_lower(text: &str) -> (r: String)
    ensures
        r@ == lower_text(text@),
        is_ascii_text(text@) ==> r@ == lowered(text@),
        !is_ascii_text(text@) ==> r@ == lowercase_text(text@),
{
    text.to_lowercase()
}

/// What `char::to_lowercase` makes of a character that is not ASCII.
pub uninterp spec fn lowercase_forms(c: char) -> Seq<char>;

/// The lower-case form of a character, which may take several. None of them is an
/// upper-case ASCII letter.
pub open spec fn lowered_char(c: char) -> Seq<char> {
    if (c as u32) < 128 {
        seq![lower(c)]
    } else {
        lowered(lowercase_forms(c))
    }
}

/// `char::to_lowercase`: the lower-case form of one character, which may take
/// several. An ASCII letter has its lower-case letter, and any other ASCII
/// character itself. The form of another character holds no upper-case ASCII
/// letter, so ASCII lower case leaves it as it is.
#[verifier::external_body]
pub(crate) fn unicode_lower_char(c: char) -> (r: Vec<char>)
    ensures
        r@ == lowered_char(c),
        (c as u32) < 128 ==> r@ == seq![lower(c)],
        (c as u32) >= 128 ==> r@ == lowercase_forms(c),
{
    c.to_lowercase().collect()
}

/// The upper-case form of an ASCII letter, and every other character itself.
pub open spec fn upper(c: char) -> char {
    if 'a' <= c <= 'z' {
        ((c as u32 - 32) as u32) as char
    } else {
        c
    }
}

/// A text with its ASCII letters in upper case.
pub open spec fn uppered(text: Seq<char>) -> Seq<char> {
    text.map_values(|c: char| upper(c))
}

/// The case of ASCII letters is lost in lower case, and what is in lower case
/// stays so.
pub proof fn lemma_lowered(text: Seq<char>)
    ensures
        lowered(uppered(text)) == lowered(text),
        lowered(lowered(text)) == lowered(text),
        is_ascii_text(text) ==> is_ascii_text(uppered(text)) && is_ascii_text(lowered(text)),
{
    assert(lowered(uppered(text)) =~= lowered(text));
    assert(lowered(lowered(text)) =~= lowered(text));
}

proof fn lemma_leading_white(text: Seq<char>) -> (cut: int)
    ensures
        0 <= cut <= text.len(),
        trimmed_start(text) == text.skip(cut),
        forall|i: int| 0 <= i < cut ==> is_white(#[trigger] text[i]),
        cut < text.len() ==> !is_white(text[cut]),
    decreases text.len(),
{
    if text.len() > 0 && is_white(text[0]) {
        let rest = text.drop_first();
        let cut = lemma_leading_white(rest);
        assert(rest.skip(cut) =~= text.skip(cut + 1));
        assert forall|i: int| 0 <= i < cut + 1 implies is_white(#[trigger] text[i]) by {
            if i > 0 {
                assert(rest[i - 1] == text[i]);
            }
        }
        if cut < rest.len() {
            assert(rest[cut] == text[cut + 1]);
        }
        cut + 1
    } else {
        assert(text.skip(0) =~= text);
        0
    }
}

proof fn lemma_trailing_white(text: Seq<char>) -> (cut: int)
    ensures
        0 <= cut <= text.len(),
        trimmed_end(text) == text.take(cut),
        forall|i: int| cut <= i < text.len() ==> is_white(#[trigger] text[i]),
        cut > 0 ==> !is_white(text[cut - 1]),
    decreases text.len(),
{
    if text.len() > 0 && is_white(text.last()) {
        let rest = text.drop_last();
        let cut = lemma_trailing_white(rest);
        assert(rest.take(cut) =~= text.take(cut));
        assert forall|i: int| cut <= i < text.len() implies is_white(#[trigger] text[i]) by {
            if i < rest.len() {
                assert(rest[i] == text[i]);
            }
        }
        if cut > 0 {
            assert(rest[cut - 1] == text[cut - 1]);
        }
        cut
    } else {
        assert(text.take(text.len() as int) =~= text);
        text.len() as int
    }
}

/// Trimming takes white space from both ends and nothing else: what is left stands in
/// the text, begins and ends with something, and only white space stands around it.
pub proof fn lemma_trimmed_is_the_core(text: Seq<char>) -> (bounds: (int, int))
    ensures
        0 <= bounds.0 <= bounds.1 <= text.len(),
        trimmed(text) == text.subrange(bounds.0, bounds.1),
        forall|i: int| 0 <= i < bounds.0 ==> is_white(#[trigger] text[i]),
        forall|i: int| bounds.1 <= i < text.len() ==> is_white(#[trigger] text[i]),
        trimmed(text).len() > 0 ==> !is_white(trimmed(text)[0]) && !is_white(trimmed(text).last()),
{
    let a = lemma_leading_white(text);
    let middle = text.skip(a);
    let b = lemma_trailing_white(middle);
    assert(middle.take(b) =~= text.subrange(a, a + b));
    assert forall|i: int| a + b <= i < text.len() implies is_white(#[trigger] text[i]) by {
        assert(middle[i - a] == text[i]);
    }
    if b > 0 {
        assert(middle[b - 1] == text[a + b - 1]);
        assert(text[a] == trimmed(text)[0]);
    }
    (a, a + b)
}

/// A text that has been trimmed stays as it is when it is trimmed again.
pub proof fn lemma_trimming_is_settled(text: Seq<char>)
    ensures
        trimmed(trimmed(text)) == trimmed(text),
{
    let bounds = lemma_trimmed_is_the_core(text);
    let core = trimmed(text);
    if core.len() > 0 {
        assert(trimmed_start(core) == core);
        assert(trimmed_end(core) == core);
    }
}

/// The first place at which a text stands is replaced, and nothing else; a text
/// without it stays as it is.
pub proof fn lemma_first_place_is_replaced(head: Seq<char>, from: Seq<char>, rest: Seq<char>, to: Seq<char>)
    requires
        forall|at: int| 0 <= at < head.len() ==> !#[trigger] stands_at(head + from + rest, from, at),
    ensures
        replaced_once(head + from + rest, from, to) == head + to + rest,
    decreases head.len(),
{
    let text = head + from + rest;
    if head.len() == 0 {
        assert(text.subrange(0, from.len() as int) =~= from);
        assert(text.skip(from.len() as int) =~= rest);
        assert(head + to + rest =~= to + rest);
    } else {
        assert(!stands_at(text, from, 0));
        let less = head.drop_first();
        let shorter = less + from + rest;
        assert(text.drop_first() =~= shorter);
        assert forall|at: int| 0 <= at < less.len() implies !#[trigger] stands_at(shorter, from, at) by {
            assert(!stands_at(text, from, at + 1));
            if at + from.len() <= shorter.len() {
                assert(shorter.subrange(at, at + from.len()) =~= text.subrange(at + 1, at + 1 + from.len()));
            }
        }
        lemma_first_place_is_replaced(less, from, rest, to);
        assert(seq![text[0]] + (less + to + rest) =~= head + to + rest);
    }
}

} // verus!
