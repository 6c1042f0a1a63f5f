//! Character-level helpers shared by the parsers and the name handling of
//! the library: ASCII classification, decimal rendering, string building,
//! and the few std string operations that the library relies on.

use vstd::prelude::*;
use vstd::string::*;

verus! {

/// An ASCII decimal digit.
pub open spec fn is_digit(c: char) -> bool {
    '0' <= c && c <= '9'
}

/// An ASCII upper-case letter.
pub open spec fn is_upper(c: char) -> bool {
    'A' <= c && c <= 'Z'
}

/// An ASCII lower-case letter.
pub open spec fn is_lower(c: char) -> bool {
    'a' <= c && c <= 'z'
}

/// An ASCII letter of either case.
pub open spec fn is_alpha(c: char) -> bool {
    is_upper(c) || is_lower(c)
}

/// A visible ASCII character (no space, no control character).
pub open spec fn is_graphic(c: char) -> bool {
    '!' <= c && c <= '~'
}

/// Every character of `s` is a visible ASCII character.
pub open spec fn all_graphic(s: Seq<char>) -> bool {
    forall|i: int| 0 <= i < s.len() ==> is_graphic(#[trigger] s[i])
}

/// Every character of `s` is ASCII.
pub open spec fn all_ascii(s: Seq<char>) -> bool {
    forall|i: int| 0 <= i < s.len() ==> (#[trigger] s[i] as u32) < 128
}

/// ASCII lower-casing of one character; other characters are unchanged.
pub open spec fn lower_char(c: char) -> char {
    if is_upper(c) {
        ((c as u32) + 32) as char
    } else {
        c
    }
}

/// ASCII upper-casing of one character; other characters are unchanged.
pub open spec fn upper_char(c: char) -> char {
    if is_lower(c) {
        ((c as u32) - 32) as char
    } else {
        c
    }
}

/// ASCII lower-casing of a whole string.
pub open spec fn lower_ascii(s: Seq<char>) -> Seq<char> {
    s.map_values(|c: char| lower_char(c))
}

/// ASCII upper-casing of a whole string.
pub open spec fn upper_ascii(s: Seq<char>) -> Seq<char> {
    s.map_values(|c: char| upper_char(c))
}

/// The character of a decimal digit value `d` (< 10).
pub open spec fn digit_char(d: nat) -> char {
    (('0' as u32) + d) as char
}

/// The value of an ASCII digit character.
pub open spec fn digit_value(c: char) -> nat {
    ((c as u32) - ('0' as u32)) as nat
}

/// Decimal rendering of a natural number, without sign or leading zeros.
pub open spec fn decimal(n: nat) -> Seq<char>
    decreases n,
{
    if n < 10 {
        seq![digit_char(n)]
    } else {
        decimal(n / 10).push(digit_char(n % 10))
    }
}

/// A non-empty run of ASCII digits.
pub open spec fn all_digits(s: Seq<char>) -> bool {
    s.len() > 0 && forall|i: int| 0 <= i < s.len() ==> is_digit(#[trigger] s[i])
}

/// The value of a run of ASCII digits, most significant first.
pub open spec fn digits_value(s: Seq<char>) -> nat
    decreases s.len(),
{
    if s.len() == 0 {
        0
    } else {
        digits_value(s.drop_last()) * 10 + digit_value(s.last())
    }
}

/// What parsing `s` as an unsigned 8-bit integer gives: an optional `+`
/// sign followed by at least one ASCII digit, with a value of at most 255.
pub open spec fn parse_u8_spec(s: Seq<char>) -> Option<u8> {
    let t = if s.len() > 0 && s[0] == '+' {
        s.drop_first()
    } else {
        s
    };
    if all_digits(t) && digits_value(t) <= 255 {
        Some(digits_value(t) as u8)
    } else {
        None
    }
}

/// The result of `str::to_lowercase` on a string; it follows the Unicode
/// `Lowercase` mapping, which no short statement captures.
pub uninterp spec fn lowercase(s: Seq<char>) -> Seq<char>;

/// The result of `str::to_uppercase` on a string (Unicode `Uppercase`
/// mapping).
pub uninterp spec fn uppercase(s: Seq<char>) -> Seq<char>;

/// The result of `str::trim` on a string (removal of leading and trailing
/// Unicode `White_Space` characters).
pub uninterp spec fn trimmed(s: Seq<char>) -> Seq<char>;

/// Calls `str::to_lowercase`. The result is named `lowercase`; on ASCII text
/// it is the plain ASCII lower-casing, as the Unicode mapping agrees with it
/// there. What it does to other characters is not stated.
#[verifier::external_body]
pub(crate) fn to_lowercase(s: &str) -> (r: String)
    ensures
        r@ == lowercase(s@),
        all_ascii(s@) ==> r@ == lower_ascii(s@),
{
    s.to_lowercase()
}

/// Calls `str::to_uppercase`. The result is named `uppercase`; on ASCII text
/// it is the plain ASCII upper-casing. What it does to other characters is
/// not stated.
#[verifier::external_body]
pub(crate) fn to_uppercase(s: &str) -> (r: String)
    ensures
        r@ == uppercase(s@),
        all_ascii(s@) ==> r@ == upper_ascii(s@),
{
    s.to_uppercase()
}

/// Calls `str::trim`. The result is named `trimmed`; a string that is empty,
/// or that starts and ends with a visible ASCII character, comes back as it
/// is, since such characters are not white space. Which characters count as
/// white space otherwise is not stated.
#[verifier::external_body]
pub(crate) fn trim(s: &str) -> (r: &str)
    ensures
        r@ == trimmed(s@),
        s@.len() == 0 || (is_graphic(s@[0]) && is_graphic(s@.last())) ==> r@ == s@,
{
    s.trim()
}

/// Calls `<u8 as FromStr>::from_str`: an optional `+` followed by ASCII
/// digits whose value fits in `u8`; anything else is an error.
#[verifier::external_body]
pub(crate) fn parse_u8(s: &str) -> (r: Option<u8>)
    ensures
        r == parse_u8_spec(s@),
{
    s.parse::<u8>().ok()
}

/// Calls `<str as PartialEq>::eq`: string slices are equal when their
/// characters are.
#[verifier::external_body]
pub(crate) fn str_eq(a: &str, b: &str) -> (r: bool)
    ensures
        r == (a@ == b@),
{
    a == b
}

/// Calls `String::push`, which appends one character.
#[verifier::external_body]
pub(crate) fn push_char(s: &mut String, c: char)
    ensures
        final(s)@ == old(s)@.push(c),
{
    s.push(c)
}

/// The characters of a string slice, in order.
pub fn chars_of(s: &str) -> (r: Vec<char>)
    ensures
        r@ == s@,
{
    let n = s.unicode_len();
    let mut v: Vec<char> = Vec::new();
    let mut i: usize = 0;
    while i < n
        invariant
            i <= n,
            n == s@.len(),
            v@ == s@.subrange(0, i as int),
        decreases n - i,
    {
        let c = s.get_char(i);
        v.push(c);
        i = i + 1;
    }
    v
}

/// A string made of the given characters.
pub fn string_of(cs: &[char]) -> (r: String)
    ensures
        r@ == cs@,
{
    let mut s = String::new();
    let mut i: usize = 0;
    while i < cs.len()
        invariant
            i <= cs@.len(),
            s@ == cs@.subrange(0, i as int),
        decreases cs@.len() - i,
    {
        push_char(&mut s, cs[i]);
        i = i + 1;
    }
    s
}

/// Appends the decimal rendering of `n` to `s`.
pub fn push_decimal(s: &mut String, n: u128)
    ensures
        final(s)@ == old(s)@ + decimal(n as nat),
    decreases n,
{
    if n < 10 {
        let c = digit_to_char(n);
        push_char(s, c);
        assert(decimal(n as nat) == seq![digit_char(n as nat)]);
    } else {
        push_decimal(s, n / 10);
        let c = digit_to_char(n % 10);
        push_char(s, c);
        assert(decimal(n as nat) == decimal((n / 10) as nat).push(digit_char((n % 10) as nat)));
    }
}

/// The digit character of a value below ten.
fn digit_to_char(d: u128) -> (c: char)
    requires
        d < 10,
    ensures
        c == digit_char(d as nat),
{
    if d == 0 { '0' }
    else if d == 1 { '1' }
    else if d == 2 { '2' }
    else if d == 3 { '3' }
    else if d == 4 { '4' }
    else if d == 5 { '5' }
    else if d == 6 { '6' }
    else if d == 7 { '7' }
    else if d == 8 { '8' }
    else { '9' }
}

/// The value of a one-digit text.
pub proof fn lemma_digits_value_1(a: char)
    ensures
        digits_value(seq![a]) == digit_value(a),
{
    assert(seq![a].drop_last() =~= Seq::<char>::empty());
    assert(seq![a].last() == a);
    assert(digits_value(Seq::<char>::empty()) == 0);
}

/// The value of a two-digit text.
pub proof fn lemma_digits_value_2(a: char, b: char)
    ensures
        digits_value(seq![a, b]) == digit_value(a) * 10 + digit_value(b),
{
    assert(seq![a, b].drop_last() =~= seq![a]);
    assert(seq![a, b].last() == b);
    lemma_digits_value_1(a);
}

/// Reading back the decimal rendering of `n` gives `n`.
pub proof fn lemma_digits_value_decimal(n: nat)
    ensures
        digits_value(decimal(n)) == n,
    decreases n,
{
    if n < 10 {
        assert(decimal(n) == seq![digit_char(n)]);
        assert(seq![digit_char(n)].drop_last() =~= Seq::<char>::empty());
        assert(digit_value(digit_char(n)) == n);
        assert(digits_value(seq![digit_char(n)]) == digits_value(Seq::<char>::empty()) * 10
            + digit_value(digit_char(n)));
    } else {
        let s = decimal(n / 10).push(digit_char(n % 10));
        assert(decimal(n) == s);
        assert(s.drop_last() =~= decimal(n / 10));
        assert(digit_value(digit_char(n % 10)) == n % 10);
        lemma_digits_value_decimal(n / 10);
        assert(s.last() == digit_char(n % 10));
        assert(digits_value(s) == digits_value(s.drop_last()) * 10 + digit_value(s.last()));
        assert((n / 10) * 10 + n % 10 == n);
    }
}

} // verus!
