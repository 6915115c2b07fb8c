//! Text primitives that the rest of the library builds on: substring and
//! case-insensitive tests, concatenation and number rendering.
use vstd::prelude::*;
use vstd::string::StringExecFns;

verus! {

/// `p` occurs in `s` as a contiguous run of characters.
pub open spec fn contains_sub(s: Seq<char>, p: Seq<char>) -> bool {
    exists|i: int| 0 <= i <= s.len() - p.len() && #[trigger] s.subrange(i, i + p.len()) == p
}

/// The code of `c` after ASCII case folding ('A'..='Z' become 'a'..='z').
pub open spec fn ascii_fold(c: char) -> u32 {
    let v = c as u32;
    if 65 <= v && v <= 90 {
        (v + 32) as u32
    } else {
        v
    }
}

/// `a` and `b` are equal up to ASCII case.
pub open spec fn eq_ascii_nocase(a: Seq<char>, b: Seq<char>) -> bool {
    a.len() == b.len() && forall|i: int| 0 <= i < a.len() ==> ascii_fold(#[trigger] a[i]) == ascii_fold(b[i])
}

/// Full Unicode lowercase mapping of a string.
pub uninterp spec fn lower_of(s: Seq<char>) -> Seq<char>;

/// The character of a digit below sixteen, `upper` choosing the case of
/// the letters.
pub open spec fn digit_char(d: nat, upper: bool) -> char {
    if d == 0 { '0' } else if d == 1 { '1' } else if d == 2 { '2' } else if d == 3 { '3' }
    else if d == 4 { '4' } else if d == 5 { '5' } else if d == 6 { '6' } else if d == 7 { '7' }
    else if d == 8 { '8' } else if d == 9 { '9' }
    else if d == 10 { if upper { 'A' } else { 'a' } }
    else if d == 11 { if upper { 'B' } else { 'b' } }
    else if d == 12 { if upper { 'C' } else { 'c' } }
    else if d == 13 { if upper { 'D' } else { 'd' } }
    else if d == 14 { if upper { 'E' } else { 'e' } }
    else { if upper { 'F' } else { 'f' } }
}

/// Decimal rendering of `n`, without leading zeros.
pub open spec fn decimal(n: nat) -> Seq<char>
    decreases n,
{
    if n < 10 {
        seq![digit_char(n, false)]
    } else {
        decimal(n / 10).push(digit_char(n % 10, false))
    }
}

/// The last `width` digits of `n` in base `base`, most significant first.
pub open spec fn padded(n: nat, base: nat, width: nat, upper: bool) -> Seq<char>
    decreases width,
{
    if width == 0 || base == 0 {
        seq![]
    } else {
        padded(n / base, base, (width - 1) as nat, upper).push(digit_char(n % base, upper))
    }
}

/// Relies on `str::contains` with a `&str` pattern: true when the pattern
/// occurs in the text.
#[verifier::external_body]
pub(crate) fn str_contains(s: &str, p: &str) -> (r: bool)
    ensures
        r == contains_sub(s@, p@),
{
    s.contains(p)
}

/// Relies on `str::eq_ignore_ascii_case`: equality after ASCII case folding.
#[verifier::external_body]
pub(crate) fn str_eq_ascii_nocase(a: &str, b: &str) -> (r: bool)
    ensures
        r == eq_ascii_nocase(a@, b@),
{
    a.eq_ignore_ascii_case(b)
}

/// Relies on `str::to_lowercase`: the result depends on the characters alone.
#[verifier::external_body]
pub(crate) fn lowercase(s: &str) -> (r: String)
    ensures
        r@ == lower_of(s@),
{
    s.to_lowercase()
}

/// The two texts one after the other.
pub(crate) fn concat(a: &str, b: &str) -> (r: String)
    ensures
        r@ == a@ + b@,
{
    let mut r = String::from_str(a);
    r.append(b);
    r
}

/// Relies on `format!("{}")` of an unsigned integer: its decimal digits.
#[verifier::external_body]
pub(crate) fn fmt_decimal(n: u64) -> (r: String)
    ensures
        r@ == decimal(n as nat),
{
    format!("{}", n)
}

/// Relies on `format!("{:03}")` of a `u8`: three decimal digits, zero-padded.
#[verifier::external_body]
pub(crate) fn fmt_decimal3(n: u8) -> (r: String)
    ensures
        r@ == padded(n as nat, 10, 3, false),
{
    format!("{:03}", n)
}

/// Relies on `format!("{:04X}")` of a `u16`: four upper-case hex digits.
#[verifier::external_body]
pub(crate) fn fmt_hex4_upper(n: u16) -> (r: String)
    ensures
        r@ == padded(n as nat, 16, 4, true),
{
    format!("{:04X}", n)
}

/// Relies on `format!("{:04x}")` of a `u16`: four lower-case hex digits.
#[verifier::external_body]
pub(crate) fn fmt_hex4_lower(n: u16) -> (r: String)
    ensures
        r@ == padded(n as nat, 16, 4, false),
{
    format!("{:04x}", n)
}

/// Relies on `String::from_utf8`: the bytes decoded when they are UTF-8,
/// an error otherwise.
#[verifier::external_body]
pub(crate) fn utf8_decode(bytes: Vec<u8>) -> (r: Option<String>)
    ensures
        r is Some <==> vstd::utf8::valid_utf8(bytes@),
        r matches Some(s) ==> s@ == vstd::utf8::decode_utf8(bytes@),
{
    String::from_utf8(bytes).ok()
}

} // verus!
