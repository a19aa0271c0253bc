//! String predicates that the engine decides by, and the standard-library
//! calls that compute them.

use vstd::prelude::*;

verus! {

/// `needle` occurs in `hay` as a contiguous run of characters.
pub open spec fn is_substring(needle: Seq<char>, hay: Seq<char>) -> bool {
    exists|i: int|
        0 <= i && i + needle.len() <= hay.len() && #[trigger] hay.subrange(
            i,
            i + needle.len() as int,
        ) == needle
}

/// `a` comes before `b`, or equals it, in the lexicographic order of their
/// characters' code points.
pub open spec fn lex_le(a: Seq<char>, b: Seq<char>) -> bool
    decreases a.len(),
{
    if a.len() == 0 {
        true
    } else if b.len() == 0 {
        false
    } else if a[0] != b[0] {
        (a[0] as u32) < (b[0] as u32)
    } else {
        lex_le(a.drop_first(), b.drop_first())
    }
}

/// Two texts that come before one another are the same text.
pub proof fn lemma_lex_le_antisymmetric(a: Seq<char>, b: Seq<char>)
    requires
        lex_le(a, b),
        lex_le(b, a),
    ensures
        a == b,
    decreases a.len(),
{
    if a.len() == 0 || b.len() == 0 {
        assert(a =~= b);
    } else {
        assert(a[0] == b[0]);
        lemma_lex_le_antisymmetric(a.drop_first(), b.drop_first());
        assert(a =~= seq![a[0]] + a.drop_first());
        assert(b =~= seq![b[0]] + b.drop_first());
    }
}

/// Calls `str::contains` with a string pattern, which is true exactly when the
/// pattern matches a sub-slice of the haystack.
#[verifier::external_body]
pub(crate) fn str_contains(hay: &str, needle: &str) -> (found: bool)
    ensures
        found == is_substring(needle@, hay@),
{
    hay.contains(needle)
}

/// Calls `str::ends_with` with a string pattern, which is true exactly when
/// the pattern matches a suffix of the string.
#[verifier::external_body]
pub(crate) fn str_ends_with(s: &str, suffix: &str) -> (found: bool)
    ensures
        found == suffix@.is_suffix_of(s@),
{
    s.ends_with(suffix)
}

/// `c` is one of the decimal digits `0` to `9`.
pub open spec fn is_digit(c: char) -> bool {
    48 <= c as u32 <= 57
}

/// The number that a run of decimal digits writes.
pub open spec fn digits_value(digits: Seq<char>) -> nat
    decreases digits.len(),
{
    if digits.len() == 0 {
        0
    } else {
        digits_value(digits.drop_last()) * 10 + (digits.last() as u32 - 48) as nat
    }
}

/// Every character of the text is a decimal digit.
pub open spec fn all_digits(text: Seq<char>) -> bool {
    forall|i: int| 0 <= i < text.len() ==> is_digit(#[trigger] text[i])
}

/// The text without the `+` that it may begin with.
pub open spec fn unsigned_part(text: Seq<char>) -> Seq<char> {
    if text.len() > 0 && text[0] == '+' {
        text.drop_first()
    } else {
        text
    }
}

/// The `u64` that a text writes in decimal: an optional `+`, then one or more
/// digits and nothing else, with a value that fits.
pub open spec fn decimal_u64(text: Seq<char>) -> Option<u64> {
    let digits = unsigned_part(text);
    if digits.len() > 0 && all_digits(digits) && digits_value(digits) <= u64::MAX {
        Some(digits_value(digits) as u64)
    } else {
        None
    }
}

/// A text that holds a character other than a digit, anywhere but for a `+`
/// at its start, writes no number; nor does a text without digits.
pub proof fn lemma_not_decimal(text: Seq<char>, at: int)
    requires
        0 <= at < text.len(),
        !is_digit(text[at]),
        at > 0 || text[0] != '+',
    ensures
        decimal_u64(text) is None,
{
    let digits = unsigned_part(text);
    if text[0] == '+' {
        assert(digits[at - 1] == text[at]);
    } else {
        assert(digits[at] == text[at]);
    }
}

/// The empty text and a lone `+` write no number.
pub proof fn lemma_no_digits_not_decimal(text: Seq<char>)
    requires
        text.len() == 0 || (text.len() == 1 && text[0] == '+'),
    ensures
        decimal_u64(text) is None,
{
}

/// A text of digits whose value fits writes that value.
pub proof fn lemma_digits_are_decimal(text: Seq<char>)
    requires
        text.len() > 0,
        all_digits(text),
        digits_value(text) <= u64::MAX,
    ensures
        decimal_u64(text) == Some(digits_value(text) as u64),
{
    assert(is_digit(text[0]));
}

/// The decimal digits of `n`, without leading zeros.
pub open spec fn decimal_digits(n: nat) -> Seq<char>
    decreases n,
{
    if n < 10 {
        seq![(48 + n) as char]
    } else {
        decimal_digits(n / 10).push((48 + n % 10) as char)
    }
}

/// `n` in decimal, with a leading `-` where it is negative.
pub open spec fn decimal_text(n: int) -> Seq<char> {
    if n < 0 {
        seq!['-'] + decimal_digits((-n) as nat)
    } else {
        decimal_digits(n as nat)
    }
}

/// The lower-case form of a text, as `str::to_lowercase` gives it.
pub uninterp spec fn lowercased(text: Seq<char>) -> Seq<char>;

/// Compares two string slices with `==`, which holds exactly when they have
/// the same characters.
#[verifier::external_body]
pub(crate) fn str_eq(a: &str, b: &str) -> (same: bool)
    ensures
        same == (a@ == b@),
{
    a == b
}

/// Calls `str::parse::<u64>`, which accepts an optional `+` sign followed by
/// decimal digits only, and fails on an empty text, on any other character and
/// on a value that does not fit.
#[verifier::external_body]
pub(crate) fn parse_u64(text: &str) -> (value: Option<u64>)
    ensures
        value == decimal_u64(text@),
{
    text.parse::<u64>().ok()
}

/// Calls `i64::to_string`, which writes the number in decimal, with a leading
/// `-` where it is negative.
#[verifier::external_body]
pub(crate) fn i64_to_string(n: i64) -> (text: String)
    ensures
        text@ == decimal_text(n as int),
{
    n.to_string()
}

/// Calls `str::to_lowercase`. The result follows the Unicode case mappings of
/// the characters of `text` alone, so it is named `lowercased(text)`; nothing
/// else is claimed of it.
#[verifier::external_body]
pub(crate) fn to_lowercase(text: &str) -> (lower: String)
    ensures
        lower@ == lowercased(text@),
{
    text.to_lowercase()
}

} // verus!
