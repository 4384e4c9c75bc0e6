//! String operations of the standard library that the checks rely on, with
//! what is taken for granted of each.
use vstd::prelude::*;

verus! {

/// Whether `c` is one of the ten ASCII digits.
pub open spec fn is_digit(c: char) -> bool {
    '0' <= c && c <= '9'
}

/// Whether `s` is a non-empty run of ASCII digits.
pub open spec fn is_digits(s: Seq<char>) -> bool {
    s.len() > 0 && forall|i: int| 0 <= i < s.len() ==> is_digit(#[trigger] s[i])
}

/// The number that a run of ASCII digits denotes in base ten.
pub open spec fn digits_value(s: Seq<char>) -> int
    decreases s.len(),
{
    if s.len() == 0 {
        0
    } else {
        10 * digits_value(s.drop_last()) + (s.last() as int - '0' as int)
    }
}

/// The integer that `s` denotes: an optional `+` or `-`, then one or more
/// ASCII digits and nothing else.
pub open spec fn decimal_value(s: Seq<char>) -> Option<int> {
    if s.len() > 0 && s[0] == '-' {
        if is_digits(s.drop_first()) {
            Some(-digits_value(s.drop_first()))
        } else {
            None
        }
    } else if s.len() > 0 && s[0] == '+' {
        if is_digits(s.drop_first()) {
            Some(digits_value(s.drop_first()))
        } else {
            None
        }
    } else if is_digits(s) {
        Some(digits_value(s))
    } else {
        None
    }
}

/// The `isize` that `s` denotes, if it denotes an integer and that integer
/// fits.
pub open spec fn parsed_isize(s: Seq<char>) -> Option<int> {
    match decimal_value(s) {
        Some(v) => if isize::MIN <= v <= isize::MAX {
            Some(v)
        } else {
            None
        },
        None => None,
    }
}

/// The lower-case form of a string, as Unicode defines it.
pub uninterp spec fn lowercase_of(s: Seq<char>) -> Seq<char>;

/// The digit `d`, below ten, as a character.
pub open spec fn digit_char(d: nat) -> char {
    (d + 48) as u8 as char
}

/// The digits of `n` in base ten, without leading zeros.
pub open spec fn decimal_digits(n: nat) -> Seq<char>
    decreases n,
{
    if n < 10 {
        seq![digit_char(n)]
    } else {
        decimal_digits(n / 10).push(digit_char(n % 10))
    }
}

/// Trusted: `<str as PartialEq>::eq`. Two strings are equal exactly when
/// they hold the same characters in the same order.
#[verifier::external_body]
pub(crate) fn str_eq(a: &str, b: &str) -> (same: bool)
    ensures
        same == (a@ == b@),
{
    a == b
}

/// Trusted: `str::parse::<isize>`. The standard library reads an optional
/// sign followed by decimal digits only, and fails on an empty string, on any
/// other character and on a number that does not fit in `isize`.
#[verifier::external_body]
pub(crate) fn parse_isize(val: &str) -> (parsed: Option<isize>)
    ensures
        match parsed {
            Some(v) => parsed_isize(val@) == Some(v as int),
            None => parsed_isize(val@) is None,
        },
{
    val.parse::<isize>().ok()
}

/// Trusted: `str::to_lowercase`. The result depends on the characters of the
/// argument alone; nothing else is claimed of it.
#[verifier::external_body]
pub(crate) fn to_lowercase(val: &str) -> (lowered: String)
    ensures
        lowered@ == lowercase_of(val@),
{
    val.to_lowercase()
}

/// Trusted: `ToString::to_string` on a `usize`. The standard library writes
/// the number in base ten, without sign, padding or leading zeros.
#[verifier::external_body]
pub(crate) fn decimal_string(n: usize) -> (digits: String)
    ensures
        digits@ == decimal_digits(n as nat),
{
    n.to_string()
}

} // verus!
