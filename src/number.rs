use rustc_apfloat::ieee::Double;
use rustc_apfloat::Float;
use vstd::prelude::*;

verus! {

/// The sign bit of an IEEE-754 binary64 bit pattern.
pub const SIGN_BIT: u64 = 0x8000_0000_0000_0000;

/// How two numbers are ordered, when they are ordered at all.
#[derive(Clone, Copy, Debug, PartialEq, Eq, Structural)]
pub enum NumOrder {
    Less,
    Equal,
    Greater,
}

/// The binary64 value nearest to a decimal numeral, as a bit pattern.
pub uninterp spec fn number_of(text: Seq<char>) -> u64;

/// The correctly rounded binary64 sum of two bit patterns.
pub uninterp spec fn sum_of(a: u64, b: u64) -> u64;

/// The correctly rounded binary64 difference of two bit patterns.
pub uninterp spec fn difference_of(a: u64, b: u64) -> u64;

/// The correctly rounded binary64 product of two bit patterns.
pub uninterp spec fn product_of(a: u64, b: u64) -> u64;

/// The correctly rounded binary64 quotient of two bit patterns.
pub uninterp spec fn quotient_of(a: u64, b: u64) -> u64;

/// A NaN: every exponent bit set and a non-zero fraction.
pub open spec fn is_nan(a: u64) -> bool {
    a & 0x7ff0_0000_0000_0000 == 0x7ff0_0000_0000_0000 && a & 0x000f_ffff_ffff_ffff != 0
}

/// Where a bit pattern that is not a NaN stands on the number line: its magnitude,
/// negated when the sign bit is set, so that both zeros stand at 0.
pub open spec fn rank(a: u64) -> int {
    let m = (a & 0x7fff_ffff_ffff_ffff) as int;
    if a & SIGN_BIT != 0 {
        -m
    } else {
        m
    }
}

/// The IEEE-754 ordering of two bit patterns; `None` when either is a NaN.
pub open spec fn order_of(a: u64, b: u64) -> Option<NumOrder> {
    if is_nan(a) || is_nan(b) {
        None
    } else if rank(a) < rank(b) {
        Some(NumOrder::Less)
    } else if rank(a) == rank(b) {
        Some(NumOrder::Equal)
    } else {
        Some(NumOrder::Greater)
    }
}

/// Whether a text of `n` characters is short enough for rustc_apfloat's decimal
/// parser. It sizes its buffer by `196 * n` in a `usize`, and keeps binary
/// exponents in an `i32`: the significand of `n` digits needs about `3.33 * n`
/// bits and the power of five about `2.33 * n` more, so their sum with the decimal
/// exponent stays below `7 * n`. Under 2^27 characters that is under 2^30, well
/// inside an `i32`.
pub open spec fn within_parse_limit(n: nat) -> bool {
    n < 0x0800_0000 && 196 * n <= usize::MAX
}

/// Whether a text of `n` characters is within the parse limit.
pub fn within_limit(n: usize) -> (r: bool)
    ensures
        r == within_parse_limit(n as nat),
{
    n < 0x0800_0000 && n <= usize::MAX / 196
}

/// A digit of a decimal numeral.
pub open spec fn is_digit(c: char) -> bool {
    '0' <= c && c <= '9'
}

/// `t[..d]` is a run of digits, and `t[d..]` is empty or a dot and more digits.
pub open spec fn numeral_split(t: Seq<char>, d: int) -> bool {
    &&& 1 <= d <= t.len()
    &&& forall|i: int| 0 <= i < d ==> is_digit(#[trigger] t[i])
    &&& d == t.len() || (d + 1 < t.len() && t[d] == '.' && forall|i: int|
        d < i < t.len() ==> is_digit(#[trigger] t[i]))
}

/// Digits, optionally followed by a dot and more digits.
pub open spec fn is_numeral(t: Seq<char>) -> bool {
    exists|d: int| numeral_split(t, d)
}

/// IEEE-754 negation: the same bit pattern with the sign bit flipped.
pub open spec fn negation_of(a: u64) -> u64 {
    a ^ SIGN_BIT
}

/// Negates a number.
pub fn negate(a: u64) -> (r: u64)
    ensures
        r == negation_of(a),
{
    a ^ SIGN_BIT
}

/// Relies on rustc_apfloat's `FromStr` for `Double` (round to nearest, ties to even),
/// which accepts every decimal numeral within the parse limit.
#[verifier::external_body]
pub(crate) fn parse_number(text: &str) -> (r: u64)
    requires
        is_numeral(text@),
        within_parse_limit(text@.len()),
    ensures
        r == number_of(text@),
{
    text.parse::<Double>().unwrap().to_bits() as u64
}

/// Relies on rustc_apfloat's `Add` for `Double` (round to nearest, ties to even).
#[verifier::external_body]
pub(crate) fn add_numbers(a: u64, b: u64) -> (r: u64)
    ensures
        r == sum_of(a, b),
{
    (Double::from_bits(a as u128) + Double::from_bits(b as u128)).value.to_bits() as u64
}

/// Relies on rustc_apfloat's `Sub` for `Double` (round to nearest, ties to even).
#[verifier::external_body]
pub(crate) fn subtract_numbers(a: u64, b: u64) -> (r: u64)
    ensures
        r == difference_of(a, b),
{
    (Double::from_bits(a as u128) - Double::from_bits(b as u128)).value.to_bits() as u64
}

/// Relies on rustc_apfloat's `Mul` for `Double` (round to nearest, ties to even).
#[verifier::external_body]
pub(crate) fn multiply_numbers(a: u64, b: u64) -> (r: u64)
    ensures
        r == product_of(a, b),
{
    (Double::from_bits(a as u128) * Double::from_bits(b as u128)).value.to_bits() as u64
}

/// Relies on rustc_apfloat's `Div` for `Double` (round to nearest, ties to even;
/// a zero divisor gives an infinity or a NaN).
#[verifier::external_body]
pub(crate) fn divide_numbers(a: u64, b: u64) -> (r: u64)
    ensures
        r == quotient_of(a, b),
{
    (Double::from_bits(a as u128) / Double::from_bits(b as u128)).value.to_bits() as u64
}

/// Relies on rustc_apfloat's `PartialOrd` for `Double`: IEEE-754 comparison, where a
/// NaN is unordered and the two zeros are equal.
#[verifier::external_body]
pub(crate) fn compare_numbers(a: u64, b: u64) -> (r: Option<NumOrder>)
    ensures
        r == order_of(a, b),
{
    match Double::from_bits(a as u128).partial_cmp(&Double::from_bits(b as u128)) {
        Some(core::cmp::Ordering::Less) => Some(NumOrder::Less),
        Some(core::cmp::Ordering::Equal) => Some(NumOrder::Equal),
        Some(core::cmp::Ordering::Greater) => Some(NumOrder::Greater),
        None => None,
    }
}

} // verus!
