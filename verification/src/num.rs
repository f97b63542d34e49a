//! Number values are IEEE 754 binary64 values, carried everywhere as their
//! 64-bit bit patterns. What the arithmetic on them returns is named by the
//! uninterpreted functions below; the bodies of the trusted wrappers compute
//! those results with outside soft-float code, bit pattern in, bit pattern
//! out.

use vstd::prelude::*;

use rustc_apfloat::Float;

verus! {

/// How two number values compare; `None` stands for an unordered pair
/// (at least one of the two is a NaN).
#[derive(Debug, PartialEq, Eq, Structural, Clone, Copy)]
pub enum NumOrder {
    Less,
    Equal,
    Greater,
}

/// Bit pattern of the IEEE 754 binary64 sum of the two values.
pub uninterp spec fn num_add(a: u64, b: u64) -> u64;

/// Bit pattern of the IEEE 754 binary64 difference of the two values.
pub uninterp spec fn num_sub(a: u64, b: u64) -> u64;

/// Bit pattern of the IEEE 754 binary64 product of the two values.
pub uninterp spec fn num_mul(a: u64, b: u64) -> u64;

/// Bit pattern of the IEEE 754 binary64 quotient of the two values.
pub uninterp spec fn num_div(a: u64, b: u64) -> u64;

/// Bit pattern of the IEEE 754 binary64 remainder of the two values, with
/// the truncated-quotient convention of C `fmod`.
pub uninterp spec fn num_rem(a: u64, b: u64) -> u64;

/// Bit pattern of the correctly rounded IEEE 754 binary64 square root.
pub uninterp spec fn num_sqrt(a: u64) -> u64;

/// The IEEE 754 comparison of the two values; `None` if unordered.
pub uninterp spec fn num_cmp(a: u64, b: u64) -> Option<NumOrder>;

/// Bit pattern of the IEEE 754 binary64 value nearest to the given integer.
pub uninterp spec fn num_of_u64(v: u64) -> u64;

/// Bit pattern of the IEEE 754 binary64 value denoted by a decimal literal,
/// or `None` where the text is no valid literal.
pub uninterp spec fn num_of_literal(s: Seq<char>) -> Option<u64>;

/// Decimal rendering of the IEEE 754 binary64 value with this bit pattern.
pub uninterp spec fn num_text(a: u64) -> Seq<char>;

/// Whether the two values are equal under IEEE 754 comparison.
pub open spec fn num_eq(a: u64, b: u64) -> bool {
    num_cmp(a, b) == Some(NumOrder::Equal)
}

/// Relies on rustc_apfloat's `Double` addition: binary64 addition, rounding
/// to nearest, ties to even; the result depends on the operands alone.
#[verifier::external_body]
pub fn add_bits(a: u64, b: u64) -> (r: u64)
    ensures
        r == num_add(a, b),
{
    (rustc_apfloat::ieee::Double::from_bits(a as u128)
        + rustc_apfloat::ieee::Double::from_bits(b as u128)).value.to_bits() as u64
}

/// Relies on rustc_apfloat's `Double` subtraction; the result depends on the
/// operands alone.
#[verifier::external_body]
pub fn sub_bits(a: u64, b: u64) -> (r: u64)
    ensures
        r == num_sub(a, b),
{
    (rustc_apfloat::ieee::Double::from_bits(a as u128)
        - rustc_apfloat::ieee::Double::from_bits(b as u128)).value.to_bits() as u64
}

/// Relies on rustc_apfloat's `Double` multiplication; the result depends on
/// the operands alone.
#[verifier::external_body]
pub fn mul_bits(a: u64, b: u64) -> (r: u64)
    ensures
        r == num_mul(a, b),
{
    (rustc_apfloat::ieee::Double::from_bits(a as u128)
        * rustc_apfloat::ieee::Double::from_bits(b as u128)).value.to_bits() as u64
}

/// Relies on rustc_apfloat's `Double` division; the result depends on the
/// operands alone.
#[verifier::external_body]
pub fn div_bits(a: u64, b: u64) -> (r: u64)
    ensures
        r == num_div(a, b),
{
    (rustc_apfloat::ieee::Double::from_bits(a as u128)
        / rustc_apfloat::ieee::Double::from_bits(b as u128)).value.to_bits() as u64
}

/// Relies on rustc_apfloat's `Double::c_fmod`: the C `fmod` remainder, as the
/// `%` operator of the host language computes it; the result depends on the
/// operands alone.
#[verifier::external_body]
pub fn rem_bits(a: u64, b: u64) -> (r: u64)
    ensures
        r == num_rem(a, b),
{
    rustc_apfloat::ieee::Double::from_bits(a as u128).c_fmod(
        rustc_apfloat::ieee::Double::from_bits(b as u128),
    ).value.to_bits() as u64
}

/// Relies on const_soft_float's `SoftF64::sqrt`: the correctly rounded
/// binary64 square root; the result depends on the operand alone.
#[verifier::external_body]
pub fn sqrt_bits(a: u64) -> (r: u64)
    ensures
        r == num_sqrt(a),
{
    const_soft_float::soft_f64::SoftF64::from_bits(a).sqrt().to_bits()
}

/// Relies on rustc_apfloat's `Double::partial_cmp`: the IEEE 754 comparison,
/// under which a NaN is unordered against everything and the two zeros are
/// equal; the result depends on the operands alone.
#[verifier::external_body]
pub fn cmp_bits(a: u64, b: u64) -> (r: Option<NumOrder>)
    ensures
        r == num_cmp(a, b),
{
    match rustc_apfloat::ieee::Double::from_bits(a as u128).partial_cmp(
        &rustc_apfloat::ieee::Double::from_bits(b as u128),
    ) {
        Some(core::cmp::Ordering::Less) => Some(NumOrder::Less),
        Some(core::cmp::Ordering::Equal) => Some(NumOrder::Equal),
        Some(core::cmp::Ordering::Greater) => Some(NumOrder::Greater),
        None => None,
    }
}

/// Relies on rustc_apfloat's `Double::from_u128`: the integer converted to
/// the nearest binary64 value; the result depends on the operand alone.
#[verifier::external_body]
pub fn u64_to_bits(v: u64) -> (r: u64)
    ensures
        r == num_of_u64(v),
{
    rustc_apfloat::ieee::Double::from_u128(v as u128).value.to_bits() as u64
}

/// Relies on rustc_apfloat's `Double::from_str`: a decimal literal read with
/// correct rounding to nearest, or an error for text that is no literal; the
/// result depends on the text alone.
#[verifier::external_body]
pub fn literal_to_bits(s: &str) -> (r: Option<u64>)
    ensures
        r == num_of_literal(s@),
{
    match s.parse::<rustc_apfloat::ieee::Double>() {
        Ok(d) => Some(d.to_bits() as u64),
        Err(_) => None,
    }
}

/// Relies on rustc_apfloat's decimal rendering of `Double`, positional (not
/// scientific) for every finite value; the text depends on the value alone.
#[verifier::external_body]
pub fn text_of_bits(a: u64) -> (r: String)
    ensures
        r@ == num_text(a),
{
    format!("{:340}", rustc_apfloat::ieee::Double::from_bits(a as u128))
}

/// Whether the two number values are equal under IEEE 754 comparison.
pub fn eq_bits(a: u64, b: u64) -> (r: bool)
    ensures
        r == num_eq(a, b),
{
    let c = cmp_bits(a, b);
    match c {
        Some(NumOrder::Equal) => true,
        _ => false,
    }
}

} // verus!
