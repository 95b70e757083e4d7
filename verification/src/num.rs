use rustc_apfloat::Float;
use vstd::prelude::*;

verus! {

// A Lox number is an IEEE 754 double-precision value. Verified code stores a
// number as its 64-bit encoding and reaches the arithmetic through the
// rustc_apfloat crate, a software implementation of the same format. The
// results are functions of the encodings alone, so each operation is given a
// name here and every contract above speaks of these names.

/// How two numbers compare; `Unordered` is the NaN case.
#[derive(Clone, Copy, Debug)]
pub enum NumOrder {
    Less,
    Equal,
    Greater,
    Unordered,
}

/// The encoding of the IEEE sum of the two encoded doubles.
pub uninterp spec fn num_add_of(a: u64, b: u64) -> u64;

/// The encoding of the IEEE difference of the two encoded doubles.
pub uninterp spec fn num_sub_of(a: u64, b: u64) -> u64;

/// The encoding of the IEEE product of the two encoded doubles.
pub uninterp spec fn num_mul_of(a: u64, b: u64) -> u64;

/// The encoding of the IEEE quotient of the two encoded doubles.
pub uninterp spec fn num_div_of(a: u64, b: u64) -> u64;

/// The encoding of the IEEE negation of the encoded double.
pub uninterp spec fn num_neg_of(a: u64) -> u64;

/// The IEEE comparison of the two encoded doubles.
pub uninterp spec fn num_order_of(a: u64, b: u64) -> NumOrder;

/// What decimal parsing makes of a piece of text, if anything.
pub uninterp spec fn num_parse_of(s: Seq<char>) -> Option<u64>;

/// The decimal rendering of the encoded double.
pub uninterp spec fn num_text_of(a: u64) -> Seq<char>;

/// IEEE equality: true only when the comparison is `Equal`, so a NaN is
/// equal to nothing, itself included.
pub open spec fn num_eq_of(a: u64, b: u64) -> bool {
    num_order_of(a, b) is Equal
}

pub open spec fn num_lt_of(a: u64, b: u64) -> bool {
    num_order_of(a, b) is Less
}

pub open spec fn num_gt_of(a: u64, b: u64) -> bool {
    num_order_of(a, b) is Greater
}

/// Relies on rustc_apfloat's `Double` addition: the IEEE sum of the two
/// encoded doubles, rounded to nearest even.
#[verifier::external_body]
pub fn num_add(a: u64, b: u64) -> (r: u64)
    ensures
        r == num_add_of(a, b),
{
    let x = rustc_apfloat::ieee::Double::from_bits(a as u128);
    let y = rustc_apfloat::ieee::Double::from_bits(b as u128);
    (x + y).value.to_bits() as u64
}

/// Relies on rustc_apfloat's `Double` subtraction.
#[verifier::external_body]
pub fn num_sub(a: u64, b: u64) -> (r: u64)
    ensures
        r == num_sub_of(a, b),
{
    let x = rustc_apfloat::ieee::Double::from_bits(a as u128);
    let y = rustc_apfloat::ieee::Double::from_bits(b as u128);
    (x - y).value.to_bits() as u64
}

/// Relies on rustc_apfloat's `Double` multiplication.
#[verifier::external_body]
pub fn num_mul(a: u64, b: u64) -> (r: u64)
    ensures
        r == num_mul_of(a, b),
{
    let x = rustc_apfloat::ieee::Double::from_bits(a as u128);
    let y = rustc_apfloat::ieee::Double::from_bits(b as u128);
    (x * y).value.to_bits() as u64
}

/// Relies on rustc_apfloat's `Double` division.
#[verifier::external_body]
pub fn num_div(a: u64, b: u64) -> (r: u64)
    ensures
        r == num_div_of(a, b),
{
    let x = rustc_apfloat::ieee::Double::from_bits(a as u128);
    let y = rustc_apfloat::ieee::Double::from_bits(b as u128);
    (x / y).value.to_bits() as u64
}

/// Relies on rustc_apfloat's `Double` negation.
#[verifier::external_body]
pub fn num_neg(a: u64) -> (r: u64)
    ensures
        r == num_neg_of(a),
{
    (-rustc_apfloat::ieee::Double::from_bits(a as u128)).to_bits() as u64
}

/// Relies on rustc_apfloat's `partial_cmp` for `Double`: the IEEE comparison,
/// unordered exactly when an operand is a NaN.
#[verifier::external_body]
pub fn num_order(a: u64, b: u64) -> (r: NumOrder)
    ensures
        r == num_order_of(a, b),
{
    let x = rustc_apfloat::ieee::Double::from_bits(a as u128);
    let y = rustc_apfloat::ieee::Double::from_bits(b as u128);
    match x.partial_cmp(&y) {
        Some(core::cmp::Ordering::Less) => NumOrder::Less,
        Some(core::cmp::Ordering::Equal) => NumOrder::Equal,
        Some(core::cmp::Ordering::Greater) => NumOrder::Greater,
        None => NumOrder::Unordered,
    }
}

/// Relies on rustc_apfloat's `Double::from_str`: correctly rounded decimal
/// parsing; fails only on text that is not a decimal number.
#[verifier::external_body]
pub fn num_parse(s: &str) -> (r: Option<u64>)
    ensures
        r == num_parse_of(s@),
{
    match s.parse::<rustc_apfloat::ieee::Double>() {
        Ok(d) => Some(d.to_bits() as u64),
        Err(_) => None,
    }
}

/// Relies on rustc_apfloat's `Display` for `Double`: a decimal rendering that
/// depends on the encoding alone. It agrees with the usual rendering on
/// integral values and exact binary fractions (`7`, `4.5`); long fractions,
/// infinities and very large magnitudes are written in its own style
/// (seventeen significant digits, `+Inf`, scientific notation).
#[verifier::external_body]
pub fn num_text(a: u64) -> (r: String)
    ensures
        r@ == num_text_of(a),
{
    format!("{}", rustc_apfloat::ieee::Double::from_bits(a as u128))
}

} // verus!
