//! Numbers of the language: IEEE-754 binary64 values, held as their bit
//! pattern. Sign, order and negation are read off the bits here; sums,
//! products, quotients and decimal text come from `rustc_apfloat`, a software
//! implementation of IEEE-754 arithmetic.
use rustc_apfloat::ieee::Double;
use rustc_apfloat::Float;
use vstd::prelude::*;

verus! {

/// The sign bit of a binary64 pattern.
pub const SIGN_BIT: u64 = 0x8000_0000_0000_0000;

/// The pattern of positive infinity: the largest magnitude that is not a NaN.
pub const INFINITY_BITS: u64 = 0x7ff0_0000_0000_0000;

/// The pattern of `1000.0`.
pub const THOUSAND_BITS: u64 = 0x408f_4000_0000_0000;

/// Significant digits shown when a number is rendered.
pub const RENDER_DIGITS: usize = 15;

/// Zeros written out before rendering switches to scientific notation.
pub const RENDER_MAX_ZEROS: usize = 15;

/// A binary64 floating-point number, as its bit pattern.
#[derive(Clone, Copy, Debug)]
pub struct Number {
    pub bits: u64,
}

/// The bits without the sign: the magnitude part of the pattern.
pub open spec fn magnitude(b: u64) -> int {
    if b >= SIGN_BIT {
        b - SIGN_BIT
    } else {
        b as int
    }
}

pub open spec fn is_nan(b: u64) -> bool {
    magnitude(b) > INFINITY_BITS
}

/// Among patterns that are not NaN, the IEEE-754 order is the order of this
/// key; the two zeros share the key 0.
pub open spec fn order_key(b: u64) -> int {
    if b >= SIGN_BIT {
        -magnitude(b)
    } else {
        magnitude(b)
    }
}

/// IEEE-754 equality: NaN equals nothing, and `-0 == +0`.
pub open spec fn num_eq(a: u64, b: u64) -> bool {
    !is_nan(a) && !is_nan(b) && order_key(a) == order_key(b)
}

pub open spec fn num_lt(a: u64, b: u64) -> bool {
    !is_nan(a) && !is_nan(b) && order_key(a) < order_key(b)
}

pub open spec fn num_gt(a: u64, b: u64) -> bool {
    num_lt(b, a)
}

/// `x > 0`.
pub open spec fn num_positive(b: u64) -> bool {
    !is_nan(b) && order_key(b) > 0
}

/// Negation flips the sign bit, NaN included.
pub open spec fn negated(b: u64) -> u64 {
    if b >= SIGN_BIT {
        (b - SIGN_BIT) as u64
    } else {
        (b + SIGN_BIT) as u64
    }
}

/// The correctly rounded sum (round to nearest, ties to even).
pub uninterp spec fn float_sum(a: u64, b: u64) -> u64;

/// The correctly rounded difference `a - b`.
pub uninterp spec fn float_difference(a: u64, b: u64) -> u64;

/// The correctly rounded product.
pub uninterp spec fn float_product(a: u64, b: u64) -> u64;

/// The correctly rounded quotient `a / b`; a zero divisor gives an infinity or NaN.
pub uninterp spec fn float_quotient(a: u64, b: u64) -> u64;

/// The value nearest to the integer `n`.
pub uninterp spec fn float_of_integer(n: u64) -> u64;

/// The decimal text of a number, with at most `digits` significant digits and
/// at most `max_zeros` zeros written out before scientific notation is used.
pub uninterp spec fn decimal_text(b: u64, max_zeros: usize, digits: usize) -> Seq<char>;

/// The value that a decimal literal denotes, rounded to nearest; `None` where
/// the text is no decimal number.
pub uninterp spec fn decimal_value(s: Seq<char>) -> Option<u64>;

/// Relies on `Double + Double` of rustc_apfloat, rounding to nearest.
#[verifier::external_body]
fn add_bits(a: u64, b: u64) -> (r: u64)
    ensures
        r == float_sum(a, b),
{
    (Double::from_bits(a as u128) + Double::from_bits(b as u128)).value.to_bits() as u64
}

/// Relies on `Double - Double` of rustc_apfloat, rounding to nearest.
#[verifier::external_body]
fn sub_bits(a: u64, b: u64) -> (r: u64)
    ensures
        r == float_difference(a, b),
{
    (Double::from_bits(a as u128) - Double::from_bits(b as u128)).value.to_bits() as u64
}

/// Relies on `Double * Double` of rustc_apfloat, rounding to nearest.
#[verifier::external_body]
fn mul_bits(a: u64, b: u64) -> (r: u64)
    ensures
        r == float_product(a, b),
{
    (Double::from_bits(a as u128) * Double::from_bits(b as u128)).value.to_bits() as u64
}

/// Relies on `Double / Double` of rustc_apfloat, rounding to nearest.
#[verifier::external_body]
fn div_bits(a: u64, b: u64) -> (r: u64)
    ensures
        r == float_quotient(a, b),
{
    (Double::from_bits(a as u128) / Double::from_bits(b as u128)).value.to_bits() as u64
}

/// Relies on `Float::from_u128` of rustc_apfloat, rounding to nearest.
#[verifier::external_body]
fn integer_bits(n: u64) -> (r: u64)
    ensures
        r == float_of_integer(n),
{
    Double::from_u128(n as u128).value.to_bits() as u64
}

/// Relies on the `Display` impl of rustc_apfloat's `IeeeFloat`, which reads
/// the width as the most zeros to pad with and the precision as the most
/// significant digits.
#[verifier::external_body]
fn render_bits(b: u64, max_zeros: usize, digits: usize) -> (r: String)
    ensures
        r@ == decimal_text(b, max_zeros, digits),
{
    format!("{:w$.p$}", Double::from_bits(b as u128), w = max_zeros, p = digits)
}

/// Relies on the `FromStr` impl of rustc_apfloat's `IeeeFloat`, rounding to nearest.
#[verifier::external_body]
fn parse_bits(s: &str) -> (r: Option<u64>)
    ensures
        r == decimal_value(s@),
{
    match s.parse::<Double>() {
        Ok(d) => Some(d.to_bits() as u64),
        Err(_) => None,
    }
}

impl Number {
    pub fn from_bits(bits: u64) -> (r: Number)
        ensures
            r.bits == bits,
    {
        Number { bits }
    }

    /// The number nearest to the integer `n`.
    pub fn from_integer(n: u64) -> (r: Number)
        ensures
            r.bits == float_of_integer(n),
    {
        Number { bits: integer_bits(n) }
    }

    /// The number that a decimal literal such as `12` or `3.25` denotes.
    pub fn parse(s: &str) -> (r: Option<Number>)
        ensures
            r matches Some(n) ==> decimal_value(s@) == Some(n.bits),
            r is None <==> decimal_value(s@) is None,
    {
        match parse_bits(s) {
            Some(bits) => Some(Number { bits }),
            None => None,
        }
    }

    pub fn is_nan(&self) -> (r: bool)
        ensures
            r == is_nan(self.bits),
    {
        let m = if self.bits >= SIGN_BIT { self.bits - SIGN_BIT } else { self.bits };
        m > INFINITY_BITS
    }

    fn key(&self) -> (r: i128)
        ensures
            r == order_key(self.bits),
    {
        if self.bits >= SIGN_BIT {
            -((self.bits - SIGN_BIT) as i128)
        } else {
            self.bits as i128
        }
    }

    pub fn neg(&self) -> (r: Number)
        ensures
            r.bits == negated(self.bits),
    {
        if self.bits >= SIGN_BIT {
            Number { bits: self.bits - SIGN_BIT }
        } else {
            Number { bits: self.bits + SIGN_BIT }
        }
    }

    pub fn add(&self, o: &Number) -> (r: Number)
        ensures
            r.bits == float_sum(self.bits, o.bits),
    {
        Number { bits: add_bits(self.bits, o.bits) }
    }

    pub fn sub(&self, o: &Number) -> (r: Number)
        ensures
            r.bits == float_difference(self.bits, o.bits),
    {
        Number { bits: sub_bits(self.bits, o.bits) }
    }

    pub fn mul(&self, o: &Number) -> (r: Number)
        ensures
            r.bits == float_product(self.bits, o.bits),
    {
        Number { bits: mul_bits(self.bits, o.bits) }
    }

    pub fn div(&self, o: &Number) -> (r: Number)
        ensures
            r.bits == float_quotient(self.bits, o.bits),
    {
        Number { bits: div_bits(self.bits, o.bits) }
    }

    /// IEEE-754 `==`.
    pub fn num_eq(&self, o: &Number) -> (r: bool)
        ensures
            r == num_eq(self.bits, o.bits),
    {
        !self.is_nan() && !o.is_nan() && self.key() == o.key()
    }

    /// IEEE-754 `<`.
    pub fn num_lt(&self, o: &Number) -> (r: bool)
        ensures
            r == num_lt(self.bits, o.bits),
    {
        !self.is_nan() && !o.is_nan() && self.key() < o.key()
    }

    /// `self > 0`.
    pub fn is_positive(&self) -> (r: bool)
        ensures
            r == num_positive(self.bits),
    {
        !self.is_nan() && self.key() > 0
    }

    pub fn render(&self) -> (r: String)
        ensures
            r@ == decimal_text(self.bits, RENDER_MAX_ZEROS, RENDER_DIGITS),
    {
        render_bits(self.bits, RENDER_MAX_ZEROS, RENDER_DIGITS)
    }
}

} // verus!
