//! Arbitrary precision integers, computed by `num_bigint`.
//!
//! A `TubularBigInt` keeps its value as the two's-complement little-endian
//! bytes that `num_bigint` reads and writes; every arithmetic step hands those
//! bytes to `num_bigint` and takes the bytes of the result back.
use vstd::prelude::*;
use vstd::arithmetic::power::pow;
use num_bigint::BigInt;
use num_traits::{Signed, ToPrimitive, Zero};
use crate::text::dec_int;

verus! {

/// Unsigned value of little-endian base-256 digits.
pub open spec fn le_unsigned(b: Seq<u8>) -> nat
    decreases b.len(),
{
    if b.len() == 0 {
        0
    } else {
        b[0] as nat + 256 * le_unsigned(b.drop_first())
    }
}

/// Value of little-endian two's-complement bytes; the empty sequence is zero.
pub open spec fn twos_complement_value(b: Seq<u8>) -> int {
    if b.len() == 0 {
        0
    } else if b.last() >= 128 {
        le_unsigned(b) - pow(256, b.len())
    } else {
        le_unsigned(b) as int
    }
}

/// Absolute value of an integer.
pub open spec fn abs_value(v: int) -> int {
    if v < 0 { -v } else { v }
}

/// Quotient of `a / b` rounded toward zero (Rust's integer division).
pub open spec fn trunc_div(a: int, b: int) -> int {
    let q = abs_value(a) / abs_value(b);
    if (a < 0) == (b < 0) { q } else { -q }
}

/// Remainder that goes with `trunc_div`: it has the sign of `a`.
pub open spec fn trunc_rem(a: int, b: int) -> int {
    a - b * trunc_div(a, b)
}

/// Whether `u` is a Unicode scalar value (a valid `char`).
pub open spec fn is_scalar_value(u: u32) -> bool {
    u <= 0xD7FF || (0xE000 <= u && u <= 0x10FFFF)
}

/// An arbitrary precision integer.
#[derive(Debug)]
pub struct TubularBigInt {
    bytes: Vec<u8>,
}

impl View for TubularBigInt {
    type V = int;

    closed spec fn view(&self) -> int {
        twos_complement_value(self.bytes@)
    }
}

/// `BigInt::from(i64)` followed by `BigInt::to_signed_bytes_le`: the integer `v`.
#[verifier::external_body]
fn big_from_i64(v: i64) -> (r: TubularBigInt)
    ensures
        r@ == v as int,
{
    TubularBigInt { bytes: BigInt::from(v).to_signed_bytes_le() }
}

/// `BigInt + BigInt` (exact sum), operands read with `BigInt::from_signed_bytes_le`.
#[verifier::external_body]
fn big_add(a: &TubularBigInt, b: &TubularBigInt) -> (r: TubularBigInt)
    ensures
        r@ == a@ + b@,
{
    let x = BigInt::from_signed_bytes_le(&a.bytes) + BigInt::from_signed_bytes_le(&b.bytes);
    TubularBigInt { bytes: x.to_signed_bytes_le() }
}

/// `BigInt - BigInt` (exact difference).
#[verifier::external_body]
fn big_sub(a: &TubularBigInt, b: &TubularBigInt) -> (r: TubularBigInt)
    ensures
        r@ == a@ - b@,
{
    let x = BigInt::from_signed_bytes_le(&a.bytes) - BigInt::from_signed_bytes_le(&b.bytes);
    TubularBigInt { bytes: x.to_signed_bytes_le() }
}

/// `BigInt * BigInt` (exact product).
#[verifier::external_body]
fn big_mul(a: &TubularBigInt, b: &TubularBigInt) -> (r: TubularBigInt)
    ensures
        r@ == a@ * b@,
{
    let x = BigInt::from_signed_bytes_le(&a.bytes) * BigInt::from_signed_bytes_le(&b.bytes);
    TubularBigInt { bytes: x.to_signed_bytes_le() }
}

/// `BigInt / BigInt`: the quotient rounded toward zero; it panics on a zero divisor.
#[verifier::external_body]
fn big_div(a: &TubularBigInt, b: &TubularBigInt) -> (r: TubularBigInt)
    requires
        b@ != 0,
    ensures
        r@ == trunc_div(a@, b@),
{
    let x = BigInt::from_signed_bytes_le(&a.bytes) / BigInt::from_signed_bytes_le(&b.bytes);
    TubularBigInt { bytes: x.to_signed_bytes_le() }
}

/// `BigInt % BigInt`: the remainder with the sign of the dividend; it panics on a zero divisor.
#[verifier::external_body]
fn big_rem(a: &TubularBigInt, b: &TubularBigInt) -> (r: TubularBigInt)
    requires
        b@ != 0,
    ensures
        r@ == trunc_rem(a@, b@),
{
    let x = BigInt::from_signed_bytes_le(&a.bytes) % BigInt::from_signed_bytes_le(&b.bytes);
    TubularBigInt { bytes: x.to_signed_bytes_le() }
}

/// `BigInt == BigInt`: whether the two values are equal.
#[verifier::external_body]
fn big_eq(a: &TubularBigInt, b: &TubularBigInt) -> (r: bool)
    ensures
        r == (a@ == b@),
{
    BigInt::from_signed_bytes_le(&a.bytes) == BigInt::from_signed_bytes_le(&b.bytes)
}

/// `BigInt < BigInt`: whether the first value is smaller.
#[verifier::external_body]
fn big_lt(a: &TubularBigInt, b: &TubularBigInt) -> (r: bool)
    ensures
        r == (a@ < b@),
{
    BigInt::from_signed_bytes_le(&a.bytes) < BigInt::from_signed_bytes_le(&b.bytes)
}

/// `Zero::is_zero` on a `BigInt`.
#[verifier::external_body]
fn big_is_zero(a: &TubularBigInt) -> (r: bool)
    ensures
        r == (a@ == 0),
{
    BigInt::from_signed_bytes_le(&a.bytes).is_zero()
}

/// `Signed::abs` on a `BigInt`.
#[verifier::external_body]
fn big_abs(a: &TubularBigInt) -> (r: TubularBigInt)
    ensures
        r@ == abs_value(a@),
{
    TubularBigInt { bytes: BigInt::from_signed_bytes_le(&a.bytes).abs().to_signed_bytes_le() }
}

/// `ToPrimitive::to_i64` on a `BigInt`: the value when it fits in an `i64`.
#[verifier::external_body]
fn big_to_i64(a: &TubularBigInt) -> (r: Option<i64>)
    ensures
        r == (if i64::MIN <= a@ <= i64::MAX { Some(a@ as i64) } else { None::<i64> }),
{
    BigInt::from_signed_bytes_le(&a.bytes).to_i64()
}

/// `ToPrimitive::to_usize` on a `BigInt`: the value when it fits in a `usize`.
#[verifier::external_body]
fn big_to_usize(a: &TubularBigInt) -> (r: Option<usize>)
    ensures
        r == (if 0 <= a@ <= usize::MAX { Some(a@ as usize) } else { None::<usize> }),
{
    BigInt::from_signed_bytes_le(&a.bytes).to_usize()
}

/// `BigInt`'s `Display` (through `ToString::to_string`): the decimal digits, with `-` when negative.
#[verifier::external_body]
fn big_to_string(a: &TubularBigInt) -> (r: String)
    ensures
        r@ == dec_int(a@),
{
    BigInt::from_signed_bytes_le(&a.bytes).to_string()
}

/// `char::from_u32`: the character when `u` is a Unicode scalar value.
#[verifier::external_body]
fn char_from_u32(u: u32) -> (r: Option<char>)
    ensures
        r == (if is_scalar_value(u) { Some(u as char) } else { None::<char> }),
{
    char::from_u32(u)
}

impl Clone for TubularBigInt {
    fn clone(&self) -> (r: Self)
        ensures
            r@ == self@,
    {
        let bytes = self.bytes.clone();
        assert(bytes@ =~= self.bytes@);
        TubularBigInt { bytes }
    }
}

impl PartialEq for TubularBigInt {
    fn eq(&self, other: &Self) -> (r: bool) {
        big_eq(self, other)
    }
}

impl vstd::std_specs::cmp::PartialEqSpecImpl for TubularBigInt {
    open spec fn obeys_eq_spec() -> bool {
        true
    }

    open spec fn eq_spec(&self, other: &Self) -> bool {
        self@ == other@
    }
}

impl TubularBigInt {
    pub fn new(value: i64) -> (r: Self)
        ensures
            r@ == value as int,
    {
        big_from_i64(value)
    }

    pub fn zero() -> (r: Self)
        ensures
            r@ == 0,
    {
        big_from_i64(0)
    }

    pub fn one() -> (r: Self)
        ensures
            r@ == 1,
    {
        big_from_i64(1)
    }

    /// The two's-complement little-endian bytes of the value.
    pub fn to_signed_bytes_le(&self) -> (r: Vec<u8>)
        ensures
            twos_complement_value(r@) == self@,
    {
        let r = self.bytes.clone();
        assert(r@ =~= self.bytes@);
        r
    }

    /// The integer written by two's-complement little-endian bytes (empty means zero).
    pub fn from_signed_bytes_le(bytes: Vec<u8>) -> (r: Self)
        ensures
            r@ == twos_complement_value(bytes@),
    {
        TubularBigInt { bytes }
    }

    /// Adds one in place.
    pub fn increment(&mut self)
        ensures
            final(self)@ == old(self)@ + 1,
    {
        let one = TubularBigInt::one();
        *self = big_add(self, &one);
    }

    /// Subtracts one in place.
    pub fn decrement(&mut self)
        ensures
            final(self)@ == old(self)@ - 1,
    {
        let one = TubularBigInt::one();
        *self = big_sub(self, &one);
    }

    pub fn is_zero(&self) -> (r: bool)
        ensures
            r == (self@ == 0),
    {
        big_is_zero(self)
    }

    pub fn is_positive(&self) -> (r: bool)
        ensures
            r == (self@ > 0),
    {
        let zero = TubularBigInt::zero();
        big_lt(&zero, self)
    }

    pub fn is_negative(&self) -> (r: bool)
        ensures
            r == (self@ < 0),
    {
        let zero = TubularBigInt::zero();
        big_lt(self, &zero)
    }

    pub fn abs(&self) -> (r: Self)
        ensures
            r@ == abs_value(self@),
    {
        big_abs(self)
    }

    pub fn to_i64(&self) -> (r: Option<i64>)
        ensures
            r == (if i64::MIN <= self@ <= i64::MAX { Some(self@ as i64) } else { None::<i64> }),
    {
        big_to_i64(self)
    }

    pub fn to_usize(&self) -> (r: Option<usize>)
        ensures
            r == (if 0 <= self@ <= usize::MAX { Some(self@ as usize) } else { None::<usize> }),
    {
        big_to_usize(self)
    }

    /// The character whose code is the value's low 32 bits, when the value fits in an
    /// `i64` and those bits form a Unicode scalar value.
    pub fn to_char(&self) -> (r: Option<char>)
        ensures
            r == (if i64::MIN <= self@ <= i64::MAX && is_scalar_value((self@ as i64) as u32) {
                Some(((self@ as i64) as u32) as char)
            } else {
                None::<char>
            }),
    {
        match self.to_i64() {
            Some(n) => char_from_u32(n as u32),
            None => None,
        }
    }

    /// The code point of `c`.
    pub fn from_char(c: char) -> (r: Self)
        ensures
            r@ == c as int,
    {
        let code: u32 = c as u32;
        big_from_i64(code as i64)
    }

    /// `self / other` rounded toward zero, or zero when `other` is zero.
    pub fn safe_div(&self, other: &Self) -> (r: Self)
        ensures
            r@ == (if other@ == 0 { 0 } else { trunc_div(self@, other@) }),
    {
        if other.is_zero() {
            TubularBigInt::zero()
        } else {
            big_div(self, other)
        }
    }

    /// `self % other` with the sign of `self`, or zero when `other` is zero.
    pub fn safe_mod(&self, other: &Self) -> (r: Self)
        ensures
            r@ == (if other@ == 0 { 0 } else { trunc_rem(self@, other@) }),
    {
        if other.is_zero() {
            TubularBigInt::zero()
        } else {
            big_rem(self, other)
        }
    }

    /// The sum `self + other`.
    pub fn plus(&self, other: &Self) -> (r: Self)
        ensures
            r@ == self@ + other@,
    {
        big_add(self, other)
    }

    /// The difference `self - other`.
    pub fn minus(&self, other: &Self) -> (r: Self)
        ensures
            r@ == self@ - other@,
    {
        big_sub(self, other)
    }

    /// The product `self * other`.
    pub fn times(&self, other: &Self) -> (r: Self)
        ensures
            r@ == self@ * other@,
    {
        big_mul(self, other)
    }

    /// Whether `self < other`.
    pub fn less_than(&self, other: &Self) -> (r: bool)
        ensures
            r == (self@ < other@),
    {
        big_lt(self, other)
    }

    /// Whether `self > other`.
    pub fn greater_than(&self, other: &Self) -> (r: bool)
        ensures
            r == (self@ > other@),
    {
        big_lt(other, self)
    }

    /// The decimal rendering of the value, with `-` when negative.
    pub fn to_decimal_string(&self) -> (r: String)
        ensures
            r@ == dec_int(self@),
    {
        big_to_string(self)
    }
}

impl Default for TubularBigInt {
    fn default() -> (r: Self)
        ensures
            r@ == 0,
    {
        TubularBigInt::zero()
    }
}

} // verus!
