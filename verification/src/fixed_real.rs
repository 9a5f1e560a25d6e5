//! Signed fixed-point reals with 117 fractional bits.
//!
//! A [`FixedReal`] holds the 128-bit pattern of a `fixed::FixedI128<U117>`.
//! Its view is that pattern as a mathematical integer, so the real number it
//! stands for is `view / 2^117` and the representable range is `[-1024, 1024)`.
//! No operation wraps: each one that can leave the range returns `None` when
//! it would.

use fixed::types::extra::U117;
use fixed::FixedI128;
use vstd::prelude::*;

verus! {

/// Bit pattern of the value one: `2^117`.
pub const ONE_BITS: i128 = 0x0020_0000_0000_0000_0000_0000_0000_0000;

/// Bit pattern of the value one half: `2^116`.
pub const HALF_BITS: i128 = 0x0010_0000_0000_0000_0000_0000_0000_0000;

/// Whether `v` is the bit pattern of some representable value.
pub open spec fn representable(v: int) -> bool {
    i128::MIN <= v <= i128::MAX
}

/// Bit pattern of the fixed-point product of the patterns `a` and `b`: the
/// exact product of the two reals, rounded towards minus infinity.
pub open spec fn product_bits(a: int, b: int) -> int {
    (a * b) / (ONE_BITS as int)
}

/// The values span `[-1024, 1024)` in steps finer than `10^-35`: the value
/// `10^-18` is still more than `10^17` steps away from zero.
pub proof fn lemma_range_and_resolution()
    ensures
        ONE_BITS > 100_000_000_000_000_000 * 1_000_000_000_000_000_000,
        ONE_BITS == 2 * HALF_BITS,
        1024 * ONE_BITS == i128::MAX + 1,
{
}

/// Calls `FixedI128::<U117>::checked_add`, which adds the two bit patterns
/// with `i128::checked_add`: the sum, or `None` when it leaves the range.
#[verifier::external_body]
fn fixed_checked_add(a: i128, b: i128) -> (r: Option<i128>)
    ensures
        r == (if representable(a + b) {
            Some((a + b) as i128)
        } else {
            None
        }),
{
    match FixedI128::<U117>::from_bits(a).checked_add(FixedI128::<U117>::from_bits(b)) {
        Some(sum) => Some(sum.to_bits()),
        None => None,
    }
}

/// Calls `FixedI128::<U117>::checked_sub`, which subtracts the bit patterns
/// with `i128::checked_sub`: the difference, or `None` when it leaves the
/// range.
#[verifier::external_body]
fn fixed_checked_sub(a: i128, b: i128) -> (r: Option<i128>)
    ensures
        r == (if representable(a - b) {
            Some((a - b) as i128)
        } else {
            None
        }),
{
    match FixedI128::<U117>::from_bits(a).checked_sub(FixedI128::<U117>::from_bits(b)) {
        Some(difference) => Some(difference.to_bits()),
        None => None,
    }
}

/// Calls `FixedI128::<U117>::checked_mul`. It forms the exact 256-bit product
/// of the two bit patterns, shifts it right by 117 bits with sign extension
/// (a division by `2^117` rounded towards minus infinity), and returns `None`
/// when the shifted product does not fit in 128 bits.
#[verifier::external_body]
fn fixed_checked_mul(a: i128, b: i128) -> (r: Option<i128>)
    ensures
        r == (if representable(product_bits(a as int, b as int)) {
            Some(product_bits(a as int, b as int) as i128)
        } else {
            None
        }),
{
    match FixedI128::<U117>::from_bits(a).checked_mul(FixedI128::<U117>::from_bits(b)) {
        Some(product) => Some(product.to_bits()),
        None => None,
    }
}

/// Calls `FixedI128::<U117>::checked_mul_int`, which multiplies the bit
/// pattern by the integer with `i128::checked_mul`: the product, or `None`
/// when it leaves the range.
#[verifier::external_body]
fn fixed_checked_mul_int(a: i128, k: i128) -> (r: Option<i128>)
    ensures
        r == (if representable(a * k) {
            Some((a * k) as i128)
        } else {
            None
        }),
{
    match FixedI128::<U117>::from_bits(a).checked_mul_int(k) {
        Some(product) => Some(product.to_bits()),
        None => None,
    }
}

/// Calls `FixedI128::<U117>::checked_abs`, which applies `i128::checked_abs`
/// to the bit pattern: the magnitude, or `None` for the minimum value, whose
/// magnitude is not representable.
#[verifier::external_body]
fn fixed_checked_abs(a: i128) -> (r: Option<i128>)
    ensures
        r == (if a == i128::MIN {
            None
        } else if a < 0 {
            Some((-a) as i128)
        } else {
            Some(a)
        }),
{
    match FixedI128::<U117>::from_bits(a).checked_abs() {
        Some(magnitude) => Some(magnitude.to_bits()),
        None => None,
    }
}

/// Calls `FixedI128::<U117>::checked_from_num` on an integer, which gives the
/// value equal to that integer if it lies in `[-1024, 1024)`, and `None`
/// otherwise.
#[verifier::external_body]
fn fixed_checked_from_int(n: i32) -> (r: Option<i128>)
    ensures
        r == (if -1024 <= n < 1024 {
            Some((n * ONE_BITS) as i128)
        } else {
            None
        }),
{
    match FixedI128::<U117>::checked_from_num(n) {
        Some(value) => Some(value.to_bits()),
        None => None,
    }
}

/// A real number in `[-1024, 1024)` with a resolution of `2^-117`. Every bit
/// pattern is a value, and two values are equal exactly when their patterns
/// are.
#[derive(Clone, Copy, Debug, PartialEq, Eq, Structural)]
pub struct FixedReal {
    /// The value multiplied by `2^117`.
    pub bits: i128,
}

impl View for FixedReal {
    type V = int;

    /// The bit pattern: the value multiplied by `2^117`.
    open spec fn view(&self) -> int {
        self.bits as int
    }
}

impl FixedReal {
    /// The value whose bit pattern is `bits`.
    pub fn from_bits(bits: i128) -> (r: Self)
        ensures
            r@ == bits,
    {
        FixedReal { bits }
    }

    /// The bit pattern of this value.
    pub fn to_bits(self) -> (bits: i128)
        ensures
            bits == self@,
    {
        self.bits
    }

    /// The value equal to the integer `n`, or `None` when `n` lies outside
    /// `[-1024, 1024)`.
    pub fn from_int(n: i32) -> (r: Option<FixedReal>)
        ensures
            match r {
                Some(value) => value@ == n * ONE_BITS,
                None => !representable(n * ONE_BITS),
            },
    {
        match fixed_checked_from_int(n) {
            Some(bits) => Some(FixedReal { bits }),
            None => None,
        }
    }

    /// The value `k / 2`, or `None` when it lies outside `[-1024, 1024)`.
    pub fn from_halves(k: i64) -> (r: Option<FixedReal>)
        ensures
            match r {
                Some(value) => value@ == k * HALF_BITS,
                None => !representable(k * HALF_BITS),
            },
    {
        if -2048 <= k && k < 2048 {
            let wide: i128 = k as i128;
            Some(FixedReal { bits: wide * HALF_BITS })
        } else {
            None
        }
    }

    /// Sum of two values, or `None` when the sum is not representable.
    pub fn checked_add(self, rhs: FixedReal) -> (r: Option<FixedReal>)
        ensures
            match r {
                Some(sum) => sum@ == self@ + rhs@,
                None => !representable(self@ + rhs@),
            },
    {
        match fixed_checked_add(self.bits, rhs.bits) {
            Some(bits) => Some(FixedReal { bits }),
            None => None,
        }
    }

    /// Difference of two values, or `None` when it is not representable.
    pub fn checked_sub(self, rhs: FixedReal) -> (r: Option<FixedReal>)
        ensures
            match r {
                Some(difference) => difference@ == self@ - rhs@,
                None => !representable(self@ - rhs@),
            },
    {
        match fixed_checked_sub(self.bits, rhs.bits) {
            Some(bits) => Some(FixedReal { bits }),
            None => None,
        }
    }

    /// Product of two values rounded towards minus infinity, or `None` when
    /// the rounded product is not representable.
    pub fn checked_mul(self, rhs: FixedReal) -> (r: Option<FixedReal>)
        ensures
            match r {
                Some(product) => product@ == product_bits(self@, rhs@),
                None => !representable(product_bits(self@, rhs@)),
            },
    {
        match fixed_checked_mul(self.bits, rhs.bits) {
            Some(bits) => Some(FixedReal { bits }),
            None => None,
        }
    }

    /// Product of the value and the integer `k`, or `None` when it is not
    /// representable.
    pub fn checked_mul_int(self, k: i128) -> (r: Option<FixedReal>)
        ensures
            match r {
                Some(product) => product@ == self@ * k,
                None => !representable(self@ * k),
            },
    {
        match fixed_checked_mul_int(self.bits, k) {
            Some(bits) => Some(FixedReal { bits }),
            None => None,
        }
    }

    /// Magnitude of the value, or `None` for `-1024`, whose magnitude is not
    /// representable.
    pub fn checked_abs(self) -> (r: Option<FixedReal>)
        ensures
            match r {
                Some(magnitude) => magnitude@ == (if self@ < 0 {
                    -self@
                } else {
                    self@
                }),
                None => self@ == i128::MIN,
            },
    {
        match fixed_checked_abs(self.bits) {
            Some(bits) => Some(FixedReal { bits }),
            None => None,
        }
    }

    /// Whether this value is below `rhs`.
    pub fn lt(self, rhs: FixedReal) -> (r: bool)
        ensures
            r == (self@ < rhs@),
    {
        self.bits < rhs.bits
    }

    /// Whether this value is at most `rhs`.
    pub fn le(self, rhs: FixedReal) -> (r: bool)
        ensures
            r == (self@ <= rhs@),
    {
        self.bits <= rhs.bits
    }

    /// Whether this value is above `rhs`.
    pub fn gt(self, rhs: FixedReal) -> (r: bool)
        ensures
            r == (self@ > rhs@),
    {
        self.bits > rhs.bits
    }

    /// Whether this value is at least `rhs`.
    pub fn ge(self, rhs: FixedReal) -> (r: bool)
        ensures
            r == (self@ >= rhs@),
    {
        self.bits >= rhs.bits
    }
}

} // verus!
