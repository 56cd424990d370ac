//! Fixed-point real numbers.
//!
//! A [`Scalar`] stands for the real number `raw / 2^32`. Every operation is
//! total: results that leave the representable range saturate at the two
//! ends, which double as positive and negative infinity, and every rounding
//! is toward zero.

use core::cmp::Ordering;
use vstd::prelude::*;
use vstd::std_specs::ops::{DivSpec, MulSpec, NegSpec, SubSpec};

verus! {

/// Number of fractional bits of a [`Scalar`].
pub const FRAC_BITS: u32 = 32;

/// Raw representation of the number one, `2^32`.
pub const ONE_RAW: i64 = 0x1_0000_0000;

/// A real number in signed 31.32 fixed-point representation.
#[derive(Clone, Copy, Debug, PartialEq, Eq, Structural)]
pub struct Scalar {
    /// The represented value multiplied by `2^32`.
    pub raw: i64,
}

/// The integer `v` forced into the range of a raw representation.
pub open spec fn saturate(v: int) -> int {
    if v < i64::MIN {
        i64::MIN as int
    } else if v > i64::MAX {
        i64::MAX as int
    } else {
        v
    }
}

/// Quotient of `n` by a positive `d`, rounded toward zero.
pub open spec fn trunc_div(n: int, d: int) -> int {
    if n >= 0 {
        n / d
    } else {
        -((-n) / d)
    }
}

/// Quotient of `n` by a nonzero `d` of either sign, rounded toward zero.
pub open spec fn trunc_quot(n: int, d: int) -> int {
    if d > 0 {
        trunc_div(n, d)
    } else {
        trunc_div(-n, -d)
    }
}

/// `r` is the integer square root of `n`, rounded down.
pub open spec fn is_floor_sqrt(n: int, r: int) -> bool {
    0 <= r && r * r <= n < (r + 1) * (r + 1)
}

/// The integer square root of a nonnegative `n`, rounded down.
pub open spec fn floor_sqrt(n: int) -> int {
    choose|r: int| is_floor_sqrt(n, r)
}

/// At most one integer is the rounded-down square root of `n`.
pub proof fn lemma_floor_sqrt_unique(n: int, r1: int, r2: int)
    requires
        is_floor_sqrt(n, r1),
        is_floor_sqrt(n, r2),
    ensures
        r1 == r2,
{
    if r1 < r2 {
        assert((r1 + 1) * (r1 + 1) <= r2 * r2) by (nonlinear_arith)
            requires
                0 <= r1 + 1 <= r2,
        ;
    } else if r2 < r1 {
        assert((r2 + 1) * (r2 + 1) <= r1 * r1) by (nonlinear_arith)
            requires
                0 <= r2 + 1 <= r1,
        ;
    }
}

/// Every nonnegative integer has a rounded-down square root, and
/// [`floor_sqrt`] is it.
pub proof fn lemma_floor_sqrt_exists(n: int)
    requires
        0 <= n,
    ensures
        is_floor_sqrt(n, floor_sqrt(n)),
    decreases n,
{
    if n == 0 {
        assert(is_floor_sqrt(0, 0));
    } else {
        lemma_floor_sqrt_exists(n - 1);
        let r = floor_sqrt(n - 1);
        if n < (r + 1) * (r + 1) {
            assert(is_floor_sqrt(n, r));
        } else {
            assert((r + 2) * (r + 2) > (r + 1) * (r + 1)) by (nonlinear_arith)
                requires
                    0 <= r,
            ;
            assert(is_floor_sqrt(n, r + 1));
        }
    }
}

/// A witness fixes the value of [`floor_sqrt`].
pub proof fn lemma_floor_sqrt_is(n: int, r: int)
    requires
        is_floor_sqrt(n, r),
    ensures
        floor_sqrt(n) == r,
{
    lemma_floor_sqrt_unique(n, floor_sqrt(n), r);
}

/// [`saturate`] keeps the order of its arguments.
pub proof fn lemma_saturate_monotone(a: int, b: int)
    requires
        a <= b,
    ensures
        saturate(a) <= saturate(b),
{
}

/// [`trunc_div`] keeps the order of its numerators.
pub proof fn lemma_trunc_div_monotone(a: int, b: int, d: int)
    requires
        a <= b,
        0 < d,
    ensures
        trunc_div(a, d) <= trunc_div(b, d),
{
    if a >= 0 {
        vstd::arithmetic::div_mod::lemma_div_is_ordered(a, b, d);
    } else if b < 0 {
        vstd::arithmetic::div_mod::lemma_div_is_ordered(-b, -a, d);
    } else {
        vstd::arithmetic::div_mod::lemma_div_pos_is_pos(-a, d);
        vstd::arithmetic::div_mod::lemma_div_pos_is_pos(b, d);
    }
}

impl View for Scalar {
    type V = int;

    /// The raw representation as a mathematical integer.
    open spec fn view(&self) -> int {
        self.raw as int
    }
}

impl Scalar {
    /// The scalar with raw representation `saturate(v)`.
    pub open spec fn of_int(v: int) -> Scalar {
        Scalar { raw: saturate(v) as i64 }
    }

    /// Zero.
    pub open spec fn zero_spec() -> Scalar {
        Scalar { raw: 0 }
    }

    /// One.
    pub open spec fn one_spec() -> Scalar {
        Scalar { raw: ONE_RAW }
    }

    /// The largest scalar, which stands for positive infinity.
    pub open spec fn infinity_spec() -> Scalar {
        Scalar { raw: i64::MAX }
    }

    /// The smallest scalar, which stands for negative infinity.
    pub open spec fn neg_infinity_spec() -> Scalar {
        Scalar { raw: i64::MIN }
    }

    /// The square root, rounded down to the next representable number;
    /// zero for a negative argument.
    pub open spec fn sqrt_spec(self) -> Scalar {
        if self.raw <= 0 {
            Scalar { raw: 0 }
        } else {
            Scalar { raw: floor_sqrt(self.raw * ONE_RAW) as i64 }
        }
    }

    /// The absolute value.
    pub open spec fn abs_spec(self) -> Scalar {
        if self.raw >= 0 {
            self
        } else {
            Scalar::of_int(-self.raw)
        }
    }

    /// The smaller of two scalars.
    pub open spec fn min_spec(self, other: Scalar) -> Scalar {
        if self.raw <= other.raw {
            self
        } else {
            other
        }
    }

    /// The larger of two scalars.
    pub open spec fn max_spec(self, other: Scalar) -> Scalar {
        if self.raw >= other.raw {
            self
        } else {
            other
        }
    }

    /// The integer part, rounded toward zero.
    pub open spec fn trunc_spec(self) -> int {
        trunc_div(self.raw as int, ONE_RAW as int)
    }

    /// The scalar that stands for the integer `i`.
    pub open spec fn from_int_spec(i: i32) -> Scalar {
        Scalar { raw: (i * ONE_RAW) as i64 }
    }

    /// The scalar nearest to `num / den` toward zero.
    pub open spec fn ratio_spec(num: i64, den: i64) -> Scalar {
        quotient(num as int, den as int)
    }

    /// Builds a scalar from its raw representation.
    pub fn from_raw(raw: i64) -> (r: Scalar)
        ensures
            r.raw == raw,
    {
        Scalar { raw }
    }

    /// The raw representation.
    pub fn raw(&self) -> (r: i64)
        ensures
            r == self.raw,
    {
        self.raw
    }

    /// Zero.
    pub fn zero() -> (r: Scalar)
        ensures
            r == Scalar::zero_spec(),
    {
        Scalar { raw: 0 }
    }

    /// One.
    pub fn one() -> (r: Scalar)
        ensures
            r == Scalar::one_spec(),
    {
        Scalar { raw: ONE_RAW }
    }

    /// Positive infinity, the largest scalar.
    pub fn infinity() -> (r: Scalar)
        ensures
            r == Scalar::infinity_spec(),
    {
        Scalar { raw: i64::MAX }
    }

    /// Negative infinity, the smallest scalar.
    pub fn neg_infinity() -> (r: Scalar)
        ensures
            r == Scalar::neg_infinity_spec(),
    {
        Scalar { raw: i64::MIN }
    }

    /// The scalar that stands for the integer `i`, exactly.
    pub fn from_int(i: i32) -> (r: Scalar)
        ensures
            r == Scalar::from_int_spec(i),
            r@ == i * ONE_RAW,
    {
        let wide: i64 = i as i64;
        Scalar { raw: wide * ONE_RAW }
    }

    /// The scalar nearest to the fraction `num / den` toward zero; a zero
    /// denominator gives an infinity with the sign of `num`, or zero.
    pub fn ratio(num: i64, den: i64) -> (r: Scalar)
        ensures
            r == Scalar::ratio_spec(num, den),
    {
        divide_raw(num, den)
    }

    /// The integer part, rounded toward zero.
    pub fn trunc(self) -> (r: i64)
        ensures
            r == self.trunc_spec(),
            -0x8000_0000 <= r <= 0x7fff_ffff,
    {
        self.raw / ONE_RAW
    }

    /// The absolute value; that of negative infinity is positive infinity.
    pub fn abs(self) -> (r: Scalar)
        ensures
            r == self.abs_spec(),
            r@ >= 0,
    {
        if self.raw >= 0 {
            self
        } else if self.raw == i64::MIN {
            Scalar { raw: i64::MAX }
        } else {
            Scalar { raw: -self.raw }
        }
    }

    /// The smaller of two scalars.
    pub fn min(self, other: Scalar) -> (r: Scalar)
        ensures
            r == self.min_spec(other),
    {
        if self.raw <= other.raw {
            self
        } else {
            other
        }
    }

    /// The larger of two scalars.
    pub fn max(self, other: Scalar) -> (r: Scalar)
        ensures
            r == self.max_spec(other),
    {
        if self.raw >= other.raw {
            self
        } else {
            other
        }
    }

    /// The square root, rounded down to the next representable number.
    /// A negative argument has the square root zero.
    pub fn sqrt(self) -> (r: Scalar)
        ensures
            r == self.sqrt_spec(),
            r@ >= 0,
            self@ > 0 ==> is_floor_sqrt(self@ * ONE_RAW, r@),
    {
        if self.raw <= 0 {
            return Scalar { raw: 0 };
        }
        let n: u128 = (self.raw as u128) * (ONE_RAW as u128);
        let mut lo: u128 = 0;
        let mut hi: u128 = 0x1_0000_0000_0000;
        assert(n < hi * hi) by (nonlinear_arith)
            requires
                n == self.raw * 0x1_0000_0000,
                self.raw <= 0x7fff_ffff_ffff_ffff,
                hi == 0x1_0000_0000_0000,
        ;
        while hi - lo > 1
            invariant
                lo < hi <= 0x1_0000_0000_0000,
                lo * lo <= n < hi * hi,
            decreases hi - lo,
        {
            let mid: u128 = lo + (hi - lo) / 2;
            assert(mid * mid <= 0x1_0000_0000_0000 * 0x1_0000_0000_0000) by (nonlinear_arith)
                requires
                    mid <= 0x1_0000_0000_0000,
            ;
            if mid * mid <= n {
                lo = mid;
            } else {
                hi = mid;
            }
        }
        proof {
            assert(hi == lo + 1);
            assert(is_floor_sqrt(n as int, lo as int));
            lemma_floor_sqrt_is(n as int, lo as int);
        }
        Scalar { raw: lo as i64 }
    }
}

/// The quotient of two raw representations as a scalar: the number
/// `n / d`, rounded toward zero and saturated. A zero divisor gives the
/// infinity with the sign of `n`, and zero for `n == 0`.
pub open spec fn quotient(n: int, d: int) -> Scalar {
    if d == 0 {
        if n > 0 {
            Scalar::infinity_spec()
        } else if n < 0 {
            Scalar::neg_infinity_spec()
        } else {
            Scalar::zero_spec()
        }
    } else {
        Scalar::of_int(trunc_quot(n * ONE_RAW, d))
    }
}

/// Clamps a wide integer into a scalar.
fn saturate_raw(v: i128) -> (r: Scalar)
    ensures
        r == Scalar::of_int(v as int),
{
    if v > i64::MAX as i128 {
        Scalar { raw: i64::MAX }
    } else if v < i64::MIN as i128 {
        Scalar { raw: i64::MIN }
    } else {
        Scalar { raw: v as i64 }
    }
}

/// Divides two raw representations.
fn divide_raw(n: i64, d: i64) -> (r: Scalar)
    ensures
        r == quotient(n as int, d as int),
{
    if d == 0 {
        if n > 0 {
            Scalar { raw: i64::MAX }
        } else if n < 0 {
            Scalar { raw: i64::MIN }
        } else {
            Scalar { raw: 0 }
        }
    } else {
        assert(-0x8000_0000_0000_0000_0000_0000 <= n * ONE_RAW <= 0x8000_0000_0000_0000_0000_0000)
            by (nonlinear_arith)
            requires
                -0x8000_0000_0000_0000 <= n <= 0x7fff_ffff_ffff_ffff,
                ONE_RAW == 0x1_0000_0000,
        ;
        let wide: i128 = (n as i128) * (ONE_RAW as i128);
        let den: i128 = d as i128;
        let q: i128 = if den > 0 {
            wide / den
        } else {
            (-wide) / (-den)
        };
        saturate_raw(q)
    }
}

impl core::ops::Add for Scalar {
    type Output = Scalar;

    /// Saturating sum.
    fn add(self, rhs: Scalar) -> (r: Scalar)
        ensures
            r == Scalar::of_int(self.raw + rhs.raw),
    {
        saturate_raw(self.raw as i128 + rhs.raw as i128)
    }
}

impl vstd::std_specs::ops::AddSpecImpl for Scalar {
    open spec fn obeys_add_spec() -> bool {
        true
    }

    open spec fn add_req(self, rhs: Scalar) -> bool {
        true
    }

    open spec fn add_spec(self, rhs: Scalar) -> Scalar {
        Scalar::of_int(self.raw + rhs.raw)
    }
}

impl core::ops::Sub for Scalar {
    type Output = Scalar;

    /// Saturating difference.
    fn sub(self, rhs: Scalar) -> (r: Scalar)
        ensures
            r == Scalar::of_int(self.raw - rhs.raw),
    {
        saturate_raw(self.raw as i128 - rhs.raw as i128)
    }
}

impl vstd::std_specs::ops::SubSpecImpl for Scalar {
    open spec fn obeys_sub_spec() -> bool {
        true
    }

    open spec fn sub_req(self, rhs: Scalar) -> bool {
        true
    }

    open spec fn sub_spec(self, rhs: Scalar) -> Scalar {
        Scalar::of_int(self.raw - rhs.raw)
    }
}

impl core::ops::Neg for Scalar {
    type Output = Scalar;

    /// Saturating negation.
    fn neg(self) -> (r: Scalar)
        ensures
            r == Scalar::of_int(-self.raw),
    {
        saturate_raw(-(self.raw as i128))
    }
}

impl vstd::std_specs::ops::NegSpecImpl for Scalar {
    open spec fn obeys_neg_spec() -> bool {
        true
    }

    open spec fn neg_req(self) -> bool {
        true
    }

    open spec fn neg_spec(self) -> Scalar {
        Scalar::of_int(-self.raw)
    }
}

impl core::ops::Mul for Scalar {
    type Output = Scalar;

    /// Saturating product, rounded toward zero.
    fn mul(self, rhs: Scalar) -> (r: Scalar)
        ensures
            r == Scalar::of_int(trunc_div(self.raw * rhs.raw, ONE_RAW as int)),
    {
        assert(-0x4000_0000_0000_0000_0000_0000_0000_0000 <= self.raw * rhs.raw
            <= 0x4000_0000_0000_0000_0000_0000_0000_0000) by (nonlinear_arith)
            requires
                -0x8000_0000_0000_0000 <= self.raw <= 0x7fff_ffff_ffff_ffff,
                -0x8000_0000_0000_0000 <= rhs.raw <= 0x7fff_ffff_ffff_ffff,
        ;
        let wide: i128 = (self.raw as i128) * (rhs.raw as i128);
        saturate_raw(wide / (ONE_RAW as i128))
    }
}

impl vstd::std_specs::ops::MulSpecImpl for Scalar {
    open spec fn obeys_mul_spec() -> bool {
        true
    }

    open spec fn mul_req(self, rhs: Scalar) -> bool {
        true
    }

    open spec fn mul_spec(self, rhs: Scalar) -> Scalar {
        Scalar::of_int(trunc_div(self.raw * rhs.raw, ONE_RAW as int))
    }
}

impl core::ops::Div for Scalar {
    type Output = Scalar;

    /// Saturating quotient, rounded toward zero. Division by zero gives the
    /// infinity with the sign of the dividend, and zero for `0 / 0`.
    fn div(self, rhs: Scalar) -> (r: Scalar)
        ensures
            r == quotient(self.raw as int, rhs.raw as int),
    {
        divide_raw(self.raw, rhs.raw)
    }
}

impl vstd::std_specs::ops::DivSpecImpl for Scalar {
    open spec fn obeys_div_spec() -> bool {
        true
    }

    open spec fn div_req(self, rhs: Scalar) -> bool {
        true
    }

    open spec fn div_spec(self, rhs: Scalar) -> Scalar {
        quotient(self.raw as int, rhs.raw as int)
    }
}

impl PartialOrd for Scalar {
    /// Scalars are ordered as the numbers they stand for.
    fn partial_cmp(&self, other: &Scalar) -> (r: Option<Ordering>)
        ensures
            r == Some(Ordering::Less) <==> self.raw < other.raw,
            r == Some(Ordering::Greater) <==> self.raw > other.raw,
            r == Some(Ordering::Equal) <==> self.raw == other.raw,
    {
        if self.raw < other.raw {
            Some(Ordering::Less)
        } else if self.raw > other.raw {
            Some(Ordering::Greater)
        } else {
            Some(Ordering::Equal)
        }
    }
}

impl vstd::std_specs::cmp::PartialOrdSpecImpl for Scalar {
    open spec fn obeys_partial_cmp_spec() -> bool {
        true
    }

    open spec fn partial_cmp_spec(&self, other: &Scalar) -> Option<Ordering> {
        if self.raw < other.raw {
            Some(Ordering::Less)
        } else if self.raw > other.raw {
            Some(Ordering::Greater)
        } else {
            Some(Ordering::Equal)
        }
    }
}

/// The value of `1 - x2 / k * inner`, one step of a power series in Horner
/// form.
pub open spec fn series_step_spec(x2: Scalar, k: i32, inner: Scalar) -> Scalar {
    Scalar::one_spec().sub_spec(x2.div_spec(Scalar::from_int_spec(k)).mul_spec(inner))
}

/// One step of a power series in Horner form.
fn series_step(x2: Scalar, k: i32, inner: Scalar) -> (r: Scalar)
    ensures
        r == series_step_spec(x2, k, inner),
{
    Scalar::one() - x2 / Scalar::from_int(k) * inner
}

impl Scalar {
    /// The sine of an angle in radians, by the terms of its power series
    /// up to the power 13, as good as a scalar is fine for angles up to a
    /// right angle:
    /// `x (1 - x^2/6 (1 - x^2/20 (1 - x^2/42 (1 - x^2/72 (1 - x^2/110 (1 - x^2/156))))))`.
    pub open spec fn sin_spec(self) -> Scalar {
        let x2 = self.mul_spec(self);
        let t6 = series_step_spec(x2, 156, Scalar::one_spec());
        let t5 = series_step_spec(x2, 110, t6);
        let t4 = series_step_spec(x2, 72, t5);
        let t3 = series_step_spec(x2, 42, t4);
        let t2 = series_step_spec(x2, 20, t3);
        let t1 = series_step_spec(x2, 6, t2);
        self.mul_spec(t1)
    }

    /// The cosine of an angle in radians, by the terms of its power series
    /// up to the power 14:
    /// `1 - x^2/2 (1 - x^2/12 (1 - x^2/30 (1 - x^2/56 (1 - x^2/90 (1 - x^2/132 (1 - x^2/182))))))`.
    pub open spec fn cos_spec(self) -> Scalar {
        let x2 = self.mul_spec(self);
        let t7 = series_step_spec(x2, 182, Scalar::one_spec());
        let t6 = series_step_spec(x2, 132, t7);
        let t5 = series_step_spec(x2, 90, t6);
        let t4 = series_step_spec(x2, 56, t5);
        let t3 = series_step_spec(x2, 30, t4);
        let t2 = series_step_spec(x2, 12, t3);
        series_step_spec(x2, 2, t2)
    }

    /// The tangent of an angle in radians: the sine over the cosine.
    pub open spec fn tan_spec(self) -> Scalar {
        self.sin_spec().div_spec(self.cos_spec())
    }

    /// The sine of an angle in radians, for angles up to a right angle.
    pub fn sin(self) -> (r: Scalar)
        ensures
            r == self.sin_spec(),
    {
        let x2 = self * self;
        let t6 = series_step(x2, 156, Scalar::one());
        let t5 = series_step(x2, 110, t6);
        let t4 = series_step(x2, 72, t5);
        let t3 = series_step(x2, 42, t4);
        let t2 = series_step(x2, 20, t3);
        let t1 = series_step(x2, 6, t2);
        self * t1
    }

    /// The cosine of an angle in radians, for angles up to a right angle.
    pub fn cos(self) -> (r: Scalar)
        ensures
            r == self.cos_spec(),
    {
        let x2 = self * self;
        let t7 = series_step(x2, 182, Scalar::one());
        let t6 = series_step(x2, 132, t7);
        let t5 = series_step(x2, 90, t6);
        let t4 = series_step(x2, 56, t5);
        let t3 = series_step(x2, 30, t4);
        let t2 = series_step(x2, 12, t3);
        series_step(x2, 2, t2)
    }

    /// The tangent of an angle in radians, for angles below a right angle.
    pub fn tan(self) -> (r: Scalar)
        ensures
            r == self.tan_spec(),
    {
        self.sin() / self.cos()
    }

    /// The power with the exponent `n`: the product of `n` factors `self`,
    /// multiplied from the left, each product rounded and saturated.
    pub open spec fn powi_spec(self, n: nat) -> Scalar
        decreases n,
    {
        if n == 0 {
            Scalar::one_spec()
        } else {
            self.powi_spec((n - 1) as nat).mul_spec(self)
        }
    }

    /// The power with the exponent `n`.
    pub fn powi(self, n: u32) -> (r: Scalar)
        ensures
            r == self.powi_spec(n as nat),
    {
        let mut acc = Scalar::one();
        let mut i: u32 = 0;
        while i < n
            invariant
                i <= n,
                acc == self.powi_spec(i as nat),
            decreases n - i,
        {
            acc = acc * self;
            i = i + 1;
        }
        acc
    }
}

/// A square is not negative.
pub proof fn lemma_square_nonnegative(x: Scalar)
    ensures
        x.mul_spec(x)@ >= 0,
{
    assert(x@ * x@ >= 0) by (nonlinear_arith);
    vstd::arithmetic::div_mod::lemma_div_pos_is_pos(x@ * x@, ONE_RAW as int);
}

/// The square root of a scalar fits a scalar.
pub proof fn lemma_floor_sqrt_fits(x: Scalar)
    requires
        x@ > 0,
    ensures
        0 <= floor_sqrt(x@ * ONE_RAW) < 0x1_0000_0000_0000,
{
    let n = x@ * ONE_RAW;
    lemma_floor_sqrt_exists(n);
    let r = floor_sqrt(n);
    if r >= 0x1_0000_0000_0000 {
        assert(r * r >= 0x1_0000_0000_0000 * 0x1_0000_0000_0000) by (nonlinear_arith)
            requires
                r >= 0x1_0000_0000_0000,
        ;
    }
}

/// A square root is not negative.
pub proof fn lemma_sqrt_nonnegative(x: Scalar)
    ensures
        x.sqrt_spec()@ >= 0,
{
    if x@ > 0 {
        assert(x@ * ONE_RAW >= 0);
        lemma_floor_sqrt_exists(x@ * ONE_RAW);
        lemma_floor_sqrt_fits(x);
    }
}

/// To divide by a positive scalar keeps the order of the dividends.
pub proof fn lemma_quotient_monotone(low: int, high: int, d: int)
    requires
        low <= high,
        0 < d,
    ensures
        quotient(low, d)@ <= quotient(high, d)@,
{
    lemma_trunc_div_monotone(low * ONE_RAW, high * ONE_RAW, d);
    lemma_saturate_monotone(
        trunc_quot(low * ONE_RAW, d),
        trunc_quot(high * ONE_RAW, d),
    );
}

/// A product with the opposite of a factor is at most the opposite of the
/// product, and less only where a product saturates.
pub proof fn lemma_product_with_opposite(d: Scalar, o: Scalar)
    requires
        o@ > i64::MIN,
    ensures
        d.mul_spec(o.neg_spec())@ <= -d.mul_spec(o)@,
{
    assert(o.neg_spec()@ == -o@);
    assert(d@ * (-o@) == -(d@ * o@)) by (nonlinear_arith);
}

/// A quotient by a positive number has the sign of the dividend.
pub proof fn lemma_quotient_sign(n: int, d: int)
    requires
        0 < d,
    ensures
        n >= 0 ==> quotient(n, d)@ >= 0,
        n <= 0 ==> quotient(n, d)@ <= 0,
{
    if n >= 0 {
        vstd::arithmetic::div_mod::lemma_div_pos_is_pos(n * ONE_RAW, d);
    } else {
        vstd::arithmetic::div_mod::lemma_div_pos_is_pos(-(n * ONE_RAW), d);
    }
}

/// A product of two numbers of the same sign is not negative.
pub proof fn lemma_product_of_like_signs(a: Scalar, b: Scalar)
    requires
        (a@ >= 0 && b@ >= 0) || (a@ <= 0 && b@ <= 0),
    ensures
        a.mul_spec(b)@ >= 0,
{
    assert(a@ * b@ >= 0) by (nonlinear_arith)
        requires
            (a@ >= 0 && b@ >= 0) || (a@ <= 0 && b@ <= 0),
    ;
    vstd::arithmetic::div_mod::lemma_div_pos_is_pos(a@ * b@, ONE_RAW as int);
}

/// A product of two scalars of moderate size misses the product of the
/// numbers they stand for by less than one unit of the last place: it does
/// not saturate, and the rounding toward zero takes less than that away.
pub proof fn lemma_product_error(a: Scalar, b: Scalar)
    requires
        -0x100_0000_0000 <= a@ <= 0x100_0000_0000,
        -0x100_0000_0000 <= b@ <= 0x100_0000_0000,
    ensures
        -ONE_RAW < a@ * b@ - ONE_RAW * a.mul_spec(b)@ < ONE_RAW,
        a@ * b@ >= 0 ==> 0 <= a.mul_spec(b)@ && ONE_RAW * a.mul_spec(b)@ <= a@ * b@,
        a@ * b@ <= 0 ==> a.mul_spec(b)@ <= 0 && a@ * b@ <= ONE_RAW * a.mul_spec(b)@,
{
    let x = a@ * b@;
    assert(-0x1_0000_0000_0000_0000_0000 <= x <= 0x1_0000_0000_0000_0000_0000) by (nonlinear_arith)
        requires
            x == a@ * b@,
            -0x100_0000_0000 <= a@ <= 0x100_0000_0000,
            -0x100_0000_0000 <= b@ <= 0x100_0000_0000,
    ;
    if x >= 0 {
        vstd::arithmetic::div_mod::lemma_fundamental_div_mod(x, ONE_RAW as int);
        vstd::arithmetic::div_mod::lemma_mod_bound(x, ONE_RAW as int);
    } else {
        vstd::arithmetic::div_mod::lemma_fundamental_div_mod(-x, ONE_RAW as int);
        vstd::arithmetic::div_mod::lemma_mod_bound(-x, ONE_RAW as int);
    }
}

/// To multiply by one changes nothing.
pub proof fn lemma_times_one(x: Scalar)
    ensures
        x.mul_spec(Scalar::one_spec()) == x,
        Scalar::one_spec().mul_spec(x) == x,
{
    assert(ONE_RAW * x@ == x@ * ONE_RAW) by (nonlinear_arith);
    vstd::arithmetic::div_mod::lemma_div_multiples_vanish(x@, ONE_RAW as int);
    vstd::arithmetic::div_mod::lemma_div_multiples_vanish(-x@, ONE_RAW as int);
    assert((-x@) * ONE_RAW == -(x@ * ONE_RAW)) by (nonlinear_arith);
}

/// A number over itself is one, but for zero.
pub proof fn lemma_over_itself(x: Scalar)
    requires
        x@ != 0,
    ensures
        x.div_spec(x) == Scalar::one_spec(),
{
    assert(x@ * ONE_RAW == ONE_RAW * x@) by (nonlinear_arith);
    assert((-x@) * ONE_RAW == ONE_RAW * (-x@)) by (nonlinear_arith);
    if x@ > 0 {
        vstd::arithmetic::div_mod::lemma_div_multiples_vanish(ONE_RAW as int, x@);
    } else {
        vstd::arithmetic::div_mod::lemma_div_multiples_vanish(ONE_RAW as int, -x@);
    }
}

} // verus!
