//! Exact binary fixed-point arithmetic.
//!
//! Two widths share one `i128` mantissa representation:
//!
//! * [`Fixed`] carries 52 fractional bits (`value = m / 2^52`); it is the
//!   working type of the standard iteration path.
//! * [`HiFixed`] carries 96 fractional bits (`value = m / 2^96`); it holds
//!   viewport bounds, whose resolution decides the precision domain.
//!
//! Every operation is total over the mantissa ranges its `requires` admits,
//! and its result is pinned exactly: products are truncated toward zero by
//! [`tdiv`], as the executable code computes them.

use vstd::prelude::*;

verus! {

/// Mantissa scale of [`Fixed`]: `2^52`.
pub const FIXED_ONE_M: i128 = 4503599627370496;

/// Mantissa scale of [`HiFixed`]: `2^96`.
pub const HI_ONE_M: i128 = 79228162514264337593543950336;

/// `2^44`, the mantissa ratio between [`HiFixed`] and [`Fixed`].
pub const HI_TO_FIXED_M: i128 = 17592186044416;

/// Largest mantissa magnitude accepted by [`Fixed::mul`]: `2^63`.
pub const MUL_IN_MAX_M: i128 = 9223372036854775808;

/// Truncating division: the quotient of `a / b` rounded toward zero.
/// Meaningful for `b > 0`.
pub open spec fn tdiv(a: int, b: int) -> int {
    if a >= 0 {
        a / b
    } else {
        -((-a) / b)
    }
}

/// The mantissa of the product of two `Fixed` values: the exact product,
/// rescaled by `2^52` with truncation toward zero.
pub open spec fn mul_m(a: int, b: int) -> int {
    tdiv(a * b, FIXED_ONE_M as int)
}

/// A fixed-point number with 52 fractional bits: `value = m / 2^52`.
#[derive(Clone, Copy, Debug, PartialEq, Eq, Structural)]
pub struct Fixed {
    pub m: i128,
}

/// A fixed-point number with 96 fractional bits: `value = m / 2^96`.
#[derive(Clone, Copy, Debug, PartialEq, Eq, Structural)]
pub struct HiFixed {
    pub m: i128,
}

/// Truncating division on `i128`, matching [`tdiv`].
pub fn tdiv_i128(a: i128, b: i128) -> (r: i128)
    requires
        b > 0,
        a > i128::MIN,
    ensures
        r == tdiv(a as int, b as int),
{
    if a >= 0 {
        let q: u128 = (a as u128) / (b as u128);
        q as i128
    } else {
        let n: u128 = ((-a) as u128) / (b as u128);
        -(n as i128)
    }
}

impl Fixed {
    /// The value `v / 2^52`, from a raw mantissa.
    pub fn from_m(m: i128) -> (r: Fixed)
        ensures
            r.m == m,
    {
        Fixed { m }
    }

    /// The integer `v` as a `Fixed` value.
    pub fn from_int(v: i64) -> (r: Fixed)
        ensures
            r.m == v * FIXED_ONE_M,
    {
        proof {
            assert(-170141183460469231731687303715884105728 <= (v as int) * (FIXED_ONE_M as int)
                <= 170141183460469231731687303715884105727) by (nonlinear_arith)
                requires
                    -9223372036854775808 <= v as int <= 9223372036854775807,
                    FIXED_ONE_M == 4503599627370496,
            ;
        }
        Fixed { m: (v as i128) * FIXED_ONE_M }
    }

    /// Component-wise sum.
    pub fn add(self, other: Fixed) -> (r: Fixed)
        requires
            i128::MIN < self.m + other.m <= i128::MAX,
        ensures
            r.m == self.m + other.m,
    {
        Fixed { m: self.m + other.m }
    }

    /// Component-wise difference.
    pub fn sub(self, other: Fixed) -> (r: Fixed)
        requires
            i128::MIN < self.m - other.m <= i128::MAX,
        ensures
            r.m == self.m - other.m,
    {
        Fixed { m: self.m - other.m }
    }

    /// Fixed-point product, truncated toward zero.
    pub fn mul(self, other: Fixed) -> (r: Fixed)
        requires
            -MUL_IN_MAX_M <= self.m <= MUL_IN_MAX_M,
            -MUL_IN_MAX_M <= other.m <= MUL_IN_MAX_M,
        ensures
            r.m == mul_m(self.m as int, other.m as int),
    {
        proof {
            lemma_mul_bound(self.m as int, other.m as int, MUL_IN_MAX_M as int,
                MUL_IN_MAX_M as int);
        }
        let p: i128 = self.m * other.m;
        Fixed { m: tdiv_i128(p, FIXED_ONE_M) }
    }
}

impl HiFixed {
    /// The value `v / 2^96`, from a raw mantissa.
    pub fn from_m(m: i128) -> (r: HiFixed)
        ensures
            r.m == m,
    {
        HiFixed { m }
    }

    /// The exact rational `num / den` as a `HiFixed` value, truncated toward
    /// zero at the last fractional bit.
    pub fn from_ratio(num: i64, den: i64) -> (r: HiFixed)
        requires
            den > 0,
            -1073741824 <= num <= 1073741824,
        ensures
            r.m == tdiv(num * HI_ONE_M, den as int),
    {
        proof {
            assert(-170141183460469231731687303715884105728 < (num as int) * (HI_ONE_M as int)
                < 170141183460469231731687303715884105727) by (nonlinear_arith)
                requires
                    -1073741824 <= num as int <= 1073741824,
                    HI_ONE_M == 79228162514264337593543950336,
            ;
        }
        let p: i128 = (num as i128) * HI_ONE_M;
        HiFixed { m: tdiv_i128(p, den as i128) }
    }

    /// Narrowing to the 52-bit scale, truncated toward zero.
    pub fn to_fixed(self) -> (r: Fixed)
        requires
            self.m > i128::MIN,
        ensures
            r.m == tdiv(self.m as int, HI_TO_FIXED_M as int),
    {
        Fixed { m: tdiv_i128(self.m, HI_TO_FIXED_M) }
    }
}

/// The product of two values bounded by `ba` and `bb` is bounded by
/// `ba * bb`.
pub proof fn lemma_mul_bound(a: int, b: int, ba: int, bb: int)
    requires
        -ba <= a <= ba,
        -bb <= b <= bb,
    ensures
        -(ba * bb) <= a * b <= ba * bb,
{
    assert(-(ba * bb) <= a * b <= ba * bb) by (nonlinear_arith)
        requires
            -ba <= a <= ba,
            -bb <= b <= bb,
    ;
}

/// Truncating division shrinks magnitudes: `|tdiv(a, b)| <= |p| / b`
/// whenever `|a| <= p`.
pub proof fn lemma_tdiv_bound(a: int, b: int, p: int)
    requires
        b > 0,
        0 <= p,
        -p <= a <= p,
    ensures
        -(p / b) <= tdiv(a, b) <= p / b,
{
    if a >= 0 {
        vstd::arithmetic::div_mod::lemma_div_is_ordered(a, p, b);
        vstd::arithmetic::div_mod::lemma_div_pos_is_pos(a, b);
    } else {
        vstd::arithmetic::div_mod::lemma_div_is_ordered(-a, p, b);
        vstd::arithmetic::div_mod::lemma_div_pos_is_pos(-a, b);
    }
}

/// Truncating division is odd in its dividend: `tdiv(-a, b) == -tdiv(a, b)`.
pub proof fn lemma_tdiv_neg(a: int, b: int)
    requires
        b > 0,
    ensures
        tdiv(-a, b) == -tdiv(a, b),
{
}

/// The fixed-point product of mantissas bounded by `ba` and `bb` is bounded
/// by `tdiv(ba * bb, 2^52)`.
pub proof fn lemma_mul_m_bound(a: int, b: int, ba: int, bb: int)
    requires
        -ba <= a <= ba,
        -bb <= b <= bb,
        0 <= ba,
        0 <= bb,
    ensures
        -tdiv(ba * bb, FIXED_ONE_M as int) <= mul_m(a, b) <= tdiv(ba * bb, FIXED_ONE_M as int),
{
    lemma_mul_bound(a, b, ba, bb);
    assert(ba * bb >= 0) by (nonlinear_arith)
        requires
            0 <= ba,
            0 <= bb,
    ;
    lemma_tdiv_bound(a * b, FIXED_ONE_M as int, ba * bb);
    assert(tdiv(ba * bb, FIXED_ONE_M as int) == (ba * bb) / (FIXED_ONE_M as int));
}

/// A square has a non-negative fixed-point mantissa.
pub proof fn lemma_mul_m_square_nonneg(x: int)
    ensures
        mul_m(x, x) >= 0,
{
    assert(x * x >= 0) by (nonlinear_arith);
    vstd::arithmetic::div_mod::lemma_div_pos_is_pos(x * x, FIXED_ONE_M as int);
}

/// Negating one factor negates the truncated product exactly.
pub proof fn lemma_mul_m_neg_right(a: int, b: int)
    ensures
        mul_m(a, -b) == -mul_m(a, b),
{
    assert(a * (-b) == -(a * b)) by (nonlinear_arith);
    lemma_tdiv_neg(a * b, FIXED_ONE_M as int);
}

/// A sum split across the divisor loses at most one unit:
/// `(a + b) / d <= a / d + b / d + 1` for non-negative operands.
proof fn lemma_div_of_sum(a: int, b: int, d: int)
    requires
        0 <= a,
        0 <= b,
        0 < d,
    ensures
        (a + b) / d <= a / d + b / d + 1,
{
    let r: int = a % d + b % d - (a + b) % d;
    vstd::arithmetic::div_mod::lemma_dividing_sums(a, b, d, r);
    vstd::arithmetic::div_mod::lemma_mod_bound(a, d);
    vstd::arithmetic::div_mod::lemma_mod_bound(b, d);
    vstd::arithmetic::div_mod::lemma_mod_bound(a + b, d);
    let x: int = (a + b) / d;
    let da: int = a / d;
    let db: int = b / d;
    let y: int = da + db;
    assert(d * x - r == d * da + d * db);
    assert(d * da + d * db == d * y) by (nonlinear_arith)
        requires
            y == da + db,
    ;
    assert(d * (x - y) == r) by (nonlinear_arith)
        requires
            d * x - r == d * y,
    ;
    assert(x - y <= 1) by (nonlinear_arith)
        requires
            d * (x - y) == r,
            r < 2 * d,
            0 < d,
    ;
}

/// Doubling a truncated non-negative quotient stays under the quotient of
/// a dominating sum: if `2 * u <= a * a + b * b` then
/// `2 * (u / 2^52) <= mul_m(a, a) + mul_m(b, b) + 1`.
proof fn lemma_double_div_le(u: int, a: int, b: int)
    requires
        0 <= u,
        2 * u <= a * a + b * b,
    ensures
        2 * (u / (FIXED_ONE_M as int)) <= mul_m(a, a) + mul_m(b, b) + 1,
{
    let s: int = FIXED_ONE_M as int;
    let q: int = u / s;
    vstd::arithmetic::div_mod::lemma_fundamental_div_mod(u, s);
    vstd::arithmetic::div_mod::lemma_mod_bound(u, s);
    assert(s * (2 * q) <= 2 * u) by (nonlinear_arith)
        requires
            u == s * q + u % s,
            0 <= u % s,
    ;
    vstd::arithmetic::div_mod::lemma_div_multiples_vanish(2 * q, s);
    assert(a * a >= 0) by (nonlinear_arith);
    assert(b * b >= 0) by (nonlinear_arith);
    vstd::arithmetic::div_mod::lemma_div_is_ordered(s * (2 * q), a * a + b * b, s);
    lemma_div_of_sum(a * a, b * b, s);
}

/// The arithmetic-geometric-mean bound survives truncation: the doubled
/// cross product is bounded by the sum of the squares, up to the one unit
/// the extra truncation can lose.
pub proof fn lemma_mul_m_am_gm(a: int, b: int)
    ensures
        -(mul_m(a, a) + mul_m(b, b) + 1) <= 2 * mul_m(a, b) <= mul_m(a, a) + mul_m(b, b) + 1,
{
    let s: int = FIXED_ONE_M as int;
    let p: int = a * b;
    assert(2 * p <= a * a + b * b && -(a * a + b * b) <= 2 * p) by (nonlinear_arith)
        requires
            p == a * b,
    ;
    lemma_mul_m_square_nonneg(a);
    lemma_mul_m_square_nonneg(b);
    if p >= 0 {
        lemma_double_div_le(p, a, b);
        vstd::arithmetic::div_mod::lemma_div_pos_is_pos(p, s);
    } else {
        assert(2 * (-p) <= a * a + b * b);
        lemma_double_div_le(-p, a, b);
        vstd::arithmetic::div_mod::lemma_div_pos_is_pos(-p, s);
    }
}

} // verus!
