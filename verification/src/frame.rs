//! The frame computation engine.
//!
//! A [`MandelbrotFrame`] owns a viewport (bounds in [`HiFixed`], pixel
//! dimensions), an iteration budget, and the reference data recomputed on
//! every [`MandelbrotFrame::calculate`] call.  `calculate` selects a
//! precision domain from the viewport width, computes a reference orbit in
//! that domain, and then computes one smoothed escape-time value per pixel,
//! row by row on a worker pool.  The whole output is pinned down by spec
//! functions of the viewport scalars alone, so identical inputs give
//! identical buffers whatever the scheduling.

use vstd::prelude::*;

use vstd::math::abs;

use rayon::iter::IntoParallelIterator;
use rayon::iter::ParallelIterator;

use crate::bigfloat::{bf_from_int, bf_gt, bf_gt_of, bf_int_of, bf_mul, bf_trunc, bf_wf};
use crate::complex::{mag_m, Complex};
use crate::fixed::{mul_m, tdiv, Fixed, HiFixed, FIXED_ONE_M, HI_ONE_M, HI_TO_FIXED_M};
use crate::highprec::{hp_escaped, hp_mag, hp_mul_im, hp_mul_re, hp_of_hifixed_m, HighPrecComplex};

verus! {

/// `4 * 2^52`: the escape bound for squared magnitudes at [`Fixed`] scale.
pub const FOUR_M: i128 = 18014398509481984;

/// `ceil(e^2 * 2^52)`: squared magnitudes at least this large contribute one
/// smoothing step.
pub const E2_CEIL_M: i128 = 33277350293763768;

/// `ceil(e^4 * 2^52)`: squared magnitudes at least this large contribute two
/// smoothing steps.
pub const E4_CEIL_M: i128 = 245888208144386829;

/// `32 * 2^96`: the largest viewport-bound magnitude at [`HiFixed`] scale.
/// This is a deliberate bound of the exact-arithmetic model: it keeps every
/// product of the engine inside `i128` and every escape magnitude below
/// `e^8`, so the two-threshold smoothing table is complete (see
/// [`lemma_escape_magnitude_below_e8`]).  The region of interest of the set
/// lies within `|c| <= 2`.
pub const VIEW_MAX_M: i128 = 2535301200456458802993406410752;

/// `32 * 2^52`: the largest pixel-coordinate magnitude at [`Fixed`] scale,
/// matching the viewport range.
pub const COORD_MAX_M: i128 = 144115188075855872;

/// `floor(2^96 / 10^14)`: viewports no wider than this (zoom beyond `10^14`)
/// use the high-precision path.
pub const HP_THRESHOLD_M: i128 = 792281625142643;

/// `floor(2^104 / 10^6)`: the accumulated-error account (scale `2^-104`)
/// above which the standard reference orbit is cut short.
pub const ORBIT_ERR_LIMIT: u128 = 20282409603651670423947251;

/// The largest accepted pixel dimension, a deliberate bound of the model:
/// it keeps the affine pixel map and the buffer index arithmetic exact in
/// `i128` and `usize`.
pub const DIM_MAX: u32 = 16384;

/// One escape-time step at [`Fixed`] scale: the real part of `z^2 + c`.
pub open spec fn step_re_m(zr: int, zi: int, cr: int) -> int {
    mul_m(zr, zr) - mul_m(zi, zi) + cr
}

/// One escape-time step at [`Fixed`] scale: the imaginary part of
/// `z^2 + c`.
pub open spec fn step_im_m(zr: int, zi: int, ci: int) -> int {
    2 * mul_m(zr, zi) + ci
}

/// The iterate `z_n` of `z -> z^2 + c` from `z_0 = 0`, as a pair of
/// [`Fixed`] mantissas.
pub open spec fn z_at(cr: int, ci: int, n: nat) -> (int, int)
    decreases n,
{
    if n == 0 {
        (0, 0)
    } else {
        let p = z_at(cr, ci, (n - 1) as nat);
        (step_re_m(p.0, p.1, cr), step_im_m(p.0, p.1, ci))
    }
}

/// The step count at which the standard iteration stops, continuing from
/// step `n`: the first index whose iterate has escaped (squared magnitude
/// above four), capped at the budget `max`.
pub open spec fn std_steps_from(cr: int, ci: int, n: nat, max: nat) -> nat
    decreases max - n,
{
    if n >= max {
        max
    } else if mag_m(z_at(cr, ci, n).0, z_at(cr, ci, n).1) > FOUR_M {
        n
    } else {
        std_steps_from(cr, ci, n + 1, max)
    }
}

/// The smoothing correction for an escape magnitude: the floor of
/// `log2(ln v)` for the magnitudes this engine can produce, expressed by
/// the precomputed thresholds `e^2` and `e^4`.
pub open spec fn smooth_k_m(m: int) -> nat {
    if m >= E4_CEIL_M {
        2
    } else if m >= E2_CEIL_M {
        1
    } else {
        0
    }
}

/// The smoothed value of an escape at step `n` with squared magnitude `m`:
/// `n + 1 - floor(log2(ln v))`, clamped at zero.
pub open spec fn smooth_value(n: nat, m: int) -> nat {
    if n + 1 >= smooth_k_m(m) {
        (n + 1 - smooth_k_m(m)) as nat
    } else {
        0
    }
}

/// The output value of the standard path for the point with coordinate
/// mantissas `(cr, ci)`: the smoothed escape step, or `max` where the
/// budget ran out first.
pub open spec fn std_pixel(cr: int, ci: int, max: nat) -> nat {
    let n = std_steps_from(cr, ci, 0, max);
    if n < max {
        smooth_value(n, mag_m(z_at(cr, ci, n).0, z_at(cr, ci, n).1))
    } else {
        max
    }
}

/// The [`HiFixed`] mantissa of the affine map of grid index `i` out of `d`
/// onto the interval from `lo` to `hi`: `lo + (i / d) * (hi - lo)`.
pub open spec fn coord_m(lo: int, hi: int, i: nat, d: nat) -> int {
    lo + (i * (hi - lo)) / (d as int)
}

/// A [`HiFixed`] coordinate narrowed to the [`Fixed`] scale of the standard
/// path.
pub open spec fn coord_fixed_m(lo: int, hi: int, i: nat, d: nat) -> int {
    tdiv(coord_m(lo, hi, i, d), HI_TO_FIXED_M as int)
}

/// The frame computation engine: viewport, iteration budget, and the
/// reference data of the two precision domains.
pub struct MandelbrotFrame {
    pub width: u32,
    pub height: u32,
    pub x_min: HiFixed,
    pub x_max: HiFixed,
    pub y_min: HiFixed,
    pub y_max: HiFixed,
    pub max_iterations: u32,
    pub reference_point: Complex,
    pub reference_orbit: Vec<Complex>,
    pub high_prec_reference: Option<HighPrecComplex>,
    pub high_prec_orbit: Vec<HighPrecComplex>,
}

impl MandelbrotFrame {
    /// Well-formedness: positive pixel dimensions up to [`DIM_MAX`], a
    /// positive iteration budget, and a viewport of positive extent within
    /// the engine's deliberate coordinate range of [`VIEW_MAX_M`] (the
    /// exact-arithmetic model bound; see the two constants).
    pub open spec fn wf(self) -> bool {
        &&& 1 <= self.width <= DIM_MAX
        &&& 1 <= self.height <= DIM_MAX
        &&& 1 <= self.max_iterations
        &&& -VIEW_MAX_M <= self.x_min.m < self.x_max.m <= VIEW_MAX_M
        &&& -VIEW_MAX_M <= self.y_min.m < self.y_max.m <= VIEW_MAX_M
    }

    /// Whether the viewport is narrow enough (zoom beyond `10^14`) that the
    /// standard path's precision is exhausted and the high-precision path
    /// is selected.
    pub open spec fn uses_high_precision(self) -> bool {
        self.x_max.m - self.x_min.m <= HP_THRESHOLD_M
    }

    /// The [`Fixed`]-scale real coordinate of pixel column `x`.
    pub open spec fn pixel_cr_m(self, x: nat) -> int {
        coord_fixed_m(self.x_min.m as int, self.x_max.m as int, x, self.width as nat)
    }

    /// The [`Fixed`]-scale imaginary coordinate of pixel row `y`.
    pub open spec fn pixel_ci_m(self, y: nat) -> int {
        coord_fixed_m(self.y_min.m as int, self.y_max.m as int, y, self.height as nat)
    }

    /// The decimal text of the real coordinate of pixel column `x`, for the
    /// high-precision path.
    pub open spec fn pixel_cr_text(self, x: nat) -> Seq<char> {
        hp_of_hifixed_m(coord_m(self.x_min.m as int, self.x_max.m as int, x, self.width as nat))
    }

    /// The decimal text of the imaginary coordinate of pixel row `y`, for
    /// the high-precision path.
    pub open spec fn pixel_ci_text(self, y: nat) -> Seq<char> {
        hp_of_hifixed_m(coord_m(self.y_min.m as int, self.y_max.m as int, y, self.height as nat))
    }

    /// The output value of the pixel at column `x`, row `y`, in the
    /// precision domain the viewport selects.
    pub open spec fn pixel_value(self, x: nat, y: nat) -> nat {
        if self.uses_high_precision() {
            hp_pixel(self.pixel_cr_text(x), self.pixel_ci_text(y), self.max_iterations as nat)
        } else {
            std_pixel(self.pixel_cr_m(x), self.pixel_ci_m(y), self.max_iterations as nat)
        }
    }

    /// The output row for pixel row `y`.
    pub open spec fn row_spec(self, y: nat) -> Seq<u32> {
        Seq::new(self.width as nat, |x: int| self.pixel_value(x as nat, y) as u32)
    }

    /// The whole output buffer, row-major.
    pub open spec fn frame_spec(self) -> Seq<u32> {
        Seq::new(
            (self.width * self.height) as nat,
            |i: int| self.pixel_value((i % (self.width as int)) as nat,
                (i / (self.width as int)) as nat) as u32,
        )
    }

    /// A new frame over the default viewport (real extent `-2` to `1`,
    /// imaginary extent `-1.5` to `1.5`) with a budget of `100`.
    pub fn new(width: u32, height: u32) -> (r: MandelbrotFrame)
        requires
            1 <= width <= DIM_MAX,
            1 <= height <= DIM_MAX,
        ensures
            r.wf(),
            r.width == width,
            r.height == height,
            r.x_min.m == -2 * HI_ONE_M,
            r.x_max.m == HI_ONE_M,
            r.y_min.m == -((3 * HI_ONE_M) / 2),
            r.y_max.m == (3 * HI_ONE_M) / 2,
            r.max_iterations == 100,
            r.reference_point.real.m == 0,
            r.reference_point.imag.m == 0,
            r.reference_point.error == 0,
            r.reference_orbit@.len() == 0,
            r.high_prec_reference.is_none(),
            r.high_prec_orbit@.len() == 0,
    {
        MandelbrotFrame {
            width,
            height,
            x_min: HiFixed::from_ratio(-2, 1),
            x_max: HiFixed::from_ratio(1, 1),
            y_min: HiFixed::from_ratio(-3, 2),
            y_max: HiFixed::from_ratio(3, 2),
            max_iterations: 100,
            reference_point: Complex::new(Fixed::from_m(0), Fixed::from_m(0)),
            reference_orbit: Vec::new(),
            high_prec_reference: None,
            high_prec_orbit: Vec::new(),
        }
    }

    /// Replaces the viewport bounds.  Degenerate or out-of-range bounds are
    /// rejected: the frame is updated and `true` returned exactly when the
    /// new bounds have positive extent and lie within the representable
    /// range.
    pub fn set_view(&mut self, x_min: HiFixed, x_max: HiFixed, y_min: HiFixed, y_max: HiFixed) -> (
        r: bool)
        requires
            old(self).wf(),
        ensures
            final(self).wf(),
            r == (-VIEW_MAX_M <= x_min.m < x_max.m <= VIEW_MAX_M && -VIEW_MAX_M <= y_min.m
                < y_max.m <= VIEW_MAX_M),
            r ==> *final(self) == (MandelbrotFrame { x_min, x_max, y_min, y_max, ..*old(self) }),
            !r ==> *final(self) == *old(self),
    {
        let ok: bool = -VIEW_MAX_M <= x_min.m && x_min.m < x_max.m && x_max.m <= VIEW_MAX_M
            && -VIEW_MAX_M <= y_min.m && y_min.m < y_max.m && y_max.m <= VIEW_MAX_M;
        if ok {
            self.x_min = x_min;
            self.x_max = x_max;
            self.y_min = y_min;
            self.y_max = y_max;
        }
        ok
    }

    /// Replaces the iteration budget.  A zero budget is rejected: the frame
    /// is updated and `true` returned exactly when the budget is positive.
    pub fn set_max_iterations(&mut self, max_iterations: u32) -> (r: bool)
        requires
            old(self).wf(),
        ensures
            final(self).wf(),
            r == (max_iterations >= 1),
            r ==> *final(self) == (MandelbrotFrame { max_iterations, ..*old(self) }),
            !r ==> *final(self) == *old(self),
    {
        if max_iterations >= 1 {
            self.max_iterations = max_iterations;
            true
        } else {
            false
        }
    }
}

/// A mantissa whose square (at [`Fixed`] scale) is at most four has
/// magnitude at most `2^55`.
proof fn lemma_sq_bound(x: int)
    requires
        mul_m(x, x) <= FOUR_M,
    ensures
        -36028797018963968 <= x <= 36028797018963968,
{
    if x > 36028797018963968 || x < -36028797018963968 {
        assert(x * x >= 1298074214633706907132624082305024) by (nonlinear_arith)
            requires
                x > 36028797018963968 || x < -36028797018963968,
        ;
        assert(1298074214633706907132624082305024int == 288230376151711744int
            * 4503599627370496int) by (nonlinear_arith);
        vstd::arithmetic::div_mod::lemma_div_multiples_vanish(288230376151711744int,
            4503599627370496int);
        assert((4503599627370496int * 288230376151711744int) / 4503599627370496int
            == 288230376151711744int);
        vstd::arithmetic::div_mod::lemma_div_is_ordered(1298074214633706907132624082305024int,
            x * x, 4503599627370496int);
        assert(false);
    }
}

/// Component and magnitude bounds carried by one escape-time step from an
/// unescaped iterate, for coordinate mantissas bounded by `cb`.
proof fn lemma_step_bounds(zr: int, zi: int, cr: int, ci: int, cb: int)
    requires
        mag_m(zr, zi) <= FOUR_M,
        -cb <= cr <= cb,
        -cb <= ci <= cb,
        0 <= cb,
    ensures
        -(cb + 576460752303423488) <= step_re_m(zr, zi, cr) <= cb + 576460752303423488,
        -(cb + 576460752303423488) <= step_im_m(zr, zi, ci) <= cb + 576460752303423488,
        -36028797018963968 <= zr <= 36028797018963968,
        -36028797018963968 <= zi <= 36028797018963968,
        0 <= mul_m(zr, zr) <= FOUR_M,
        0 <= mul_m(zi, zi) <= FOUR_M,
        -288230376151711744 <= mul_m(zr, zi) <= 288230376151711744,
{
    crate::fixed::lemma_mul_m_square_nonneg(zr);
    crate::fixed::lemma_mul_m_square_nonneg(zi);
    lemma_sq_bound(zr);
    lemma_sq_bound(zi);
    crate::fixed::lemma_mul_m_bound(zr, zi, 36028797018963968, 36028797018963968);
    assert(36028797018963968int * 36028797018963968int == 4503599627370496int
        * 288230376151711744int) by (nonlinear_arith);
    vstd::arithmetic::div_mod::lemma_div_multiples_vanish(288230376151711744int,
        4503599627370496int);
}

impl MandelbrotFrame {
    /// The affine viewport map: grid index `i` out of `d` onto the interval
    /// from `lo` to `hi`, at [`HiFixed`] scale.
    fn coord(lo: HiFixed, hi: HiFixed, i: u32, d: u32) -> (r: HiFixed)
        requires
            -VIEW_MAX_M <= lo.m < hi.m <= VIEW_MAX_M,
            1 <= d <= DIM_MAX,
            i <= d,
        ensures
            r.m == coord_m(lo.m as int, hi.m as int, i as nat, d as nat),
            lo.m <= r.m <= hi.m,
    {
        let span: i128 = hi.m - lo.m;
        proof {
            assert((i as int) * (span as int) <= (d as int) * (span as int) && 0 <= (i as int) * (
            span as int) && (d as int) * (span as int)
                <= 83076749736557242056487941267521536) by (nonlinear_arith)
                requires
                    0 <= i <= d <= 16384,
                    0 < span <= 5070602400912917605986812821504,
            ;
        }
        let num: i128 = (i as i128) * span;
        let q: i128 = crate::fixed::tdiv_i128(num, d as i128);
        proof {
            vstd::arithmetic::div_mod::lemma_div_pos_is_pos(num as int, d as int);
            vstd::arithmetic::div_mod::lemma_div_is_ordered(num as int,
                (d as int) * (span as int), d as int);
            vstd::arithmetic::div_mod::lemma_div_multiples_vanish(span as int, d as int);
        }
        HiFixed::from_m(lo.m + q)
    }

    /// The smoothed escape-time value of the standard path at the point
    /// `c`: the escape step plus one, less the logarithmic correction of
    /// the escape magnitude, or the whole budget where the point never
    /// escaped within it.
    pub fn iterate_standard(&self, c: Complex) -> (r: u32)
        requires
            self.wf(),
            -COORD_MAX_M <= c.real.m <= COORD_MAX_M,
            -COORD_MAX_M <= c.imag.m <= COORD_MAX_M,
        ensures
            r as nat == std_pixel(c.real.m as int, c.imag.m as int, self.max_iterations as nat),
            r <= self.max_iterations,
    {
        let ghost crm: int = c.real.m as int;
        let ghost cim: int = c.imag.m as int;
        let max: u32 = self.max_iterations;
        let mut zr: Fixed = Fixed::from_m(0);
        let mut zi: Fixed = Fixed::from_m(0);
        let mut n: u32 = 0;
        let mut rr: Fixed = zr.mul(zr);
        let mut ii: Fixed = zi.mul(zi);
        let mut mag: Fixed = rr.add(ii);
        while mag.m <= FOUR_M && n < max
            invariant
                -COORD_MAX_M <= crm <= COORD_MAX_M,
                -COORD_MAX_M <= cim <= COORD_MAX_M,
                crm == c.real.m,
                cim == c.imag.m,
                n <= max,
                (zr.m as int, zi.m as int) == z_at(crm, cim, n as nat),
                -1152921504606846976 <= zr.m <= 1152921504606846976,
                -1152921504606846976 <= zi.m <= 1152921504606846976,
                rr.m == mul_m(zr.m as int, zr.m as int),
                ii.m == mul_m(zi.m as int, zi.m as int),
                mag.m == mag_m(zr.m as int, zi.m as int),
                std_steps_from(crm, cim, 0, max as nat) == std_steps_from(crm, cim, n as nat,
                    max as nat),
            decreases max - n,
        {
            proof {
                lemma_step_bounds(zr.m as int, zi.m as int, crm, cim, COORD_MAX_M as int);
            }
            let ri: Fixed = zr.mul(zi);
            let new_zi: Fixed = Fixed::from_m(2 * ri.m + c.imag.m);
            let new_zr: Fixed = Fixed::from_m(rr.m - ii.m + c.real.m);
            proof {
                assert(z_at(crm, cim, (n + 1) as nat) == (step_re_m(zr.m as int, zi.m as int,
                    crm), step_im_m(zr.m as int, zi.m as int, cim)));
            }
            zi = new_zi;
            zr = new_zr;
            n = n + 1;
            rr = zr.mul(zr);
            ii = zi.mul(zi);
            proof {
                crate::fixed::lemma_mul_m_bound(zr.m as int, zr.m as int, 1152921504606846976,
                    1152921504606846976);
                crate::fixed::lemma_mul_m_bound(zi.m as int, zi.m as int, 1152921504606846976,
                    1152921504606846976);
            }
            mag = rr.add(ii);
        }
        if n < max {
            let k: u32 = if mag.m >= E4_CEIL_M {
                2
            } else if mag.m >= E2_CEIL_M {
                1
            } else {
                0
            };
            if n + 1 >= k {
                n + 1 - k
            } else {
                0
            }
        } else {
            max
        }
    }
}

/// One escape-time step of the high-precision path: `z^2 + c` over decimal
/// texts, exactly as [`HighPrecComplex::mul`] and [`HighPrecComplex::add`]
/// compose it.
pub open spec fn hp_step(zr: Seq<char>, zi: Seq<char>, cr: Seq<char>, ci: Seq<char>) -> (
    Seq<char>,
    Seq<char>,
) {
    (
        crate::bigfloat::bf_add_of(hp_mul_re(zr, zi, zr, zi), cr),
        crate::bigfloat::bf_add_of(hp_mul_im(zr, zi, zr, zi), ci),
    )
}

/// The iterate `z_n` of the high-precision path from the decimal zero.
pub open spec fn hp_z_at(cr: Seq<char>, ci: Seq<char>, n: nat) -> (Seq<char>, Seq<char>)
    decreases n,
{
    if n == 0 {
        (bf_int_of(0), bf_int_of(0))
    } else {
        let p = hp_z_at(cr, ci, (n - 1) as nat);
        hp_step(p.0, p.1, cr, ci)
    }
}

/// The step count at which the high-precision iteration stops, continuing
/// from step `n`: the first index whose iterate has escaped, capped at the
/// budget `max`.
pub open spec fn hp_steps_from(cr: Seq<char>, ci: Seq<char>, n: nat, max: nat) -> nat
    decreases max - n,
{
    if n >= max {
        max
    } else if hp_escaped(hp_z_at(cr, ci, n).0, hp_z_at(cr, ci, n).1) {
        n
    } else {
        hp_steps_from(cr, ci, n + 1, max)
    }
}

/// The smoothing correction of the high-precision path: the squared
/// magnitude is narrowed to the [`Fixed`] scale and put through the same
/// correction table as the standard path; a magnitude too large (or too
/// broken) to narrow takes the table's maximum.
pub open spec fn hp_smooth_k(mag: Seq<char>) -> nat {
    match crate::bigfloat::bf_trunc_of(crate::bigfloat::bf_mul_of(mag, bf_int_of(
        FIXED_ONE_M as int,
    ))) {
        Some(v) => smooth_k_m(v as int),
        None => 2,
    }
}

/// The output value of the high-precision path for the point with
/// coordinate texts `(cr, ci)`.
pub open spec fn hp_pixel(cr: Seq<char>, ci: Seq<char>, max: nat) -> nat {
    let n = hp_steps_from(cr, ci, 0, max);
    if n < max {
        let z = hp_z_at(cr, ci, n);
        let k = hp_smooth_k(hp_mag(z.0, z.1));
        if n + 1 >= k {
            (n + 1 - k) as nat
        } else {
            0
        }
    } else {
        max
    }
}

/// The error account accumulated by the standard reference orbit up to its
/// step `n`: each squaring charges `(|real| + |imag|)` times the machine
/// epsilon `2^-52`, which at the account scale `2^-104` is exactly the sum
/// of the component mantissa magnitudes.
pub open spec fn orbit_err_at(cr: int, ci: int, n: nat) -> int
    decreases n,
{
    if n == 0 {
        0
    } else {
        let p = z_at(cr, ci, (n - 1) as nat);
        orbit_err_at(cr, ci, (n - 1) as nat) + abs(p.0) + abs(p.1)
    }
}

/// The number of iterates the standard reference orbit retains, continuing
/// from step `n`: it stops before an escaped iterate, just after the step
/// that pushes the error account over [`ORBIT_ERR_LIMIT`], or at the
/// budget.
pub open spec fn orbit_len_from(cr: int, ci: int, n: nat, max: nat) -> nat
    decreases max - n,
{
    if n >= max {
        n
    } else if mag_m(z_at(cr, ci, n).0, z_at(cr, ci, n).1) > FOUR_M {
        n
    } else if orbit_err_at(cr, ci, n + 1) > ORBIT_ERR_LIMIT {
        n + 1
    } else {
        orbit_len_from(cr, ci, n + 1, max)
    }
}

impl MandelbrotFrame {
    /// The smoothed escape-time value of the high-precision path at the
    /// point `c`, carried as decimal texts.
    pub fn iterate_high_precision(&self, c: &HighPrecComplex) -> (r: u32)
        requires
            c.wf(),
        ensures
            r as nat == hp_pixel(c.real@, c.imag@, self.max_iterations as nat),
            r <= self.max_iterations,
    {
        let max: u32 = self.max_iterations;
        let four: String = bf_from_int(4);
        let mut z: HighPrecComplex = HighPrecComplex::new(bf_from_int(0), bf_from_int(0));
        let mut n: u32 = 0;
        let mut mag: String = z.magnitude_squared();
        let mut stop: bool = bf_gt(mag.as_str(), four.as_str());
        while !stop && n < max
            invariant
                c.wf(),
                z.wf(),
                n <= max,
                four@ == bf_int_of(4),
                bf_wf(four@),
                bf_wf(mag@),
                (z.real@, z.imag@) == hp_z_at(c.real@, c.imag@, n as nat),
                mag@ == hp_mag(z.real@, z.imag@),
                stop == hp_escaped(z.real@, z.imag@),
                hp_steps_from(c.real@, c.imag@, 0, max as nat) == hp_steps_from(c.real@, c.imag@,
                    n as nat, max as nat),
            decreases max - n,
        {
            z = z.mul(&z).add(c);
            n = n + 1;
            mag = z.magnitude_squared();
            stop = bf_gt(mag.as_str(), four.as_str());
        }
        if n < max {
            let scaled: String = bf_mul(mag.as_str(), bf_from_int(FIXED_ONE_M).as_str());
            let k: u32 = match bf_trunc(scaled.as_str()) {
                Some(v) => {
                    if v >= E4_CEIL_M {
                        2
                    } else if v >= E2_CEIL_M {
                        1
                    } else {
                        0
                    }
                },
                None => 2,
            };
            if n + 1 >= k {
                n + 1 - k
            } else {
                0
            }
        } else {
            max
        }
    }

    /// Recomputes the standard-path reference orbit from the current
    /// reference point: the iterates of `z^2 + c` on the reference
    /// coordinate itself, each carrying its accumulated error account,
    /// retained until escape, error overflow or the budget.  Nothing else
    /// of the frame changes, and the orbit is not consulted by the
    /// per-pixel computation.
    fn calculate_reference_orbit(&mut self)
        requires
            old(self).wf(),
            -COORD_MAX_M <= old(self).reference_point.real.m <= COORD_MAX_M,
            -COORD_MAX_M <= old(self).reference_point.imag.m <= COORD_MAX_M,
        ensures
            *final(self) == (MandelbrotFrame {
                reference_orbit: final(self).reference_orbit,
                ..*old(self)
            }),
            final(self).reference_orbit@.len() == orbit_len_from(
                old(self).reference_point.real.m as int,
                old(self).reference_point.imag.m as int,
                0,
                old(self).max_iterations as nat,
            ),
            forall|j: int|
                0 <= j < final(self).reference_orbit@.len() ==> {
                    &&& (#[trigger] final(self).reference_orbit@[j]).real.m == z_at(
                        old(self).reference_point.real.m as int,
                        old(self).reference_point.imag.m as int,
                        j as nat,
                    ).0
                    &&& final(self).reference_orbit@[j].imag.m == z_at(
                        old(self).reference_point.real.m as int,
                        old(self).reference_point.imag.m as int,
                        j as nat,
                    ).1
                    &&& final(self).reference_orbit@[j].error == orbit_err_at(
                        old(self).reference_point.real.m as int,
                        old(self).reference_point.imag.m as int,
                        j as nat,
                    )
                },
    {
        let ghost pre: MandelbrotFrame = *old(self);
        self.reference_orbit.clear();
        let c: Complex = self.reference_point;
        let ghost scr: int = c.real.m as int;
        let ghost sci: int = c.imag.m as int;
        let max: u32 = self.max_iterations;
        let ghost maxn: nat = max as nat;
        self.reference_orbit.reserve(max as usize);
        let mut zr: Fixed = Fixed::from_m(0);
        let mut zi: Fixed = Fixed::from_m(0);
        let mut err: u128 = 0;
        let mut n: u32 = 0;
        let mut rr: Fixed = zr.mul(zr);
        let mut ii: Fixed = zi.mul(zi);
        let mut mag: Fixed = rr.add(ii);
        while n < max
            invariant_except_break
                err <= ORBIT_ERR_LIMIT,
                orbit_len_from(scr, sci, 0, maxn) == orbit_len_from(scr, sci, n as nat, maxn),
            invariant
                c.real.m == scr,
                c.imag.m == sci,
                -COORD_MAX_M <= scr <= COORD_MAX_M,
                -COORD_MAX_M <= sci <= COORD_MAX_M,
                n <= max,
                maxn == max as nat,
                (zr.m as int, zi.m as int) == z_at(scr, sci, n as nat),
                -1152921504606846976 <= zr.m <= 1152921504606846976,
                -1152921504606846976 <= zi.m <= 1152921504606846976,
                rr.m == mul_m(zr.m as int, zr.m as int),
                ii.m == mul_m(zi.m as int, zi.m as int),
                mag.m == mag_m(zr.m as int, zi.m as int),
                err == orbit_err_at(scr, sci, n as nat),
                self.reference_orbit@.len() == n,
                *self == (MandelbrotFrame { reference_orbit: self.reference_orbit, ..pre }),
                forall|j: int|
                    0 <= j < n ==> {
                        &&& (#[trigger] self.reference_orbit@[j]).real.m == z_at(scr, sci,
                            j as nat).0
                        &&& self.reference_orbit@[j].imag.m == z_at(scr, sci, j as nat).1
                        &&& self.reference_orbit@[j].error == orbit_err_at(scr, sci, j as nat)
                    },
            ensures
                *self == (MandelbrotFrame { reference_orbit: self.reference_orbit, ..pre }),
                self.reference_orbit@.len() == orbit_len_from(scr, sci, 0, maxn),
                forall|j: int|
                    0 <= j < self.reference_orbit@.len() ==> {
                        &&& (#[trigger] self.reference_orbit@[j]).real.m == z_at(scr, sci,
                            j as nat).0
                        &&& self.reference_orbit@[j].imag.m == z_at(scr, sci, j as nat).1
                        &&& self.reference_orbit@[j].error == orbit_err_at(scr, sci, j as nat)
                    },
            decreases max - n,
        {
            if mag.m > FOUR_M {
                proof {
                    assert(orbit_len_from(scr, sci, n as nat, maxn) == n);
                }
                break;
            }
            self.reference_orbit.push(Complex::with_error(zr, zi, err));
            proof {
                lemma_step_bounds(zr.m as int, zi.m as int, scr, sci, COORD_MAX_M as int);
            }
            let ri: Fixed = zr.mul(zi);
            let azr: u128 = if zr.m >= 0 {
                zr.m as u128
            } else {
                (-zr.m) as u128
            };
            let azi: u128 = if zi.m >= 0 {
                zi.m as u128
            } else {
                (-zi.m) as u128
            };
            let inc: u128 = azr + azi;
            let new_zi: Fixed = Fixed::from_m(2 * ri.m + c.imag.m);
            let new_zr: Fixed = Fixed::from_m(rr.m - ii.m + c.real.m);
            proof {
                assert(z_at(scr, sci, (n + 1) as nat) == (step_re_m(zr.m as int, zi.m as int,
                    scr), step_im_m(zr.m as int, zi.m as int, sci)));
                assert(orbit_err_at(scr, sci, (n + 1) as nat) == orbit_err_at(scr, sci, n as nat)
                    + abs(zr.m as int) + abs(zi.m as int));
                assert(inc == abs(zr.m as int) + abs(zi.m as int));
            }
            zi = new_zi;
            zr = new_zr;
            err = err + inc;
            n = n + 1;
            rr = zr.mul(zr);
            ii = zi.mul(zi);
            proof {
                crate::fixed::lemma_mul_m_bound(zr.m as int, zr.m as int, 1152921504606846976,
                    1152921504606846976);
                crate::fixed::lemma_mul_m_bound(zi.m as int, zi.m as int, 1152921504606846976,
                    1152921504606846976);
            }
            mag = rr.add(ii);
            if err > ORBIT_ERR_LIMIT {
                break;
            }
        }
    }

    /// Recomputes the high-precision reference orbit from the stored
    /// high-precision reference point: iterates are retained until escape
    /// or the budget.  Nothing else of the frame changes, and the orbit is
    /// not consulted by the per-pixel computation.
    fn calculate_high_precision_orbit(&mut self)
        requires
            old(self).wf(),
            old(self).high_prec_reference.is_some(),
            bf_wf(old(self).high_prec_reference->Some_0.real@),
            bf_wf(old(self).high_prec_reference->Some_0.imag@),
        ensures
            *final(self) == (MandelbrotFrame {
                high_prec_orbit: final(self).high_prec_orbit,
                ..*old(self)
            }),
            final(self).high_prec_orbit@.len() == hp_steps_from(
                old(self).high_prec_reference->Some_0.real@,
                old(self).high_prec_reference->Some_0.imag@,
                0,
                old(self).max_iterations as nat,
            ),
            forall|j: int|
                0 <= j < final(self).high_prec_orbit@.len() ==> {
                    &&& (#[trigger] final(self).high_prec_orbit@[j]).real@ == hp_z_at(
                        old(self).high_prec_reference->Some_0.real@,
                        old(self).high_prec_reference->Some_0.imag@,
                        j as nat,
                    ).0
                    &&& final(self).high_prec_orbit@[j].imag@ == hp_z_at(
                        old(self).high_prec_reference->Some_0.real@,
                        old(self).high_prec_reference->Some_0.imag@,
                        j as nat,
                    ).1
                },
    {
        let ghost pre: MandelbrotFrame = *old(self);
        self.high_prec_orbit.clear();
        let c: HighPrecComplex = match &self.high_prec_reference {
            Some(p) => p.duplicate(),
            None => vstd::pervasive::unreached(),
        };
        let ghost crt: Seq<char> = c.real@;
        let ghost cit: Seq<char> = c.imag@;
        let max: u32 = self.max_iterations;
        let ghost maxn: nat = max as nat;
        self.high_prec_orbit.reserve(max as usize);
        let four: String = bf_from_int(4);
        let mut z: HighPrecComplex = HighPrecComplex::new(bf_from_int(0), bf_from_int(0));
        let mut n: u32 = 0;
        let mut mag: String = z.magnitude_squared();
        let mut stop: bool = bf_gt(mag.as_str(), four.as_str());
        while n < max
            invariant_except_break
                hp_steps_from(crt, cit, 0, maxn) == hp_steps_from(crt, cit, n as nat, maxn),
            invariant
                c.wf(),
                z.wf(),
                n <= max,
                maxn == max as nat,
                crt == c.real@,
                cit == c.imag@,
                four@ == bf_int_of(4),
                bf_wf(four@),
                (z.real@, z.imag@) == hp_z_at(crt, cit, n as nat),
                mag@ == hp_mag(z.real@, z.imag@),
                stop == hp_escaped(z.real@, z.imag@),
                self.high_prec_orbit@.len() == n,
                *self == (MandelbrotFrame { high_prec_orbit: self.high_prec_orbit, ..pre }),
                forall|j: int|
                    0 <= j < n ==> {
                        &&& (#[trigger] self.high_prec_orbit@[j]).real@ == hp_z_at(crt, cit,
                            j as nat).0
                        &&& self.high_prec_orbit@[j].imag@ == hp_z_at(crt, cit, j as nat).1
                    },
            ensures
                *self == (MandelbrotFrame { high_prec_orbit: self.high_prec_orbit, ..pre }),
                self.high_prec_orbit@.len() == hp_steps_from(crt, cit, 0, maxn),
                forall|j: int|
                    0 <= j < self.high_prec_orbit@.len() ==> {
                        &&& (#[trigger] self.high_prec_orbit@[j]).real@ == hp_z_at(crt, cit,
                            j as nat).0
                        &&& self.high_prec_orbit@[j].imag@ == hp_z_at(crt, cit, j as nat).1
                    },
            decreases max - n,
        {
            if stop {
                break;
            }
            self.high_prec_orbit.push(z.duplicate());
            z = z.mul(&z).add(&c);
            n = n + 1;
            mag = z.magnitude_squared();
            stop = bf_gt(mag.as_str(), four.as_str());
        }
    }
}

impl MandelbrotFrame {
    /// The viewport center at [`HiFixed`] scale.
    pub open spec fn center_hi_m(self) -> (int, int) {
        (
            tdiv(self.x_min.m + self.x_max.m, 2),
            tdiv(self.y_min.m + self.y_max.m, 2),
        )
    }

    /// The viewport center narrowed to [`Fixed`] scale: the standard
    /// path's reference point.
    pub open spec fn center_fixed_m(self) -> (int, int) {
        (
            tdiv(self.center_hi_m().0, HI_TO_FIXED_M as int),
            tdiv(self.center_hi_m().1, HI_TO_FIXED_M as int),
        )
    }

    /// What one standard-path `calculate` leaves in the reference fields
    /// of `post`, given the viewport of `pre`: the reference point is the
    /// narrowed viewport center, the standard orbit is the iterates of
    /// `z^2 + c` on that center, and the high-precision reference data is
    /// untouched.
    pub open spec fn std_recomputed(pre: MandelbrotFrame, post: MandelbrotFrame) -> bool {
        &&& post.reference_point.real.m == pre.center_fixed_m().0
        &&& post.reference_point.imag.m == pre.center_fixed_m().1
        &&& post.reference_point.error == 0
        &&& post.high_prec_reference == pre.high_prec_reference
        &&& post.high_prec_orbit == pre.high_prec_orbit
        &&& post.reference_orbit@.len() == orbit_len_from(
            pre.center_fixed_m().0,
            pre.center_fixed_m().1,
            0,
            pre.max_iterations as nat,
        )
        &&& forall|j: int|
            0 <= j < post.reference_orbit@.len() ==> {
                &&& (#[trigger] post.reference_orbit@[j]).real.m == z_at(pre.center_fixed_m().0,
                    pre.center_fixed_m().1, j as nat).0
                &&& post.reference_orbit@[j].imag.m == z_at(pre.center_fixed_m().0,
                    pre.center_fixed_m().1, j as nat).1
                &&& post.reference_orbit@[j].error == orbit_err_at(pre.center_fixed_m().0,
                    pre.center_fixed_m().1, j as nat)
            }
    }

    /// What one high-precision `calculate` leaves in the reference fields
    /// of `post`, given the viewport of `pre`: the high-precision
    /// reference is the viewport center carried to decimal text, its orbit
    /// is recomputed from it, and the standard reference data is
    /// untouched.
    pub open spec fn hp_recomputed(pre: MandelbrotFrame, post: MandelbrotFrame) -> bool {
        &&& post.reference_point == pre.reference_point
        &&& post.reference_orbit == pre.reference_orbit
        &&& post.high_prec_reference.is_some()
        &&& post.high_prec_reference->Some_0.real@ == hp_of_hifixed_m(pre.center_hi_m().0)
        &&& post.high_prec_reference->Some_0.imag@ == hp_of_hifixed_m(pre.center_hi_m().1)
        &&& post.high_prec_orbit@.len() == hp_steps_from(
            hp_of_hifixed_m(pre.center_hi_m().0),
            hp_of_hifixed_m(pre.center_hi_m().1),
            0,
            pre.max_iterations as nat,
        )
        &&& forall|j: int|
            0 <= j < post.high_prec_orbit@.len() ==> {
                &&& (#[trigger] post.high_prec_orbit@[j]).real@ == hp_z_at(
                    hp_of_hifixed_m(pre.center_hi_m().0),
                    hp_of_hifixed_m(pre.center_hi_m().1),
                    j as nat,
                ).0
                &&& post.high_prec_orbit@[j].imag@ == hp_z_at(
                    hp_of_hifixed_m(pre.center_hi_m().0),
                    hp_of_hifixed_m(pre.center_hi_m().1),
                    j as nat,
                ).1
            }
    }

    /// One output row: the smoothed escape-time value of every pixel of
    /// row `y`, in the precision domain the viewport selects.
    pub fn compute_row(&self, y: u32) -> (r: Vec<u32>)
        requires
            self.wf(),
            y < self.height,
        ensures
            r@ =~= self.row_spec(y as nat),
            forall|x: int| 0 <= x < r@.len() ==> (#[trigger] r@[x]) <= self.max_iterations,
    {
        let mut out: Vec<u32> = Vec::with_capacity(self.width as usize);
        let wide: bool = self.x_max.m - self.x_min.m > HP_THRESHOLD_M;
        let cy: HiFixed = Self::coord(self.y_min, self.y_max, y, self.height);
        proof {
            assert(HI_TO_FIXED_M * COORD_MAX_M == VIEW_MAX_M) by (nonlinear_arith);
            vstd::arithmetic::div_mod::lemma_div_multiples_vanish(COORD_MAX_M as int,
                HI_TO_FIXED_M as int);
            crate::fixed::lemma_tdiv_bound(cy.m as int, HI_TO_FIXED_M as int, VIEW_MAX_M as int);
        }
        let cy52: Fixed = cy.to_fixed();
        let mut x: u32 = 0;
        while x < self.width
            invariant
                self.wf(),
                y < self.height,
                wide == !self.uses_high_precision(),
                x <= self.width,
                out@.len() == x,
                cy.m == coord_m(self.y_min.m as int, self.y_max.m as int, y as nat,
                    self.height as nat),
                -VIEW_MAX_M <= cy.m <= VIEW_MAX_M,
                cy52.m == tdiv(cy.m as int, HI_TO_FIXED_M as int),
                -COORD_MAX_M <= cy52.m <= COORD_MAX_M,
                forall|j: int|
                    0 <= j < x ==> (#[trigger] out@[j]) as nat == self.pixel_value(j as nat,
                        y as nat),
                forall|j: int| 0 <= j < x ==> (#[trigger] out@[j]) <= self.max_iterations,
            decreases self.width - x,
        {
            let cx: HiFixed = Self::coord(self.x_min, self.x_max, x, self.width);
            let v: u32 = if wide {
                proof {
                    vstd::arithmetic::div_mod::lemma_div_multiples_vanish(COORD_MAX_M as int,
                        HI_TO_FIXED_M as int);
                    crate::fixed::lemma_tdiv_bound(cx.m as int, HI_TO_FIXED_M as int,
                        VIEW_MAX_M as int);
                    assert(HI_TO_FIXED_M * COORD_MAX_M == VIEW_MAX_M) by (nonlinear_arith);
                }
                let cx52: Fixed = cx.to_fixed();
                self.iterate_standard(Complex::new(cx52, cy52))
            } else {
                let c: HighPrecComplex = HighPrecComplex::from_hifixed(cx, cy);
                self.iterate_high_precision(&c)
            };
            out.push(v);
            x = x + 1;
        }
        proof {
            assert(out@ =~= self.row_spec(y as nat));
        }
        out
    }

    /// All output rows, computed independently on a worker pool.  Each row
    /// reads only the shared frame and is written by exactly one worker.
    ///
    /// Relies on rayon's indexed parallel iterators: `map` applies its
    /// closure — here a call of the verified [`MandelbrotFrame::compute_row`]
    /// — to every index, and `collect` assembles the results in index
    /// order, whatever order the workers ran in.
    #[verifier::external_body]
    fn par_rows(&self) -> (r: Vec<Vec<u32>>)
        requires
            self.wf(),
        ensures
            r@.len() == self.height,
            forall|y: int| 0 <= y < self.height ==> (#[trigger] r@[y])@ =~= self.row_spec(y as nat),
    {
        (0..self.height).into_par_iter().map(|y| self.compute_row(y)).collect()
    }

    /// The rows of [`MandelbrotFrame::par_rows`] joined into one row-major
    /// buffer.
    fn flatten_rows(&self, rows: &Vec<Vec<u32>>) -> (r: Vec<u32>)
        requires
            self.wf(),
            rows@.len() == self.height,
            forall|y: int|
                0 <= y < self.height ==> (#[trigger] rows@[y])@ =~= self.row_spec(y as nat),
        ensures
            r@ =~= self.frame_spec(),
    {
        let w: u32 = self.width;
        let h: u32 = self.height;
        proof {
            assert((w as int) * (h as int) <= 268435456) by (nonlinear_arith)
                requires
                    0 < w <= 16384,
                    0 < h <= 16384,
            ;
        }
        let mut out: Vec<u32> = Vec::with_capacity((w as usize) * (h as usize));
        let mut y: u32 = 0;
        while y < h
            invariant
                self.wf(),
                w == self.width,
                h == self.height,
                (w as int) * (h as int) <= 268435456,
                rows@.len() == h,
                forall|yy: int|
                    0 <= yy < h ==> (#[trigger] rows@[yy])@ =~= self.row_spec(yy as nat),
                y <= h,
                out@.len() == (y as int) * (w as int),
                forall|i: int|
                    0 <= i < out@.len() ==> (#[trigger] out@[i]) == self.frame_spec()[i],
            decreases h - y,
        {
            proof {
                assert(0 <= (y as int) * (w as int) && ((y as int) + 1) * (w as int) <= (h as int)
                    * (w as int)) by (nonlinear_arith)
                    requires
                        0 <= y < h,
                        0 < w,
                ;
            }
            let row: &Vec<u32> = &rows[y as usize];
            let mut x: u32 = 0;
            while x < w
                invariant
                    self.wf(),
                    w == self.width,
                    h == self.height,
                    (w as int) * (h as int) <= 268435456,
                    y < h,
                    x <= w,
                    row@ =~= self.row_spec(y as nat),
                    ((y as int) + 1) * (w as int) <= (h as int) * (w as int),
                    out@.len() == (y as int) * (w as int) + x,
                    forall|i: int|
                        0 <= i < out@.len() ==> (#[trigger] out@[i]) == self.frame_spec()[i],
                decreases w - x,
            {
                let v: u32 = row[x as usize];
                proof {
                    let i: int = (y as int) * (w as int) + x;
                    vstd::arithmetic::div_mod::lemma_fundamental_div_mod_converse(i, w as int,
                        y as int, x as int);
                    assert(((y as int) + 1) * (w as int) == (y as int) * (w as int) + (w as int))
                        by (nonlinear_arith);
                    assert(i < (self.width * self.height) as int) by (nonlinear_arith)
                        requires
                            i < ((y as int) + 1) * (w as int),
                            ((y as int) + 1) * (w as int) <= (h as int) * (w as int),
                            w == self.width,
                            h == self.height,
                    ;
                    assert(self.frame_spec()[i] == self.pixel_value(x as nat, y as nat) as u32);
                }
                out.push(v);
                x = x + 1;
            }
            proof {
                assert(((y as int) + 1) * (w as int) == (y as int) * (w as int) + (w as int))
                    by (nonlinear_arith);
            }
            y = y + 1;
        }
        proof {
            assert(out@.len() == (h as int) * (w as int));
            assert((self.width * self.height) as int == (w as int) * (h as int));
            assert((h as int) * (w as int) == (w as int) * (h as int)) by (nonlinear_arith);
            assert(out@ =~= self.frame_spec());
        }
        out
    }

    /// The standard-precision frame computation: recompute the reference
    /// point and orbit, then every pixel row.
    fn calculate_standard(&mut self) -> (r: Vec<u32>)
        requires
            old(self).wf(),
            !old(self).uses_high_precision(),
        ensures
            final(self).width == old(self).width,
            final(self).height == old(self).height,
            final(self).x_min == old(self).x_min,
            final(self).x_max == old(self).x_max,
            final(self).y_min == old(self).y_min,
            final(self).y_max == old(self).y_max,
            final(self).max_iterations == old(self).max_iterations,
            Self::std_recomputed(*old(self), *final(self)),
            r@ =~= old(self).frame_spec(),
    {
        let cx_hi: HiFixed = HiFixed::from_m(crate::fixed::tdiv_i128(self.x_min.m + self.x_max.m,
            2));
        let cy_hi: HiFixed = HiFixed::from_m(crate::fixed::tdiv_i128(self.y_min.m + self.y_max.m,
            2));
        proof {
            vstd::arithmetic::div_mod::lemma_div_multiples_vanish(COORD_MAX_M as int,
                HI_TO_FIXED_M as int);
            assert(HI_TO_FIXED_M * COORD_MAX_M == VIEW_MAX_M) by (nonlinear_arith);
            crate::fixed::lemma_tdiv_bound(self.x_min.m + self.x_max.m, 2,
                2 * VIEW_MAX_M as int);
            crate::fixed::lemma_tdiv_bound(self.y_min.m + self.y_max.m, 2,
                2 * VIEW_MAX_M as int);
            assert((2 * VIEW_MAX_M as int) / 2 == VIEW_MAX_M as int) by {
                vstd::arithmetic::div_mod::lemma_div_multiples_vanish(VIEW_MAX_M as int, 2);
            };
            crate::fixed::lemma_tdiv_bound(cx_hi.m as int, HI_TO_FIXED_M as int,
                VIEW_MAX_M as int);
            crate::fixed::lemma_tdiv_bound(cy_hi.m as int, HI_TO_FIXED_M as int,
                VIEW_MAX_M as int);
        }
        self.reference_point = Complex::new(cx_hi.to_fixed(), cy_hi.to_fixed());
        self.calculate_reference_orbit();
        let rows: Vec<Vec<u32>> = self.par_rows();
        self.flatten_rows(&rows)
    }

    /// The high-precision frame computation: recompute the decimal
    /// reference point and orbit, then every pixel row.
    fn calculate_high_precision(&mut self) -> (r: Vec<u32>)
        requires
            old(self).wf(),
            old(self).uses_high_precision(),
        ensures
            final(self).width == old(self).width,
            final(self).height == old(self).height,
            final(self).x_min == old(self).x_min,
            final(self).x_max == old(self).x_max,
            final(self).y_min == old(self).y_min,
            final(self).y_max == old(self).y_max,
            final(self).max_iterations == old(self).max_iterations,
            Self::hp_recomputed(*old(self), *final(self)),
            r@ =~= old(self).frame_spec(),
    {
        let cx_hi: HiFixed = HiFixed::from_m(crate::fixed::tdiv_i128(self.x_min.m + self.x_max.m,
            2));
        let cy_hi: HiFixed = HiFixed::from_m(crate::fixed::tdiv_i128(self.y_min.m + self.y_max.m,
            2));
        self.high_prec_reference = Some(HighPrecComplex::from_hifixed(cx_hi, cy_hi));
        self.calculate_high_precision_orbit();
        let rows: Vec<Vec<u32>> = self.par_rows();
        self.flatten_rows(&rows)
    }

    /// The public frame computation: one smoothed iteration count per
    /// pixel, row-major, every value at most the budget, pinned down by
    /// [`MandelbrotFrame::frame_spec`] as a function of the viewport and
    /// budget alone — so identical inputs give byte-identical buffers,
    /// independent of worker count or scheduling.  The viewport is
    /// untouched; the reference data of the selected precision domain is
    /// recomputed as a side effect and not consulted by any pixel.
    pub fn calculate(&mut self) -> (r: Vec<u32>)
        requires
            old(self).wf(),
        ensures
            final(self).wf(),
            final(self).width == old(self).width,
            final(self).height == old(self).height,
            final(self).x_min == old(self).x_min,
            final(self).x_max == old(self).x_max,
            final(self).y_min == old(self).y_min,
            final(self).y_max == old(self).y_max,
            final(self).max_iterations == old(self).max_iterations,
            r@ =~= old(self).frame_spec(),
            r@.len() == old(self).width * old(self).height,
            forall|i: int| 0 <= i < r@.len() ==> (#[trigger] r@[i]) <= old(self).max_iterations,
            old(self).uses_high_precision() ==> Self::hp_recomputed(*old(self), *final(self)),
            !old(self).uses_high_precision() ==> Self::std_recomputed(*old(self), *final(self)),
    {
        let dx: i128 = self.x_max.m - self.x_min.m;
        let r: Vec<u32> = if dx <= HP_THRESHOLD_M {
            self.calculate_high_precision()
        } else {
            self.calculate_standard()
        };
        proof {
            assert forall|i: int| 0 <= i < r@.len() implies (#[trigger] r@[i])
                <= old(self).max_iterations by {
                let w: int = old(self).width as int;
                lemma_pixel_value_le_max(*old(self), (i % w) as nat, (i / w) as nat);
            }
        }
        r
    }
}

/// Every pixel value is at most the iteration budget.
pub proof fn lemma_pixel_value_le_max(frame: MandelbrotFrame, x: nat, y: nat)
    ensures
        frame.pixel_value(x, y) <= frame.max_iterations,
{
}

/// `calculate` is deterministic: two frames over the same viewport, pixel
/// grid and budget have the same output buffer, whatever reference data
/// they carry and however their row computations were scheduled.
pub proof fn lemma_calculate_deterministic(a: MandelbrotFrame, b: MandelbrotFrame)
    requires
        a.width == b.width,
        a.height == b.height,
        a.x_min == b.x_min,
        a.x_max == b.x_max,
        a.y_min == b.y_min,
        a.y_max == b.y_max,
        a.max_iterations == b.max_iterations,
    ensures
        a.frame_spec() =~= b.frame_spec(),
{
    assert forall|i: int|
        0 <= i < a.frame_spec().len() implies a.frame_spec()[i] == b.frame_spec()[i] by {
        let x: nat = (i % (a.width as int)) as nat;
        let y: nat = (i / (a.width as int)) as nat;
        assert(a.pixel_value(x, y) == b.pixel_value(x, y));
    }
}

/// The iterates of the origin never move: `z_{n+1} = 0^2 + 0 = 0`.
proof fn lemma_z_at_origin(n: nat)
    ensures
        z_at(0, 0, n) == (0int, 0int),
        mag_m(z_at(0, 0, n).0, z_at(0, 0, n).1) == 0,
    decreases n,
{
    vstd::arithmetic::div_mod::lemma_div_of0(FIXED_ONE_M as int);
    if n > 0 {
        lemma_z_at_origin((n - 1) as nat);
    }
}

/// The iteration at the origin exhausts any budget.
proof fn lemma_steps_origin(n: nat, max: nat)
    requires
        n <= max,
    ensures
        std_steps_from(0, 0, n, max) == max,
    decreases max - n,
{
    lemma_z_at_origin(n);
    if n < max {
        lemma_steps_origin(n + 1, max);
    }
}

/// The point `c = 0` belongs to the set: its iterates never escape, so
/// the standard path returns the whole budget, whatever the budget is.
pub proof fn lemma_origin_pixel(max: nat)
    ensures
        std_pixel(0, 0, max) == max,
{
    lemma_steps_origin(0, max);
}

/// Once an iterate has escaped, the stop index no longer depends on the
/// remaining budget.
proof fn lemma_steps_stop(cr: int, ci: int, n: nat, e: nat, max: nat)
    requires
        n <= e < max,
        mag_m(z_at(cr, ci, e).0, z_at(cr, ci, e).1) > FOUR_M,
        forall|j: nat| n <= j < e ==> mag_m(#[trigger] z_at(cr, ci, j).0, z_at(cr, ci, j).1)
            <= FOUR_M,
    ensures
        std_steps_from(cr, ci, n, max) == e,
    decreases e - n,
{
    if n < e {
        assert(mag_m(z_at(cr, ci, n).0, z_at(cr, ci, n).1) <= FOUR_M);
        lemma_steps_stop(cr, ci, n + 1, e, max);
    }
}

/// The immediately divergent point `c = 2`: the first iterate sits exactly
/// on the escape bound, the second escapes with squared magnitude `36`,
/// between `e^2` and `e^4`, so for any budget of at least three the output
/// is the constant `2`, independent of the budget.
pub proof fn lemma_two_escapes(max: nat)
    requires
        max >= 3,
    ensures
        std_pixel(2 * FIXED_ONE_M, 0, max) == 2,
{
    reveal_with_fuel(z_at, 3);
    let cr: int = 2 * FIXED_ONE_M as int;
    vstd::arithmetic::div_mod::lemma_div_of0(FIXED_ONE_M as int);
    assert(cr * cr == FIXED_ONE_M * (4 * FIXED_ONE_M as int)) by (nonlinear_arith)
        requires
            cr == 2 * FIXED_ONE_M as int,
    ;
    vstd::arithmetic::div_mod::lemma_div_multiples_vanish(4 * FIXED_ONE_M as int,
        FIXED_ONE_M as int);
    assert(mul_m(cr, cr) == 4 * FIXED_ONE_M as int);
    assert(z_at(cr, 0, 1) == (step_re_m(0, 0, cr), step_im_m(0, 0, 0)));
    assert(z_at(cr, 0, 1) == (cr, 0int));
    let r2: int = 6 * FIXED_ONE_M as int;
    assert(z_at(cr, 0, 2) == (step_re_m(cr, 0, cr), step_im_m(cr, 0, 0)));
    assert(z_at(cr, 0, 2) == (r2, 0int));
    assert(r2 * r2 == FIXED_ONE_M * (36 * FIXED_ONE_M as int)) by (nonlinear_arith)
        requires
            r2 == 6 * FIXED_ONE_M as int,
    ;
    vstd::arithmetic::div_mod::lemma_div_multiples_vanish(36 * FIXED_ONE_M as int,
        FIXED_ONE_M as int);
    assert(mul_m(r2, r2) == 36 * FIXED_ONE_M as int);
    assert(mag_m(z_at(cr, 0, 2).0, z_at(cr, 0, 2).1) > FOUR_M);
    assert forall|j: nat| 0 <= j < 2 implies mag_m(#[trigger] z_at(cr, 0, j).0,
        z_at(cr, 0, j).1) <= FOUR_M by {
        if j == 0 {
            assert(mag_m(z_at(cr, 0, 0).0, z_at(cr, 0, 0).1) == 0);
        } else {
            assert(mag_m(z_at(cr, 0, 1).0, z_at(cr, 0, 1).1) == 4 * FIXED_ONE_M as int);
        }
    }
    lemma_steps_stop(cr, 0, 0, 2, max);
    assert(smooth_k_m(36 * FIXED_ONE_M as int) == 1);
}

/// Every iterate reached by one step from an unescaped iterate — in
/// particular the iterate whose magnitude the smoothing step reads — has
/// squared-magnitude mantissa at most `2592 * 2^52 + 72`, which lies below
/// `ceil(e^8 * 2^52) = 13425041279648231302`.  The thresholds `e^2` and
/// `e^4` are therefore the whole logarithmic correction table the standard
/// path can need: the floor of `log2(ln v)` never reaches three.
pub proof fn lemma_escape_magnitude_below_e8(zr: int, zi: int, cr: int, ci: int)
    requires
        mag_m(zr, zi) <= FOUR_M,
        -COORD_MAX_M <= cr <= COORD_MAX_M,
        -COORD_MAX_M <= ci <= COORD_MAX_M,
    ensures
        mag_m(step_re_m(zr, zi, cr), step_im_m(zr, zi, ci)) <= 11673330234144325704,
{
    let s: int = FIXED_ONE_M as int;
    crate::fixed::lemma_mul_m_square_nonneg(zr);
    crate::fixed::lemma_mul_m_square_nonneg(zi);
    let re2: int = step_re_m(zr, zi, cr);
    let im2: int = step_im_m(zr, zi, ci);
    assert(-162129586585337856 <= re2 <= 162129586585337856);
    crate::fixed::lemma_mul_m_am_gm(zr, zi);
    assert(-162129586585337857 <= im2 <= 162129586585337857);
    crate::fixed::lemma_mul_m_bound(re2, re2, 162129586585337856, 162129586585337856);
    crate::fixed::lemma_mul_m_bound(im2, im2, 162129586585337857, 162129586585337857);
    assert(162129586585337856int * 162129586585337856int == s * 5836665117072162816int)
        by (nonlinear_arith)
        requires
            s == 4503599627370496,
    ;
    vstd::arithmetic::div_mod::lemma_div_multiples_vanish(5836665117072162816int, s);
    assert(162129586585337857int * 162129586585337857int == (5836665117072162888int) * s + 1)
        by (nonlinear_arith)
        requires
            s == 4503599627370496,
    ;
    vstd::arithmetic::div_mod::lemma_fundamental_div_mod_converse(
        162129586585337857int * 162129586585337857int, s, 5836665117072162888int, 1);
    assert(tdiv(162129586585337856int * 162129586585337856int, s) == 5836665117072162816int);
    assert(tdiv(162129586585337857int * 162129586585337857int, s) == 5836665117072162888int);
}

/// Conjugation mirrors every iterate: negating the imaginary coordinate
/// negates each iterate's imaginary part and keeps its real part and
/// squared magnitude.
proof fn lemma_conjugate_z(cr: int, ci: int, n: nat)
    ensures
        z_at(cr, -ci, n).0 == z_at(cr, ci, n).0,
        z_at(cr, -ci, n).1 == -z_at(cr, ci, n).1,
        mag_m(z_at(cr, -ci, n).0, z_at(cr, -ci, n).1) == mag_m(z_at(cr, ci, n).0,
            z_at(cr, ci, n).1),
    decreases n,
{
    if n == 0 {
        assert(z_at(cr, -ci, 0) == (0int, 0int));
    } else {
        lemma_conjugate_z(cr, ci, (n - 1) as nat);
        let p = z_at(cr, ci, (n - 1) as nat);
        let zr: int = p.0;
        let zi: int = p.1;
        assert((-zi) * (-zi) == zi * zi) by (nonlinear_arith);
        assert(mul_m(-zi, -zi) == mul_m(zi, zi));
        crate::fixed::lemma_mul_m_neg_right(zr, zi);
        assert(step_re_m(zr, -zi, cr) == step_re_m(zr, zi, cr));
        assert(step_im_m(zr, -zi, -ci) == -step_im_m(zr, zi, ci));
        let q = z_at(cr, -ci, n);
        assert(q.1 * q.1 == z_at(cr, ci, n).1 * z_at(cr, ci, n).1) by (nonlinear_arith)
            requires
                q.1 == -z_at(cr, ci, n).1,
        ;
        assert(mul_m(q.1, q.1) == mul_m(z_at(cr, ci, n).1, z_at(cr, ci, n).1));
    }
}

/// Conjugation keeps the stop index.
proof fn lemma_conjugate_steps(cr: int, ci: int, n: nat, max: nat)
    ensures
        std_steps_from(cr, -ci, n, max) == std_steps_from(cr, ci, n, max),
    decreases max - n,
{
    lemma_conjugate_z(cr, ci, n);
    if n < max && mag_m(z_at(cr, ci, n).0, z_at(cr, ci, n).1) <= FOUR_M {
        lemma_conjugate_steps(cr, ci, n + 1, max);
    }
}

/// The set is symmetric under complex conjugation: the standard path
/// returns the same value at `(cr, ci)` and `(cr, -ci)`.
pub proof fn lemma_conjugate_pixel(cr: int, ci: int, max: nat)
    ensures
        std_pixel(cr, -ci, max) == std_pixel(cr, ci, max),
{
    lemma_conjugate_steps(cr, ci, 0, max);
    let n = std_steps_from(cr, ci, 0, max);
    lemma_conjugate_z(cr, ci, n);
}

/// For a viewport symmetric about the real axis, the standard path gives
/// pixel `(x, height - y)` the same value as pixel `(x, y)`, whenever the
/// affine row map is exact (the row offset divides evenly), since the two
/// rows then carry exactly mirrored imaginary coordinates.
pub proof fn lemma_mirror_rows(frame: MandelbrotFrame, x: nat, y: nat)
    requires
        frame.wf(),
        !frame.uses_high_precision(),
        frame.y_min.m == -frame.y_max.m,
        1 <= y < frame.height,
        (y * ((frame.y_max.m - frame.y_min.m) as int)) % (frame.height as int) == 0,
    ensures
        frame.pixel_value(x, (frame.height - y) as nat) == frame.pixel_value(x, y),
{
    let h: int = frame.height as int;
    let top: int = frame.y_max.m as int;
    let d: int = frame.y_max.m - frame.y_min.m;
    let q: int = (y * d) / h;
    vstd::arithmetic::div_mod::lemma_fundamental_div_mod(y * d, h);
    assert(y * d == h * q);
    assert((h - y) * d == h * d - y * d) by (nonlinear_arith);
    assert(h * d - h * q == h * (d - q)) by (nonlinear_arith);
    vstd::arithmetic::div_mod::lemma_div_multiples_vanish(d - q, h);
    assert(((h - y) * d) / h == d - q);
    assert(coord_m(frame.y_min.m as int, frame.y_max.m as int, (frame.height - y) as nat,
        frame.height as nat) == -top + d - q);
    assert(coord_m(frame.y_min.m as int, frame.y_max.m as int, y, frame.height as nat) == -top
        + q);
    assert(d == 2 * top);
    assert(-top + d - q == -(-top + q));
    crate::fixed::lemma_tdiv_neg(-top + q, HI_TO_FIXED_M as int);
    assert(frame.pixel_ci_m((frame.height - y) as nat) == -frame.pixel_ci_m(y));
    lemma_conjugate_pixel(frame.pixel_cr_m(x), frame.pixel_ci_m(y),
        frame.max_iterations as nat);
}

} // verus!
