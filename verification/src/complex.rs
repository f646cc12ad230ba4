//! Fixed-precision complex arithmetic with error accounting.
//!
//! A [`Complex`] value carries, besides its two [`Fixed`] components, a
//! monotonically non-decreasing upper-bound account of the rounding error
//! accumulated along its derivation chain.  The account is a mantissa at
//! scale `2^-104`: a squaring charges `(|real| + |imag|)` times the machine
//! epsilon `2^-52`, which at that scale is exactly one unit per unit of
//! component mantissa.  Arithmetic adds the accounts of its operands and
//! never resets them.

use vstd::prelude::*;

use crate::fixed::{Fixed, mul_m, MUL_IN_MAX_M};

verus! {

/// The magnitude-squared mantissa of a complex value given by component
/// mantissas: `mul_m(zr, zr) + mul_m(zi, zi)`.
pub open spec fn mag_m(zr: int, zi: int) -> int {
    mul_m(zr, zr) + mul_m(zi, zi)
}

/// A complex number over [`Fixed`] with an accumulated-error account.
#[derive(Clone, Copy, Debug)]
pub struct Complex {
    pub real: Fixed,
    pub imag: Fixed,
    /// Accumulated rounding-error bound, a mantissa at scale `2^-104`.
    pub error: u128,
}

impl Complex {
    /// A complex value with a fresh (zero) error account.
    pub fn new(re: Fixed, im: Fixed) -> (r: Complex)
        ensures
            r.real == re,
            r.imag == im,
            r.error == 0,
    {
        Complex { real: re, imag: im, error: 0 }
    }

    /// A complex value carrying an already-accumulated error account.
    pub fn with_error(re: Fixed, im: Fixed, err: u128) -> (r: Complex)
        ensures
            r.real == re,
            r.imag == im,
            r.error == err,
    {
        Complex { real: re, imag: im, error: err }
    }

    /// `real^2 + imag^2`, the square of the magnitude.
    pub fn magnitude_squared(&self) -> (r: Fixed)
        requires
            -MUL_IN_MAX_M <= self.real.m <= MUL_IN_MAX_M,
            -MUL_IN_MAX_M <= self.imag.m <= MUL_IN_MAX_M,
        ensures
            r.m == mag_m(self.real.m as int, self.imag.m as int),
    {
        proof {
            crate::fixed::lemma_mul_m_bound(self.real.m as int, self.real.m as int,
                MUL_IN_MAX_M as int, MUL_IN_MAX_M as int);
            crate::fixed::lemma_mul_m_bound(self.imag.m as int, self.imag.m as int,
                MUL_IN_MAX_M as int, MUL_IN_MAX_M as int);
        }
        let rr: Fixed = self.real.mul(self.real);
        let ii: Fixed = self.imag.mul(self.imag);
        rr.add(ii)
    }

    /// Both components scaled by `factor`; the error account is unchanged.
    pub fn scale(&self, factor: Fixed) -> (r: Complex)
        requires
            -MUL_IN_MAX_M <= self.real.m <= MUL_IN_MAX_M,
            -MUL_IN_MAX_M <= self.imag.m <= MUL_IN_MAX_M,
            -MUL_IN_MAX_M <= factor.m <= MUL_IN_MAX_M,
        ensures
            r.real.m == mul_m(self.real.m as int, factor.m as int),
            r.imag.m == mul_m(self.imag.m as int, factor.m as int),
            r.error == self.error,
    {
        Complex {
            real: self.real.mul(factor),
            imag: self.imag.mul(factor),
            error: self.error,
        }
    }

    /// Component-wise sum; the error accounts add.
    pub fn add(self, other: Complex) -> (r: Complex)
        requires
            i128::MIN < self.real.m + other.real.m <= i128::MAX,
            i128::MIN < self.imag.m + other.imag.m <= i128::MAX,
            self.error + other.error <= u128::MAX,
        ensures
            r.real.m == self.real.m + other.real.m,
            r.imag.m == self.imag.m + other.imag.m,
            r.error == self.error + other.error,
    {
        Complex {
            real: self.real.add(other.real),
            imag: self.imag.add(other.imag),
            error: self.error + other.error,
        }
    }

    /// The standard complex product; the error accounts add.
    pub fn mul(self, other: Complex) -> (r: Complex)
        requires
            -MUL_IN_MAX_M <= self.real.m <= MUL_IN_MAX_M,
            -MUL_IN_MAX_M <= self.imag.m <= MUL_IN_MAX_M,
            -MUL_IN_MAX_M <= other.real.m <= MUL_IN_MAX_M,
            -MUL_IN_MAX_M <= other.imag.m <= MUL_IN_MAX_M,
            self.error + other.error <= u128::MAX,
        ensures
            r.real.m == mul_m(self.real.m as int, other.real.m as int) - mul_m(
                self.imag.m as int, other.imag.m as int),
            r.imag.m == mul_m(self.real.m as int, other.imag.m as int) + mul_m(
                self.imag.m as int, other.real.m as int),
            r.error == self.error + other.error,
    {
        proof {
            let b: int = MUL_IN_MAX_M as int;
            crate::fixed::lemma_mul_m_bound(self.real.m as int, other.real.m as int, b, b);
            crate::fixed::lemma_mul_m_bound(self.imag.m as int, other.imag.m as int, b, b);
            crate::fixed::lemma_mul_m_bound(self.real.m as int, other.imag.m as int, b, b);
            crate::fixed::lemma_mul_m_bound(self.imag.m as int, other.real.m as int, b, b);
        }
        let rr: Fixed = self.real.mul(other.real);
        let ii: Fixed = self.imag.mul(other.imag);
        let ri: Fixed = self.real.mul(other.imag);
        let ir: Fixed = self.imag.mul(other.real);
        Complex {
            real: rr.sub(ii),
            imag: ri.add(ir),
            error: self.error + other.error,
        }
    }
}

} // verus!
