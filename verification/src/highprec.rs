//! Arbitrary-precision complex arithmetic for the deep-zoom path.
//!
//! A [`HighPrecComplex`] holds each component as the decimal text of a
//! wide-mantissa decimal number, operated on through the trusted interface
//! in [`crate::bigfloat`].  Its well-formedness invariant
//! ([`HighPrecComplex::wf`]) confines both texts to the shapes the trusted
//! operations produce: the constructors establish it and every operation
//! preserves it, so no other text ever reaches the outside parser.  No
//! error account is carried: this type exists to eliminate the error the
//! fixed-precision type would otherwise accumulate.  Narrowing with
//! [`HighPrecComplex::to_complex`] is lossy and must not be used inside an
//! iteration loop.

use vstd::prelude::*;

use crate::bigfloat::{
    bf_add, bf_add_of, bf_div, bf_div_of, bf_from_int, bf_gt_of, bf_int_of, bf_mul, bf_mul_of,
    bf_sub, bf_sub_of, bf_trunc, bf_trunc_of, bf_wf,
};
use crate::complex::Complex;
use crate::fixed::{Fixed, HiFixed, FIXED_ONE_M, HI_ONE_M};

verus! {

/// The decimal text of the real part of a complex product.
pub open spec fn hp_mul_re(r1: Seq<char>, i1: Seq<char>, r2: Seq<char>, i2: Seq<char>) -> Seq<
    char,
> {
    bf_sub_of(bf_mul_of(r1, r2), bf_mul_of(i1, i2))
}

/// The decimal text of the imaginary part of a complex product.
pub open spec fn hp_mul_im(r1: Seq<char>, i1: Seq<char>, r2: Seq<char>, i2: Seq<char>) -> Seq<
    char,
> {
    bf_add_of(bf_mul_of(r1, i2), bf_mul_of(i1, r2))
}

/// The decimal text of the squared magnitude of a complex value.
pub open spec fn hp_mag(re: Seq<char>, im: Seq<char>) -> Seq<char> {
    bf_add_of(bf_mul_of(re, re), bf_mul_of(im, im))
}

/// Whether a squared-magnitude text exceeds the integer four: the escape
/// test of the deep-zoom path.
pub open spec fn hp_escaped(re: Seq<char>, im: Seq<char>) -> bool {
    bf_gt_of(hp_mag(re, im), bf_int_of(4))
}

/// The decimal text of a [`HiFixed`] value: its mantissa divided by `2^96`.
pub open spec fn hp_of_hifixed_m(m: int) -> Seq<char> {
    bf_div_of(bf_int_of(m), bf_int_of(HI_ONE_M as int))
}

/// The [`Fixed`] mantissa a decimal text narrows to: its value scaled by
/// `2^52` and truncated, or zero where no integer part exists (NaN,
/// infinite or out-of-range values).
pub open spec fn hp_narrowed_m(s: Seq<char>) -> int {
    match bf_trunc_of(bf_mul_of(s, bf_int_of(FIXED_ONE_M as int))) {
        Some(v) => v as int,
        None => 0,
    }
}

/// A complex number whose components are decimal texts of the
/// arbitrary-precision domain.
#[derive(Clone, Debug)]
pub struct HighPrecComplex {
    pub real: String,
    pub imag: String,
}

impl HighPrecComplex {
    /// Well-formedness: both component texts are of the library's own
    /// making ([`bf_wf`]), so the trusted operations read them without
    /// failure.
    pub open spec fn wf(self) -> bool {
        bf_wf(self.real@) && bf_wf(self.imag@)
    }

    /// A complex value from two component texts of the library's own
    /// making.
    pub fn new(re: String, im: String) -> (r: HighPrecComplex)
        requires
            bf_wf(re@),
            bf_wf(im@),
        ensures
            r.real@ == re@,
            r.imag@ == im@,
            r.wf(),
    {
        HighPrecComplex { real: re, imag: im }
    }

    /// The complex value of a pair of [`HiFixed`] coordinates, carried into
    /// the decimal domain.
    pub fn from_hifixed(re: HiFixed, im: HiFixed) -> (r: HighPrecComplex)
        ensures
            r.real@ == hp_of_hifixed_m(re.m as int),
            r.imag@ == hp_of_hifixed_m(im.m as int),
            r.wf(),
    {
        let scale: String = bf_from_int(HI_ONE_M);
        let re_t: String = bf_div(bf_from_int(re.m).as_str(), scale.as_str());
        let im_t: String = bf_div(bf_from_int(im.m).as_str(), scale.as_str());
        HighPrecComplex::new(re_t, im_t)
    }

    /// A copy of this value with the same component texts.
    pub fn duplicate(&self) -> (r: HighPrecComplex)
        ensures
            r.real@ == self.real@,
            r.imag@ == self.imag@,
    {
        HighPrecComplex { real: self.real.clone(), imag: self.imag.clone() }
    }

    /// `real^2 + imag^2` as a decimal text.
    pub fn magnitude_squared(&self) -> (r: String)
        requires
            self.wf(),
        ensures
            r@ == hp_mag(self.real@, self.imag@),
            bf_wf(r@),
    {
        let rr: String = bf_mul(self.real.as_str(), self.real.as_str());
        let ii: String = bf_mul(self.imag.as_str(), self.imag.as_str());
        bf_add(rr.as_str(), ii.as_str())
    }

    /// The standard complex product in the decimal domain.
    pub fn mul(&self, other: &HighPrecComplex) -> (r: HighPrecComplex)
        requires
            self.wf(),
            other.wf(),
        ensures
            r.real@ == hp_mul_re(self.real@, self.imag@, other.real@, other.imag@),
            r.imag@ == hp_mul_im(self.real@, self.imag@, other.real@, other.imag@),
            r.wf(),
    {
        let rr: String = bf_mul(self.real.as_str(), other.real.as_str());
        let ii: String = bf_mul(self.imag.as_str(), other.imag.as_str());
        let ri: String = bf_mul(self.real.as_str(), other.imag.as_str());
        let ir: String = bf_mul(self.imag.as_str(), other.real.as_str());
        HighPrecComplex {
            real: bf_sub(rr.as_str(), ii.as_str()),
            imag: bf_add(ri.as_str(), ir.as_str()),
        }
    }

    /// Component-wise sum in the decimal domain.
    pub fn add(&self, other: &HighPrecComplex) -> (r: HighPrecComplex)
        requires
            self.wf(),
            other.wf(),
        ensures
            r.real@ == bf_add_of(self.real@, other.real@),
            r.imag@ == bf_add_of(self.imag@, other.imag@),
            r.wf(),
    {
        HighPrecComplex {
            real: bf_add(self.real.as_str(), other.real.as_str()),
            imag: bf_add(self.imag.as_str(), other.imag.as_str()),
        }
    }

    /// Lossy narrowing to the fixed-precision type, for consumers that only
    /// need approximate coordinates.
    pub fn to_complex(&self) -> (r: Complex)
        requires
            self.wf(),
        ensures
            r.real.m == hp_narrowed_m(self.real@),
            r.imag.m == hp_narrowed_m(self.imag@),
            r.error == 0,
    {
        let scale: String = bf_from_int(FIXED_ONE_M);
        let re_t: String = bf_mul(self.real.as_str(), scale.as_str());
        let im_t: String = bf_mul(self.imag.as_str(), scale.as_str());
        let re_m: i128 = match bf_trunc(re_t.as_str()) {
            Some(v) => v,
            None => 0,
        };
        let im_m: i128 = match bf_trunc(im_t.as_str()) {
            Some(v) => v,
            None => 0,
        };
        Complex::new(Fixed::from_m(re_m), Fixed::from_m(im_m))
    }
}

} // verus!
