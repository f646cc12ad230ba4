//! Trusted interface to the arbitrary-precision decimal arithmetic of the
//! `num_bigfloat` crate.
//!
//! A value of the deep-zoom domain is carried as its decimal text: the
//! output of `BigFloat`'s `Display`, which `BigFloat::parse` reads back.
//! Each operation below parses its operands, applies exactly one
//! `num_bigfloat` operation, and formats the result.  `num_bigfloat`
//! computes on 40-decimal-digit mantissas with no dependence on the
//! environment, so each result is a function of the operand texts alone;
//! the `uninterp` names record those functions without restating the
//! library's rounding behaviour.
//!
//! `BigFloat::parse` is not total over arbitrary text: a crafted exponent
//! of ten or more digits overflows its `i32` exponent accumulator.  The
//! [`bf_wf`] predicate therefore confines every text-taking operation to
//! texts of the library's own making — integers formatted by
//! [`bf_from_int`] and the outputs of the operations themselves, whose
//! `Display` form carries an exponent of at most three digits, far inside
//! the parser's range — on which `parse` succeeds outright.

use vstd::prelude::*;

verus! {

/// Whether a decimal text is of the shape this library's own operations
/// produce: `BigFloat`'s `Display` form (or the plain zero text), which
/// `BigFloat::parse` reads back without failure of any kind.  Every text
/// returned below satisfies it; no other text reaches a parsing
/// operation.
pub uninterp spec fn bf_wf(s: Seq<char>) -> bool;

/// The decimal text of the sum of two decimal texts.
pub uninterp spec fn bf_add_of(a: Seq<char>, b: Seq<char>) -> Seq<char>;

/// The decimal text of the difference of two decimal texts.
pub uninterp spec fn bf_sub_of(a: Seq<char>, b: Seq<char>) -> Seq<char>;

/// The decimal text of the product of two decimal texts.
pub uninterp spec fn bf_mul_of(a: Seq<char>, b: Seq<char>) -> Seq<char>;

/// The decimal text of the quotient of two decimal texts.
pub uninterp spec fn bf_div_of(a: Seq<char>, b: Seq<char>) -> Seq<char>;

/// Whether the first decimal text names a strictly greater number than the
/// second.
pub uninterp spec fn bf_gt_of(a: Seq<char>, b: Seq<char>) -> bool;

/// The decimal text of an integer.
pub uninterp spec fn bf_int_of(v: int) -> Seq<char>;

/// The integer part of a decimal text, when it fits an `i128`.
pub uninterp spec fn bf_trunc_of(s: Seq<char>) -> Option<i128>;

/// Relies on `num_bigfloat`'s `Add for BigFloat`; `BigFloat::parse` and
/// `Display` convert between text and `BigFloat`, and never fail on texts
/// the library produced.
#[verifier::external_body]
pub(crate) fn bf_add(a: &str, b: &str) -> (r: String)
    requires
        bf_wf(a@),
        bf_wf(b@),
    ensures
        r@ == bf_add_of(a@, b@),
        bf_wf(r@),
{
    let x = num_bigfloat::BigFloat::parse(a).unwrap_or(num_bigfloat::NAN);
    let y = num_bigfloat::BigFloat::parse(b).unwrap_or(num_bigfloat::NAN);
    (x + y).to_string()
}

/// Relies on `num_bigfloat`'s `Sub for BigFloat`; `BigFloat::parse` and
/// `Display` convert between text and `BigFloat`, and never fail on texts
/// the library produced.
#[verifier::external_body]
pub(crate) fn bf_sub(a: &str, b: &str) -> (r: String)
    requires
        bf_wf(a@),
        bf_wf(b@),
    ensures
        r@ == bf_sub_of(a@, b@),
        bf_wf(r@),
{
    let x = num_bigfloat::BigFloat::parse(a).unwrap_or(num_bigfloat::NAN);
    let y = num_bigfloat::BigFloat::parse(b).unwrap_or(num_bigfloat::NAN);
    (x - y).to_string()
}

/// Relies on `num_bigfloat`'s `Mul for BigFloat`; `BigFloat::parse` and
/// `Display` convert between text and `BigFloat`, and never fail on texts
/// the library produced.
#[verifier::external_body]
pub(crate) fn bf_mul(a: &str, b: &str) -> (r: String)
    requires
        bf_wf(a@),
        bf_wf(b@),
    ensures
        r@ == bf_mul_of(a@, b@),
        bf_wf(r@),
{
    let x = num_bigfloat::BigFloat::parse(a).unwrap_or(num_bigfloat::NAN);
    let y = num_bigfloat::BigFloat::parse(b).unwrap_or(num_bigfloat::NAN);
    (x * y).to_string()
}

/// Relies on `num_bigfloat`'s `Div for BigFloat`; `BigFloat::parse` and
/// `Display` convert between text and `BigFloat`, and never fail on texts
/// the library produced.
#[verifier::external_body]
pub(crate) fn bf_div(a: &str, b: &str) -> (r: String)
    requires
        bf_wf(a@),
        bf_wf(b@),
    ensures
        r@ == bf_div_of(a@, b@),
        bf_wf(r@),
{
    let x = num_bigfloat::BigFloat::parse(a).unwrap_or(num_bigfloat::NAN);
    let y = num_bigfloat::BigFloat::parse(b).unwrap_or(num_bigfloat::NAN);
    (x / y).to_string()
}

/// Relies on `num_bigfloat`'s `PartialOrd for BigFloat`; `BigFloat::parse`
/// converts the operand texts, and never fails on texts the library
/// produced.
#[verifier::external_body]
pub(crate) fn bf_gt(a: &str, b: &str) -> (r: bool)
    requires
        bf_wf(a@),
        bf_wf(b@),
    ensures
        r == bf_gt_of(a@, b@),
{
    let x = num_bigfloat::BigFloat::parse(a).unwrap_or(num_bigfloat::NAN);
    let y = num_bigfloat::BigFloat::parse(b).unwrap_or(num_bigfloat::NAN);
    x > y
}

/// Relies on `BigFloat::from_i128`, exact for the at most 39 digits an
/// `i128` can hold; `Display` converts the result.
#[verifier::external_body]
pub(crate) fn bf_from_int(v: i128) -> (r: String)
    ensures
        r@ == bf_int_of(v as int),
        bf_wf(r@),
{
    num_bigfloat::BigFloat::from_i128(v).to_string()
}

/// Relies on `BigFloat::to_i128`, which truncates to the integer part and
/// returns nothing for NaN, infinities and out-of-range values;
/// `BigFloat::parse` converts the operand text, and never fails on texts
/// the library produced.
#[verifier::external_body]
pub(crate) fn bf_trunc(s: &str) -> (r: Option<i128>)
    requires
        bf_wf(s@),
    ensures
        r == bf_trunc_of(s@),
{
    num_bigfloat::BigFloat::parse(s).unwrap_or(num_bigfloat::NAN).to_i128()
}

} // verus!
