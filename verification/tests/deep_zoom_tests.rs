use mandelbrot::fixed::HiFixed;
use mandelbrot::frame::MandelbrotFrame;
use mandelbrot::highprec::HighPrecComplex;

const HI_ONE: i128 = 79228162514264337593543950336; // 2^96

/// A frame whose viewport is the square of side `extent_m` (a raw `2^-96`
/// mantissa) centred on `(cx, cy)` given as integers.
fn zoomed_frame(w: u32, h: u32, cx: i128, cy: i128, extent_m: i128, budget: u32) -> MandelbrotFrame {
    let mut f = MandelbrotFrame::new(w, h);
    let half = extent_m / 2;
    assert!(f.set_view(
        HiFixed::from_m(cx * HI_ONE - half),
        HiFixed::from_m(cx * HI_ONE + half),
        HiFixed::from_m(cy * HI_ONE - half),
        HiFixed::from_m(cy * HI_ONE + half),
    ));
    assert!(f.set_max_iterations(budget));
    f
}

#[test]
fn deep_zoom_inside_set_exhausts_budget() {
    // Viewport of width 1e-15 around the origin: every coordinate is tiny,
    // so no pixel escapes and the high-precision path returns the budget.
    let mut f = zoomed_frame(3, 3, 0, 0, HI_ONE / 1_000_000_000_000_000, 10);
    let out = f.calculate();
    assert_eq!(out.len(), 9);
    assert!(out.iter().all(|&v| v == 10));
}

#[test]
fn deep_zoom_outside_set_escapes_first_step() {
    // Viewport of width ~7e-15 around c = 3: |z_1|^2 is about 9, between
    // e^2 and e^4, so every pixel smooths to 1 + 1 - 1 = 1.
    let mut f = zoomed_frame(2, 2, 3, 0, 700_000_000_000_000, 10);
    let out = f.calculate();
    assert!(out.iter().all(|&v| v == 1));
}

#[test]
fn deep_zoom_on_imaginary_axis_escapes_first_step() {
    // c = 0 + 3i: the real part of z^2 goes through the subtraction of the
    // component products; the escape still lands between e^2 and e^4.
    let mut f = zoomed_frame(2, 2, 0, 3, 700_000_000_000_000, 10);
    let out = f.calculate();
    assert!(out.iter().all(|&v| v == 1));
}

#[test]
fn deep_zoom_far_point_takes_two_smoothing_steps() {
    // c = 10 + 0i: |z_1|^2 = 100 lies beyond e^4, so the smoothed value is
    // 1 + 1 - 2 = 0 on the high-precision path as well.
    let mut f = zoomed_frame(2, 2, 10, 0, 700_000_000_000_000, 10);
    let out = f.calculate();
    assert!(out.iter().all(|&v| v == 0));
}

#[test]
fn deep_zoom_is_deterministic() {
    let mut f = zoomed_frame(3, 3, 3, 0, 700_000_000_000_000, 12);
    let a = f.calculate();
    let b = f.calculate();
    assert_eq!(a, b);
}

#[test]
fn high_precision_orbit_stops_at_escape() {
    // Center 3 + 0i: the orbit retains only z_0 = 0 before z_1 escapes.
    let mut f = zoomed_frame(2, 2, 3, 0, 700_000_000_000_000, 10);
    f.calculate();
    assert_eq!(f.high_prec_orbit.len(), 1);
    assert!(f.high_prec_reference.is_some());
}

#[test]
fn precision_paths_agree_across_the_threshold() {
    // The same centre, one viewport just wider and one just narrower than
    // the 1e14-zoom threshold: the standard and high-precision paths must
    // not diverge at the switch point.
    let mut wide = zoomed_frame(2, 2, 3, 0, 1_600_000_000_000_000, 20);
    let mut narrow = zoomed_frame(2, 2, 3, 0, 700_000_000_000_000, 20);
    let a = wide.calculate();
    let b = narrow.calculate();
    for i in 0..4usize {
        let d = if a[i] > b[i] { a[i] - b[i] } else { b[i] - a[i] };
        assert!(d <= 1, "paths diverged at pixel {}: {} vs {}", i, a[i], b[i]);
    }
}

#[test]
fn narrowing_recovers_exact_fixed_point_values() {
    // 3/2 is exact in decimal and at both fixed-point scales, so carrying
    // it into the decimal domain and narrowing back is lossless.
    let c = HighPrecComplex::from_hifixed(HiFixed::from_ratio(3, 2), HiFixed::from_ratio(-3, 2));
    let narrowed = c.to_complex();
    assert_eq!(narrowed.real.m, 3 * (1i128 << 52) / 2);
    assert_eq!(narrowed.imag.m, -3 * (1i128 << 52) / 2);
    assert_eq!(narrowed.error, 0);
}

#[test]
fn decimal_product_matches_integer_square() {
    // (3 + 0i)^2 + 0 narrows to exactly 9.
    let three = HighPrecComplex::from_hifixed(HiFixed::from_ratio(3, 1), HiFixed::from_ratio(0, 1));
    let sq = three.mul(&three);
    let narrowed = sq.to_complex();
    assert_eq!(narrowed.real.m, 9 * (1i128 << 52));
    assert_eq!(narrowed.imag.m, 0);
}
