use mandelbrot::fixed::HiFixed;
use mandelbrot::frame::MandelbrotFrame;

const HI_ONE: i128 = 79228162514264337593543950336; // 2^96

fn frame_with(
    w: u32,
    h: u32,
    x_min: (i64, i64),
    x_max: (i64, i64),
    y_min: (i64, i64),
    y_max: (i64, i64),
    max_iterations: u32,
) -> MandelbrotFrame {
    let mut f = MandelbrotFrame::new(w, h);
    assert!(f.set_view(
        HiFixed::from_ratio(x_min.0, x_min.1),
        HiFixed::from_ratio(x_max.0, x_max.1),
        HiFixed::from_ratio(y_min.0, y_min.1),
        HiFixed::from_ratio(y_max.0, y_max.1),
    ));
    assert!(f.set_max_iterations(max_iterations));
    f
}

#[test]
fn default_frame_matches_classic_viewport() {
    let f = MandelbrotFrame::new(100, 100);
    assert_eq!(f.width, 100);
    assert_eq!(f.height, 100);
    assert_eq!(f.max_iterations, 100);
    assert_eq!(f.x_min.m, -2 * HI_ONE);
    assert_eq!(f.x_max.m, HI_ONE);
    assert_eq!(f.y_min.m, -3 * HI_ONE / 2);
    assert_eq!(f.y_max.m, 3 * HI_ONE / 2);
}

#[test]
fn classic_frame_scenario() {
    // width 100, height 100, viewport [-2, 1] x [-1.5, 1.5], budget 100.
    let mut f = MandelbrotFrame::new(100, 100);
    let out = f.calculate();
    assert_eq!(out.len(), 10000);
    // The four corners lie far outside the set.
    for &(x, y) in &[(0usize, 0usize), (99, 0), (0, 99), (99, 99)] {
        assert!(out[y * 100 + x] < 10);
    }
    // The pixel nearest (-0.5, 0) sits deep inside the set.
    assert_eq!(out[50 * 100 + 50], 100);
}

#[test]
fn every_value_within_budget() {
    let mut f = MandelbrotFrame::new(40, 30);
    assert!(f.set_max_iterations(37));
    let out = f.calculate();
    assert_eq!(out.len(), 1200);
    assert!(out.iter().all(|&v| v <= 37));
}

#[test]
fn origin_pixel_exhausts_any_budget() {
    for budget in [1u32, 7, 200] {
        let mut f = frame_with(2, 2, (-1, 1), (1, 1), (-1, 1), (1, 1), budget);
        let out = f.calculate();
        // Pixel (1, 1) maps exactly to c = 0 + 0i.
        assert_eq!(out[1 * 2 + 1], budget);
    }
}

#[test]
fn immediately_divergent_point_is_constant_two() {
    for budget in [10u32, 100, 1000] {
        let mut f = frame_with(2, 2, (0, 1), (4, 1), (-2, 1), (2, 1), budget);
        let out = f.calculate();
        // Pixel (1, 1) maps exactly to c = 2 + 0i.
        assert_eq!(out[1 * 2 + 1], 2);
    }
}

#[test]
fn deep_escape_magnitude_takes_two_smoothing_steps() {
    // Pixel (1, 1) maps exactly to c = 10 + 0i: |z_1|^2 = 100 lies beyond
    // e^4, so the smoothed value is 1 + 1 - 2 = 0.
    let mut f = frame_with(2, 2, (8, 1), (12, 1), (-2, 1), (2, 1), 50);
    let out = f.calculate();
    assert_eq!(out[1 * 2 + 1], 0);
}

#[test]
fn repeated_calls_are_byte_identical() {
    let mut f = MandelbrotFrame::new(32, 32);
    let a = f.calculate();
    let b = f.calculate();
    assert_eq!(a, b);
    let mut g = MandelbrotFrame::new(32, 32);
    assert_eq!(a, g.calculate());
}

#[test]
fn stale_reference_data_does_not_affect_output() {
    let mut f = MandelbrotFrame::new(24, 24);
    let expected = f.calculate();
    // Leave reference data from a shorter run behind, then recompute.
    let mut g = MandelbrotFrame::new(24, 24);
    assert!(g.set_max_iterations(7));
    g.calculate();
    assert!(g.set_max_iterations(100));
    assert_eq!(g.calculate(), expected);
}

#[test]
fn worker_count_does_not_change_output() {
    let mut f = MandelbrotFrame::new(31, 17);
    let many = f.calculate();
    let pool = rayon::ThreadPoolBuilder::new().num_threads(1).build().unwrap();
    let mut g = MandelbrotFrame::new(31, 17);
    let one = pool.install(|| g.calculate());
    assert_eq!(many, one);
}

#[test]
fn mirror_rows_match_for_symmetric_viewport() {
    // Height 4 over [-2, 2]: the row map divides evenly, so rows 1 and 3
    // carry exactly mirrored imaginary coordinates.
    let mut f = frame_with(4, 4, (-2, 1), (2, 1), (-2, 1), (2, 1), 50);
    let out = f.calculate();
    for x in 0..4usize {
        assert_eq!(out[1 * 4 + x], out[3 * 4 + x]);
    }
}

#[test]
fn conjugate_row_pair_in_wide_symmetric_viewport() {
    let mut f = frame_with(8, 8, (-2, 1), (1, 1), (-2, 1), (2, 1), 80);
    let out = f.calculate();
    for x in 0..8usize {
        assert_eq!(out[2 * 8 + x], out[6 * 8 + x]);
    }
}

#[test]
fn standard_orbit_of_bounded_center_runs_to_budget() {
    // Center (-0.5, 0) never escapes and accumulates almost no error.
    let mut f = MandelbrotFrame::new(16, 16);
    f.calculate();
    assert_eq!(f.reference_orbit.len(), 100);
    assert_eq!(f.reference_orbit[0].real.m, 0);
    assert_eq!(f.reference_orbit[0].imag.m, 0);
    assert_eq!(f.reference_orbit[0].error, 0);
    // z_1 = -0.5: iterates follow z^2 + c on the centre itself, and the
    // second squaring charges (|-0.5| + |0|) * 2^-52, i.e. 2^51 units at
    // the 2^-104 account scale.
    assert_eq!(f.reference_orbit[1].real.m, -(1i128 << 51));
    assert_eq!(f.reference_orbit[1].imag.m, 0);
    assert_eq!(f.reference_orbit[2].error, 1u128 << 51);
}

#[test]
fn standard_orbit_stops_at_escape() {
    // Center (2, 0): the orbit retains z_0 = 0 and z_1 = 2 (squared
    // magnitude exactly four), and stops before the escaped z_2 = 6.
    let mut f = frame_with(2, 2, (0, 1), (4, 1), (-2, 1), (2, 1), 50);
    f.calculate();
    assert_eq!(f.reference_orbit.len(), 2);
    assert_eq!(f.reference_orbit[1].real.m, 2 * (1i128 << 52));
    assert_eq!(f.reference_orbit[1].imag.m, 0);
    assert_eq!(f.reference_orbit[1].error, 0);
}

#[test]
fn rejected_view_leaves_frame_unchanged() {
    let mut f = MandelbrotFrame::new(10, 10);
    let before_xmin = f.x_min.m;
    // Inverted bounds must be rejected.
    let ok = f.set_view(
        HiFixed::from_ratio(1, 1),
        HiFixed::from_ratio(-1, 1),
        HiFixed::from_ratio(-1, 1),
        HiFixed::from_ratio(1, 1),
    );
    assert!(!ok);
    assert_eq!(f.x_min.m, before_xmin);
    assert!(!f.set_max_iterations(0));
    assert_eq!(f.max_iterations, 100);
}
