use mandelbrot::complex::Complex;
use mandelbrot::fixed::{Fixed, HiFixed};
use mandelbrot::raster::{argb_to_rgba, sample_index};

const ONE: i128 = 4503599627370496; // 2^52
const HI_ONE: i128 = 79228162514264337593543950336; // 2^96

#[test]
fn fixed_construction_and_product() {
    assert_eq!(Fixed::from_int(3).m, 3 * ONE);
    assert_eq!(Fixed::from_int(-2).m, -2 * ONE);
    // 2.5 * 2 = 5, exactly.
    let a = Fixed::from_m(5 * ONE / 2);
    let b = Fixed::from_int(2);
    assert_eq!(a.mul(b).m, 5 * ONE);
    // Truncation is toward zero on both sides.
    let eps = Fixed::from_m(1);
    assert_eq!(eps.mul(eps).m, 0);
    assert_eq!(Fixed::from_m(-1).mul(eps).m, 0);
}

#[test]
fn hifixed_ratio_and_narrowing() {
    assert_eq!(HiFixed::from_ratio(-3, 2).m, -3 * HI_ONE / 2);
    assert_eq!(HiFixed::from_ratio(1, 1).to_fixed().m, ONE);
    assert_eq!(HiFixed::from_ratio(-3, 2).to_fixed().m, -3 * ONE / 2);
}

#[test]
fn complex_product_and_magnitude() {
    // (3 + 4i) * (3 + 4i) = -7 + 24i; |3 + 4i|^2 = 25. All exact.
    let z = Complex::new(Fixed::from_int(3), Fixed::from_int(4));
    let sq = z.mul(z);
    assert_eq!(sq.real.m, -7 * ONE);
    assert_eq!(sq.imag.m, 24 * ONE);
    assert_eq!(z.magnitude_squared().m, 25 * ONE);
}

#[test]
fn complex_error_accounts_add_and_scale_keeps_them() {
    let a = Complex::with_error(Fixed::from_int(1), Fixed::from_int(0), 7);
    let b = Complex::with_error(Fixed::from_int(2), Fixed::from_int(1), 5);
    assert_eq!(a.add(b).error, 12);
    assert_eq!(a.mul(b).error, 12);
    assert_eq!(a.scale(Fixed::from_int(3)).error, 7);
    assert_eq!(a.scale(Fixed::from_int(3)).real.m, 3 * ONE);
    assert_eq!(Complex::new(Fixed::from_int(1), Fixed::from_int(1)).error, 0);
}

#[test]
fn argb_words_unpack_to_rgba_quadruples() {
    let pixels = vec![0xff112233u32, 0x00a0b0c0u32];
    let bytes = argb_to_rgba(&pixels);
    assert_eq!(bytes.len(), 8);
    assert_eq!(&bytes[0..4], &[0x11, 0x22, 0x33, 255]);
    assert_eq!(&bytes[4..8], &[0xa0, 0xb0, 0xc0, 255]);
}

#[test]
fn sampling_map_clamps_to_buffer() {
    // A 7x5 output sampled every 2 pixels into a 3x2 buffer.
    assert_eq!(sample_index(0, 0, 2, 3, 2), 0);
    assert_eq!(sample_index(5, 1, 2, 3, 2), 2);
    assert_eq!(sample_index(6, 4, 2, 3, 2), 3 + 2);
    // Unit step is the identity until the clamp.
    assert_eq!(sample_index(2, 1, 1, 4, 4), 1 * 4 + 2);
}
