//! Verified pieces of the rendering and encoding glue.
//!
//! The window and animated-image collaborators hand whole pixel buffers
//! around; the two computations they need on them — unpacking packed ARGB
//! words into RGBA bytes for the frame encoder, and mapping an output
//! pixel back onto a subsampled iteration buffer — are pure and live here,
//! with exact contracts.

use vstd::prelude::*;

verus! {

/// The red channel of a packed `0xAARRGGBB` word.
pub open spec fn red_of(p: u32) -> u8 {
    ((p >> 16) & 0xff) as u8
}

/// The green channel of a packed `0xAARRGGBB` word.
pub open spec fn green_of(p: u32) -> u8 {
    ((p >> 8) & 0xff) as u8
}

/// The blue channel of a packed `0xAARRGGBB` word.
pub open spec fn blue_of(p: u32) -> u8 {
    (p & 0xff) as u8
}

/// Packed `0xAARRGGBB` pixels unpacked to `R, G, B, 255` byte quadruples,
/// in order: the layout the animated-image encoder consumes.
pub fn argb_to_rgba(pixels: &Vec<u32>) -> (r: Vec<u8>)
    requires
        pixels@.len() * 4 <= usize::MAX,
    ensures
        r@.len() == pixels@.len() * 4,
        forall|i: int|
            0 <= i < pixels@.len() ==> {
                &&& r@[4 * i] == red_of(#[trigger] pixels@[i])
                &&& r@[4 * i + 1] == green_of(pixels@[i])
                &&& r@[4 * i + 2] == blue_of(pixels@[i])
                &&& r@[4 * i + 3] == 255u8
            },
{
    let n: usize = pixels.len();
    let mut out: Vec<u8> = Vec::with_capacity(4 * n);
    let mut i: usize = 0;
    while i < n
        invariant
            n == pixels@.len(),
            n * 4 <= usize::MAX,
            i <= n,
            out@.len() == 4 * i,
            forall|j: int|
                0 <= j < i ==> {
                    &&& out@[4 * j] == red_of(#[trigger] pixels@[j])
                    &&& out@[4 * j + 1] == green_of(pixels@[j])
                    &&& out@[4 * j + 2] == blue_of(pixels@[j])
                    &&& out@[4 * j + 3] == 255u8
                },
        decreases n - i,
    {
        let p: u32 = pixels[i];
        out.push(((p >> 16u32) & 0xff) as u8);
        out.push(((p >> 8u32) & 0xff) as u8);
        out.push((p & 0xff) as u8);
        out.push(255);
        i = i + 1;
    }
    out
}

/// The index into a subsampled, row-major iteration buffer of dimensions
/// `sampled_width` by `sampled_height` that backs the full-resolution
/// output pixel `(x, y)` when every `step`-sized square of output pixels
/// shares one sample: the sample coordinates, clamped to the buffer.
pub open spec fn sample_index_spec(
    x: nat,
    y: nat,
    step: nat,
    sampled_width: nat,
    sampled_height: nat,
) -> nat {
    let sx = if x / step < (sampled_width - 1) as nat {
        x / step
    } else {
        (sampled_width - 1) as nat
    };
    let sy = if y / step < (sampled_height - 1) as nat {
        y / step
    } else {
        (sampled_height - 1) as nat
    };
    sy * sampled_width + sx
}

/// The clamped subsampling map, with its result always inside the sampled
/// buffer.
pub fn sample_index(x: usize, y: usize, step: usize, sampled_width: usize, sampled_height: usize)
    -> (r: usize)
    requires
        step >= 1,
        sampled_width >= 1,
        sampled_height >= 1,
        sampled_height * sampled_width <= usize::MAX,
    ensures
        r == sample_index_spec(x as nat, y as nat, step as nat, sampled_width as nat,
            sampled_height as nat),
        r < sampled_width * sampled_height,
{
    let sx: usize = {
        let q: usize = x / step;
        if q < sampled_width - 1 {
            q
        } else {
            sampled_width - 1
        }
    };
    let sy: usize = {
        let q: usize = y / step;
        if q < sampled_height - 1 {
            q
        } else {
            sampled_height - 1
        }
    };
    proof {
        assert(sy * sampled_width + sx < sampled_width * sampled_height) by (nonlinear_arith)
            requires
                0 <= sy < sampled_height,
                0 <= sx < sampled_width,
        ;
        assert((sampled_height as int) * (sampled_width as int) == (sampled_width as int) * (
        sampled_height as int)) by (nonlinear_arith);
    }
    sy * sampled_width + sx
}

} // verus!
