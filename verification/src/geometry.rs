//! Aspect ratios, crop rectangles, and the derivation of ratio-fitting
//! crops (start-aligned, centered, end-aligned) from image dimensions.

use vstd::prelude::*;
use vstd::arithmetic::div_mod::{lemma_div_is_ordered, lemma_div_multiples_vanish};
use vstd::arithmetic::mul::{lemma_mul_nonnegative, lemma_mul_upper_bound};

verus! {

/// A target crop proportion, as a pair of positive integers
/// (ratio width, ratio height).
#[derive(Clone, Copy, Debug, PartialEq, Eq, Structural)]
pub struct AspectRatio(pub u32, pub u32);

impl AspectRatio {
    /// Both components of a meaningful aspect ratio are positive.
    pub open spec fn valid(self) -> bool {
        self.0 > 0 && self.1 > 0
    }
}

/// An axis-aligned rectangle in source-image pixel coordinates.
#[derive(Clone, Copy, Debug, PartialEq, Eq, Structural)]
pub struct Geometry {
    pub x: u32,
    pub y: u32,
    pub w: u32,
    pub h: u32,
}

/// True when the image is at least as wide, relative to its height, as the
/// target ratio: a ratio-fitting crop then spans the full image height and
/// slides horizontally; otherwise it spans the full width and slides
/// vertically.
pub open spec fn wider_than_ratio(width: u32, height: u32, ratio: AspectRatio) -> bool {
    width * ratio.1 >= height * ratio.0
}

/// Width of a full-height crop with the target ratio.
pub open spec fn fit_width(height: u32, ratio: AspectRatio) -> int {
    (height * ratio.0) / (ratio.1 as int)
}

/// Height of a full-width crop with the target ratio.
pub open spec fn fit_height(width: u32, ratio: AspectRatio) -> int {
    (width * ratio.1) / (ratio.0 as int)
}

/// The ratio-fitting crop aligned at the start (left or top edge).
pub open spec fn spec_start_crop(width: u32, height: u32, ratio: AspectRatio) -> Geometry {
    if wider_than_ratio(width, height, ratio) {
        Geometry { x: 0, y: 0, w: fit_width(height, ratio) as u32, h: height }
    } else {
        Geometry { x: 0, y: 0, w: width, h: fit_height(width, ratio) as u32 }
    }
}

/// The ratio-fitting crop centered in the image.
pub open spec fn spec_centered_crop(width: u32, height: u32, ratio: AspectRatio) -> Geometry {
    if wider_than_ratio(width, height, ratio) {
        let cw = fit_width(height, ratio);
        Geometry { x: ((width - cw) / 2) as u32, y: 0, w: cw as u32, h: height }
    } else {
        let ch = fit_height(width, ratio);
        Geometry { x: 0, y: ((height - ch) / 2) as u32, w: width, h: ch as u32 }
    }
}

/// The ratio-fitting crop aligned at the end (right or bottom edge).
pub open spec fn spec_end_crop(width: u32, height: u32, ratio: AspectRatio) -> Geometry {
    if wider_than_ratio(width, height, ratio) {
        let cw = fit_width(height, ratio);
        Geometry { x: (width - cw) as u32, y: 0, w: cw as u32, h: height }
    } else {
        let ch = fit_height(width, ratio);
        Geometry { x: 0, y: (height - ch) as u32, w: width, h: ch as u32 }
    }
}

/// The ordered candidate crops offered for an image and ratio:
/// start-aligned, centered, end-aligned.
pub open spec fn spec_crop_candidates(width: u32, height: u32, ratio: AspectRatio) -> Seq<Geometry> {
    seq![
        spec_start_crop(width, height, ratio),
        spec_centered_crop(width, height, ratio),
        spec_end_crop(width, height, ratio),
    ]
}

/// The ratio-fitting crop never exceeds the image along its movable axis.
pub proof fn lemma_fit_bounds(width: u32, height: u32, ratio: AspectRatio)
    requires
        ratio.valid(),
    ensures
        wider_than_ratio(width, height, ratio) ==> 0 <= fit_width(height, ratio) <= width,
        !wider_than_ratio(width, height, ratio) ==> 0 <= fit_height(width, ratio) <= height,
{
    if wider_than_ratio(width, height, ratio) {
        lemma_mul_nonnegative(height as int, ratio.0 as int);
        lemma_div_is_ordered(height * ratio.0, width * ratio.1, ratio.1 as int);
        lemma_div_multiples_vanish(width as int, ratio.1 as int);
        assert(width * ratio.1 == (ratio.1 as int) * (width as int)) by (nonlinear_arith);
    } else {
        lemma_mul_nonnegative(width as int, ratio.1 as int);
        lemma_div_is_ordered(width * ratio.1, height * ratio.0, ratio.0 as int);
        lemma_div_multiples_vanish(height as int, ratio.0 as int);
        assert(height * ratio.0 == (ratio.0 as int) * (height as int)) by (nonlinear_arith);
    }
}

/// The products of two `u32` values stay within `u64`.
proof fn lemma_u32_products_fit(a: u32, b: u32)
    ensures
        0 <= (a as int) * (b as int) <= 0xffff_ffff * 0xffff_ffff,
{
    lemma_mul_nonnegative(a as int, b as int);
    lemma_mul_upper_bound(a as int, 0xffff_ffff, b as int, 0xffff_ffff);
}

/// The ratio-fitting crop aligned at the start edge.
pub fn start_crop(width: u32, height: u32, ratio: &AspectRatio) -> (g: Geometry)
    requires
        ratio.valid(),
    ensures
        g == spec_start_crop(width, height, *ratio),
{
    proof {
        lemma_u32_products_fit(width, ratio.1);
        lemma_u32_products_fit(height, ratio.0);
        lemma_fit_bounds(width, height, *ratio);
    }
    let w = width as u64;
    let h = height as u64;
    let rw = ratio.0 as u64;
    let rh = ratio.1 as u64;
    if w * rh >= h * rw {
        let cw = (h * rw / rh) as u32;
        Geometry { x: 0, y: 0, w: cw, h: height }
    } else {
        let ch = (w * rh / rw) as u32;
        Geometry { x: 0, y: 0, w: width, h: ch }
    }
}

/// The ratio-fitting crop centered in the image.
pub fn centered_crop(width: u32, height: u32, ratio: &AspectRatio) -> (g: Geometry)
    requires
        ratio.valid(),
    ensures
        g == spec_centered_crop(width, height, *ratio),
{
    proof {
        lemma_u32_products_fit(width, ratio.1);
        lemma_u32_products_fit(height, ratio.0);
        lemma_fit_bounds(width, height, *ratio);
    }
    let w = width as u64;
    let h = height as u64;
    let rw = ratio.0 as u64;
    let rh = ratio.1 as u64;
    if w * rh >= h * rw {
        let cw = (h * rw / rh) as u32;
        Geometry { x: (width - cw) / 2, y: 0, w: cw, h: height }
    } else {
        let ch = (w * rh / rw) as u32;
        Geometry { x: 0, y: (height - ch) / 2, w: width, h: ch }
    }
}

/// The ratio-fitting crop aligned at the end edge.
pub fn end_crop(width: u32, height: u32, ratio: &AspectRatio) -> (g: Geometry)
    requires
        ratio.valid(),
    ensures
        g == spec_end_crop(width, height, *ratio),
{
    proof {
        lemma_u32_products_fit(width, ratio.1);
        lemma_u32_products_fit(height, ratio.0);
        lemma_fit_bounds(width, height, *ratio);
    }
    let w = width as u64;
    let h = height as u64;
    let rw = ratio.0 as u64;
    let rh = ratio.1 as u64;
    if w * rh >= h * rw {
        let cw = (h * rw / rh) as u32;
        Geometry { x: width - cw, y: 0, w: cw, h: height }
    } else {
        let ch = (w * rh / rw) as u32;
        Geometry { x: 0, y: height - ch, w: width, h: ch }
    }
}

/// The ordered candidate crops for an image and ratio.
pub fn crop_candidates_for(width: u32, height: u32, ratio: &AspectRatio) -> (r: Vec<Geometry>)
    requires
        ratio.valid(),
    ensures
        r@ == spec_crop_candidates(width, height, *ratio),
{
    let mut r: Vec<Geometry> = Vec::new();
    r.push(start_crop(width, height, ratio));
    r.push(centered_crop(width, height, ratio));
    r.push(end_crop(width, height, ratio));
    proof {
        assert(r@ =~= spec_crop_candidates(width, height, *ratio));
    }
    r
}

} // verus!
