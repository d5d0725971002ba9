//! Scaling decoded images into a square box for thumbnails.

use crate::imaging::{image_bytes, image_color, image_dimensions, image_parts, image_size, image_thumbnail, thumbnail_of};
use image::DynamicImage;
use vstd::prelude::*;

verus! {

/// The thumbnail sampler's output fits in memory for a `w` x `h` box.
pub open spec fn box_fits_memory(w: u32, h: u32) -> bool {
    16 * ((if w == 0 { 1 } else { w as int }) * (if h == 0 { 1 } else { h as int })) <= usize::MAX
}

/// Whether the thumbnail sampler's output for a `w` x `h` box fits in memory.
pub fn thumbnail_box_fits(w: u32, h: u32) -> (r: bool)
    ensures
        r == box_fits_memory(w, h),
{
    let a: u128 = if w == 0 {
        1
    } else {
        w as u128
    };
    let b: u128 = if h == 0 {
        1
    } else {
        h as u128
    };
    assert(a * b <= 0xffff_ffff_ffff_ffffu128) by (nonlinear_arith)
        requires
            a <= 0xffff_ffffu128,
            b <= 0xffff_ffffu128,
    ;
    16 * (a * b) <= usize::MAX as u128
}

/// Scales the image to the largest size of its aspect ratio that fits a
/// `width` x `height` box (up or down).
pub fn thumbnail(img: &DynamicImage, width: u32, height: u32) -> (t: DynamicImage)
    requires
        box_fits_memory(width, height),
    ensures
        image_parts(t) == thumbnail_of(image_color(*img), image_size(*img), image_bytes(*img), width, height),
{
    image_thumbnail(img, width, height)
}

/// Leaves an image that fits a `max_dim` x `max_dim` box as it is, and
/// shrinks a larger one into that box.
pub fn fit_within(img: DynamicImage, max_dim: u32) -> (out: DynamicImage)
    requires
        image_size(img).0 > max_dim || image_size(img).1 > max_dim ==> box_fits_memory(max_dim, max_dim),
    ensures
        image_size(img).0 > max_dim || image_size(img).1 > max_dim ==> image_parts(out) == thumbnail_of(
            image_color(img),
            image_size(img),
            image_bytes(img),
            max_dim,
            max_dim,
        ),
        !(image_size(img).0 > max_dim || image_size(img).1 > max_dim) ==> out == img,
{
    let (w, h) = image_dimensions(&img);
    if w > max_dim || h > max_dim {
        image_thumbnail(&img, max_dim, max_dim)
    } else {
        img
    }
}

} // verus!
