//! The calls into the `image` crate that the library's logic makes.

use image::{DynamicImage, GenericImageView, ImageBuffer, ImageFormat, ImageReader, Rgb};
use std::io::Cursor;
use vstd::prelude::*;

verus! {

#[verifier::external_type_specification]
#[verifier::external_body]
pub struct ExDynamicImage(image::DynamicImage);

/// The bytes of the buffer an image holds, as `DynamicImage::as_bytes`
/// gives them (the whole stored buffer, row-major subpixels).
pub uninterp spec fn image_bytes(img: DynamicImage) -> Seq<u8>;

/// The width and height an image was made with, as `DynamicImage::width`
/// and `DynamicImage::height` give them.
pub uninterp spec fn image_size(img: DynamicImage) -> (u32, u32);

/// The image's pixel format: the position of its variant in the declaration
/// of `DynamicImage` (0 `ImageLuma8`, 1 `ImageLumaA8`, 2 `ImageRgb8`,
/// 3 `ImageRgba8`, 4 `ImageLuma16`, 5 `ImageLumaA16`, 6 `ImageRgb16`,
/// 7 `ImageRgba16`, 8 `ImageRgb32F`, 9 `ImageRgba32F`).
pub uninterp spec fn image_color(img: DynamicImage) -> u8;

/// The pixel format code of 8-bit RGB (`ImageRgb8`).
pub open spec fn color_rgb8() -> u8 {
    2
}

/// The image holds 8-bit RGB pixels.
pub open spec fn image_is_rgb8(img: DynamicImage) -> bool {
    image_color(img) == color_rgb8()
}

/// An image as plain values: pixel format, size, buffer bytes.
pub open spec fn image_parts(img: DynamicImage) -> (u8, (u32, u32), Seq<u8>) {
    (image_color(img), image_size(img), image_bytes(img))
}

/// What `image`'s BMP decoder makes of these bytes: `None` when it refuses
/// them, else the pixel format, size and bytes of the decoded image.
pub uninterp spec fn bmp_decoded(data: Seq<u8>) -> Option<(u8, (u32, u32), Seq<u8>)>;

/// What `DynamicImage::thumbnail(nwidth, nheight)` makes of an image given
/// by its pixel format, size and bytes: the image scaled (by its integer
/// block-averaging sampler) to the largest size of the same aspect ratio
/// that fits the `nwidth` x `nheight` box, as format, size and bytes.
pub uninterp spec fn thumbnail_of(color: u8, size: (u32, u32), bytes: Seq<u8>, nwidth: u32, nheight: u32) -> (
    u8,
    (u32, u32),
    Seq<u8>,
);

/// `ImageReader::with_format(Cursor::new(data), ImageFormat::Bmp).decode()`,
/// with the error dropped. The decoder reads nothing but the bytes it is
/// given, so its outcome is a function of them (`bmp_decoded`): whether it
/// succeeds, and the pixel format, size and bytes of the image it returns.
#[verifier::external_body]
pub fn decode_bmp(data: &[u8]) -> (res: Option<DynamicImage>)
    ensures
        res is Some <==> bmp_decoded(data@) is Some,
        res matches Some(img) ==> bmp_decoded(data@) == Some(image_parts(img)),
{
    ImageReader::with_format(Cursor::new(data), ImageFormat::Bmp).decode().ok()
}

/// `ImageBuffer::<Rgb<u8>, Vec<u8>>::from_raw`, wrapped as a `DynamicImage`.
/// Its source returns `Some` exactly when `3 * width * height` (computed
/// with overflow checks) is at most the buffer's length; the buffer it
/// then stores is `buf` itself, with the given width and height, and
/// `as_bytes` hands that buffer back; the image is the `ImageRgb8` variant.
#[verifier::external_body]
pub fn rgb8_image_from_raw(width: u32, height: u32, buf: Vec<u8>) -> (res: Option<DynamicImage>)
    ensures
        res is Some <==> 3 * width * height <= buf@.len(),
        res matches Some(img) ==> image_bytes(img) == buf@ && image_size(img) == (width, height)
            && image_color(img) == color_rgb8(),
{
    match ImageBuffer::<Rgb<u8>, Vec<u8>>::from_raw(width, height, buf) {
        Some(img) => Some(DynamicImage::ImageRgb8(img)),
        None => None,
    }
}

/// `GenericImageView::dimensions` of a `DynamicImage`: its width and height.
#[verifier::external_body]
pub(crate) fn image_dimensions(img: &DynamicImage) -> (d: (u32, u32))
    ensures
        d == image_size(*img),
{
    img.dimensions()
}

/// `DynamicImage::thumbnail`: the result is named (`thumbnail_of`) as a
/// function of the image's format, size and bytes and of the box. The
/// sampler allocates the output, whose sides are at most `max(nwidth, 1)`
/// and `max(nheight, 1)`, with up to 16 bytes a pixel; that allocation
/// panics when its length overflows `usize`, which `requires` rules out
/// (a sufficient bound: the exact output size is computed in floating
/// point).
#[verifier::external_body]
pub(crate) fn image_thumbnail(img: &DynamicImage, nwidth: u32, nheight: u32) -> (t: DynamicImage)
    requires
        16 * ((if nwidth == 0 { 1 } else { nwidth as int }) * (if nheight == 0 { 1 } else { nheight as int })) <= usize::MAX,
    ensures
        image_parts(t) == thumbnail_of(image_color(*img), image_size(*img), image_bytes(*img), nwidth, nheight),
{
    img.thumbnail(nwidth, nheight)
}

} // verus!
