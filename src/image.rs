//! The `bmp` image that a render fills, as Verus sees it: a map from pixel
//! coordinates to RGB triples, with the image's width and height.
use vstd::prelude::*;

verus! {

/// `bmp::Pixel`: three public `u8` channels, read by Verus as they stand.
#[verifier::external_type_specification]
pub struct ExPixel(bmp::Pixel);

/// `bmp::Image`: a pixel buffer whose fields are private.
#[verifier::external_type_specification]
#[verifier::external_body]
pub struct ExImage(bmp::Image);

/// The pixels of an image, by `(x, y)` with `(0, 0)` in the upper left corner,
/// as `(r, g, b)`.
pub uninterp spec fn image_pixels(img: bmp::Image) -> Map<(u32, u32), (u8, u8, u8)>;

/// The width the image was made with.
pub uninterp spec fn image_width(img: bmp::Image) -> u32;

/// The height the image was made with.
pub uninterp spec fn image_height(img: bmp::Image) -> u32;

/// Relies on `bmp::Pixel::new`, which builds the pixel from its three channels.
pub assume_specification[ bmp::Pixel::new ](r: u8, g: u8, b: u8) -> (p: bmp::Pixel)
    ensures
        p.r == r,
        p.g == g,
        p.b == b,
;

/// Relies on `bmp::Image::set_pixel`, which stores `val` at `(x, y)` in a buffer
/// of `width * height` pixels and leaves every other pixel as it was. It indexes
/// the buffer with `u32` arithmetic, and panics outside the image.
pub assume_specification[ bmp::Image::set_pixel ](img: &mut bmp::Image, x: u32, y: u32, val: bmp::Pixel)
    requires
        x < image_width(*old(img)),
        y < image_height(*old(img)),
        image_width(*old(img)) * image_height(*old(img)) <= u32::MAX,
    ensures
        image_width(*final(img)) == image_width(*old(img)),
        image_height(*final(img)) == image_height(*old(img)),
        image_pixels(*final(img)) == image_pixels(*old(img)).insert((x, y), (val.r, val.g, val.b)),
;

} // verus!
