//! The raster that a render fills: an 8-bit RGB image buffer.

use vstd::prelude::*;

verus! {

/// An `image::RgbImage`: rows of pixels of three bytes each, red, green and
/// blue. Its contents are known only through the three names below and the
/// functions that state their results over them.
#[verifier::external_body]
pub struct Canvas {
    img: image::RgbImage,
}

/// The number of pixels in a row of the buffer.
pub uninterp spec fn canvas_width(c: Canvas) -> u32;

/// The number of rows of the buffer.
pub uninterp spec fn canvas_height(c: Canvas) -> u32;

/// The pixels of the buffer, row after row from the top, each row from the
/// left: the pixel in column `x` of row `y` stands at `y * width + x`.
pub uninterp spec fn canvas_pixels(c: Canvas) -> Seq<(u8, u8, u8)>;

/// The place of the pixel in column `x` of row `y` among the pixels of a
/// buffer that is `width` wide.
pub open spec fn pixel_index(width: int, x: int, y: int) -> int {
    y * width + x
}

/// Calls `image::ImageBuffer::new`, which makes a buffer of the given size
/// with every byte 0. It panics where the byte count overflows; the bound
/// keeps the count within what a vector can hold.
#[verifier::external_body]
fn blank(width: u32, height: u32) -> (c: Canvas)
    requires
        3 * width * height <= isize::MAX,
    ensures
        canvas_width(c) == width,
        canvas_height(c) == height,
        canvas_pixels(c) == Seq::new((width * height) as nat, |k: int| (0u8, 0u8, 0u8)),
{
    Canvas { img: image::ImageBuffer::new(width, height) }
}

/// Calls `image::ImageBuffer::put_pixel`, which overwrites the pixel in column
/// `x` of row `y` and leaves the others and the size as they were. It panics
/// outside the buffer.
#[verifier::external_body]
pub(crate) fn put(c: &mut Canvas, x: u32, y: u32, rgb: (u8, u8, u8))
    requires
        x < canvas_width(*old(c)),
        y < canvas_height(*old(c)),
    ensures
        canvas_width(*final(c)) == canvas_width(*old(c)),
        canvas_height(*final(c)) == canvas_height(*old(c)),
        canvas_pixels(*final(c)) == canvas_pixels(*old(c)).update(
            pixel_index(canvas_width(*old(c)) as int, x as int, y as int),
            rgb,
        ),
{
    c.img.put_pixel(x, y, image::Rgb([rgb.0, rgb.1, rgb.2]))
}

/// Calls `image::ImageBuffer::into_raw`, which hands out the bytes of the
/// buffer: at least three for each pixel, those of pixel `k` from `3 * k` on.
#[verifier::external_body]
fn raw_bytes(c: Canvas) -> (bytes: Vec<u8>)
    ensures
        bytes@.len() >= 3 * canvas_width(c) * canvas_height(c),
        forall|k: int|
            0 <= k < canvas_width(c) * canvas_height(c) ==> (#[trigger] canvas_pixels(c)[k]) == (
                bytes@[3 * k],
                bytes@[3 * k + 1],
                bytes@[3 * k + 2],
            ),
{
    c.img.into_raw()
}

/// Whether a buffer of this size can be made: its byte count must not exceed
/// what a vector can hold.
pub open spec fn fits(width: u32, height: u32) -> bool {
    3 * width * height <= isize::MAX
}

impl Canvas {
    /// A black buffer of the given size, or `None` where the size does not
    /// fit.
    pub fn new(width: u32, height: u32) -> (c: Option<Canvas>)
        ensures
            c is Some <==> fits(width, height),
            c matches Some(img) ==> {
                &&& canvas_width(img) == width
                &&& canvas_height(img) == height
                &&& canvas_pixels(img) == Seq::new((width * height) as nat, |k: int| (0u8, 0u8, 0u8))
            },
    {
        assert(0 <= 3 * width * height <= 3 * 0xffff_ffff * 0xffff_ffff) by (nonlinear_arith)
            requires
                0 <= width <= 0xffff_ffff,
                0 <= height <= 0xffff_ffff,
        ;
        let bytes: u128 = 3 * (width as u128) * (height as u128);
        if bytes <= isize::MAX as u128 {
            Some(blank(width, height))
        } else {
            None
        }
    }

    /// The bytes of the buffer: three for each pixel, in the order of the
    /// pixels, and possibly more behind them.
    pub fn into_raw(self) -> (bytes: Vec<u8>)
        ensures
            bytes@.len() >= 3 * canvas_width(self) * canvas_height(self),
            forall|k: int|
                0 <= k < canvas_width(self) * canvas_height(self) ==> (#[trigger] canvas_pixels(
                    self,
                )[k]) == (bytes@[3 * k], bytes@[3 * k + 1], bytes@[3 * k + 2]),
    {
        raw_bytes(self)
    }
}

} // verus!
