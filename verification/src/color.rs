//! From linear colours to the bytes of the raster.

use vstd::prelude::*;
use crate::canvas::canvas_height;
use crate::canvas::canvas_pixels;
use crate::canvas::canvas_width;
use crate::canvas::pixel_index;
use crate::canvas::put;
use crate::canvas::Canvas;
use crate::interval::Interval;
use crate::scalar::Scalar;
use crate::vec3::Vec3;

verus! {

/// The range of intensities that a byte can show: from 0 to just below 1.
pub open spec fn spec_intensity() -> Interval {
    Interval { min: Scalar { raw: 0 }, max: Scalar { raw: 0xffff_ffff } }
}

/// The range of intensities that a byte can show.
#[verifier::when_used_as_spec(spec_intensity)]
pub fn intensity() -> (i: Interval)
    ensures
        i == spec_intensity(),
{
    Interval::new(Scalar::zero(), Scalar::from_raw(0xffff_ffff))
}

/// The byte for one channel: the intensity, clamped to the range from 0 to
/// just below 1, times 256, rounded down.
pub open spec fn spec_channel_byte(c: Scalar) -> u8 {
    (intensity().clamp(c)@ / 0x100_0000) as u8
}

/// Computes the byte for one channel.
#[verifier::when_used_as_spec(spec_channel_byte)]
pub fn channel_byte(c: Scalar) -> (b: u8)
    ensures
        b == spec_channel_byte(c),
{
    let clamped = intensity().clamp(c);
    (clamped.raw / 0x100_0000) as u8
}

/// The three bytes of a colour.
pub open spec fn spec_encode(color: Vec3) -> (u8, u8, u8) {
    (channel_byte(color.x), channel_byte(color.y), channel_byte(color.z))
}

/// Computes the three bytes of a colour.
#[verifier::when_used_as_spec(spec_encode)]
pub fn encode(color: Vec3) -> (rgb: (u8, u8, u8))
    ensures
        rgb == spec_encode(color),
{
    (channel_byte(color.x), channel_byte(color.y), channel_byte(color.z))
}

/// Writes a colour to the pixel in column `i` of row `j`.
pub fn write_color(pixel_color: Vec3, img: &mut Canvas, i: usize, j: usize)
    requires
        i < canvas_width(*old(img)),
        j < canvas_height(*old(img)),
    ensures
        canvas_width(*final(img)) == canvas_width(*old(img)),
        canvas_height(*final(img)) == canvas_height(*old(img)),
        canvas_pixels(*final(img)) == canvas_pixels(*old(img)).update(
            pixel_index(canvas_width(*old(img)) as int, i as int, j as int),
            encode(pixel_color),
        ),
{
    put(img, i as u32, j as u32, encode(pixel_color));
}

} // verus!
