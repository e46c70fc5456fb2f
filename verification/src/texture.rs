//! Textures: colours as a function of surface coordinates and position.

use vstd::prelude::*;
use std::sync::Arc;
use crate::scalar::Scalar;
use crate::vec3::Vec3;

verus! {

/// A colour for every surface coordinate `(u, v)` and point `p`.
#[allow(non_camel_case_types)]
pub trait texture {
    /// The colour at `(u, v)` and `p`.
    spec fn color(&self, u: Scalar, v: Scalar, p: Vec3) -> Vec3;

    /// Computes the colour at `(u, v)` and `p`.
    fn value(&self, u: Scalar, v: Scalar, p: &Vec3) -> (c: Vec3)
        ensures
            c == self.color(u, v, *p),
    ;
}

/// The same colour everywhere.
#[allow(non_camel_case_types)]
pub struct solid_color {
    pub albedo: Vec3,
}

impl solid_color {
    /// The texture that is `c` everywhere.
    pub fn new(c: Vec3) -> (s: Self)
        ensures
            s.albedo == c,
    {
        Self { albedo: c }
    }

    /// The texture that is the colour `(r, g, b)` everywhere.
    pub fn new_from_rgb(r: Scalar, g: Scalar, b: Scalar) -> (s: Self)
        ensures
            s.albedo == Vec3::new(r, g, b),
    {
        Self { albedo: Vec3::new(r, g, b) }
    }
}

impl texture for solid_color {
    open spec fn color(&self, u: Scalar, v: Scalar, p: Vec3) -> Vec3 {
        self.albedo
    }

    fn value(&self, u: Scalar, v: Scalar, p: &Vec3) -> (c: Vec3) {
        self.albedo
    }
}

/// A chessboard in space: cubes of side `1 / inv_scale` that show one texture
/// and the other in turn.
#[allow(non_camel_case_types)]
pub struct checker_texture<E: texture + ?Sized, O: texture + ?Sized> {
    pub inv_scale: Scalar,
    pub even: Arc<E>,
    pub odd: Arc<O>,
}

/// The inverse of the side of a cube: `1 / scale`, and the largest number for
/// the side 0.
pub open spec fn spec_inverse_scale(scale: Scalar) -> Scalar {
    if scale@ == 0 {
        Scalar::infinity()
    } else {
        Scalar::one().over(scale)
    }
}

/// Computes the inverse of the side of a cube.
#[verifier::when_used_as_spec(spec_inverse_scale)]
pub fn inverse_scale(scale: Scalar) -> (inv: Scalar)
    ensures
        inv == spec_inverse_scale(scale),
{
    if scale.raw == 0 {
        Scalar::infinity()
    } else {
        Scalar::one().over(scale)
    }
}

/// Whether the point `p` lies in a cube that shows the even texture: the
/// whole parts of its three scaled coordinates add up to an even number.
pub open spec fn spec_in_even_cell(inv_scale: Scalar, p: Vec3) -> bool {
    (inv_scale.times(p.x).floor() + inv_scale.times(p.y).floor() + inv_scale.times(p.z).floor())
        % 2 == 0
}

/// Decides whether the point `p` lies in a cube that shows the even texture.
#[verifier::when_used_as_spec(spec_in_even_cell)]
pub fn in_even_cell(inv_scale: Scalar, p: Vec3) -> (b: bool)
    ensures
        b == spec_in_even_cell(inv_scale, p),
{
    let xinteger: i64 = inv_scale.times(p.x).floor();
    let yinteger: i64 = inv_scale.times(p.y).floor();
    let zinteger: i64 = inv_scale.times(p.z).floor();
    let sum: i64 = xinteger + yinteger + zinteger;
    if sum >= 0 {
        sum % 2 == 0
    } else {
        (-sum) % 2 == 0
    }
}

impl<E: texture + ?Sized, O: texture + ?Sized> checker_texture<E, O> {
    /// The chessboard with cubes of side `scale` that shows `even` and `odd`.
    pub fn new(scale: Scalar, even: Arc<E>, odd: Arc<O>) -> (t: Self)
        ensures
            t.inv_scale == inverse_scale(scale),
            t.even == even,
            t.odd == odd,
    {
        Self { inv_scale: inverse_scale(scale), even, odd }
    }
}

impl checker_texture<solid_color, solid_color> {
    /// The chessboard with cubes of side `scale` in the colours `c1` and `c2`.
    pub fn new_from_colors(scale: Scalar, c1: Vec3, c2: Vec3) -> (t: Self)
        ensures
            t.inv_scale == inverse_scale(scale),
            t.even.albedo == c1,
            t.odd.albedo == c2,
    {
        Self {
            inv_scale: inverse_scale(scale),
            even: Arc::new(solid_color::new(c1)),
            odd: Arc::new(solid_color::new(c2)),
        }
    }
}

impl<E: texture + ?Sized, O: texture + ?Sized> texture for checker_texture<E, O> {
    open spec fn color(&self, u: Scalar, v: Scalar, p: Vec3) -> Vec3 {
        if in_even_cell(self.inv_scale, p) {
            self.even.color(u, v, p)
        } else {
            self.odd.color(u, v, p)
        }
    }

    fn value(&self, u: Scalar, v: Scalar, p: &Vec3) -> (c: Vec3) {
        let iseven = in_even_cell(self.inv_scale, *p);
        if iseven {
            self.even.value(u, v, p)
        } else {
            self.odd.value(u, v, p)
        }
    }
}

/// The intensity that a byte stands for: the byte divided by 255, so that 0
/// is 0 and 255 is 1.
pub open spec fn spec_byte_intensity(byte: u8) -> Scalar {
    Scalar::from_count(byte as usize).over(Scalar::from_count(255))
}

/// Computes the intensity that a byte stands for.
#[verifier::when_used_as_spec(spec_byte_intensity)]
pub fn byte_intensity(byte: u8) -> (s: Scalar)
    ensures
        s == spec_byte_intensity(byte),
        0 <= s@ <= 0x1_0000_0000,
        byte == 0 ==> s == Scalar::zero(),
        byte == 255 ==> s == Scalar::one(),
{
    Scalar::from_count(byte as usize).over(Scalar::from_count(255))
}

/// The column or row of an image with `count` columns or rows that the
/// coordinate `at` in `[0, 1]` falls into: the whole part of `at * count`,
/// moved to the nearest edge where it falls outside.
pub open spec fn spec_texel_index(at: Scalar, count: u32) -> int
    recommends
        count > 0,
{
    let raw = at.times(Scalar::from_count(count as usize)).floor();
    if raw < 0 {
        0
    } else if raw >= count {
        count - 1
    } else {
        raw as int
    }
}

/// Computes the column or row that a coordinate falls into.
pub fn texel_index(at: Scalar, count: u32) -> (k: usize)
    requires
        count > 0,
    ensures
        k == spec_texel_index(at, count),
        k < count,
{
    let raw: i64 = at.times(Scalar::from_count(count as usize)).floor();
    if raw < 0 {
        0
    } else if raw >= count as i64 {
        (count - 1) as usize
    } else {
        raw as usize
    }
}

/// The colour of an image at the surface coordinates `(u, v)`, where `data`
/// holds three bytes for each pixel, row after row from the top: cyan for an
/// image without data; else the pixel in the column that `u` falls into and
/// in the row that `1 - v` falls into, each byte divided by 255.
pub open spec fn texel(data: Seq<u8>, width: u32, height: u32, u: Scalar, v: Scalar) -> Vec3 {
    if data.len() == 0 {
        Vec3::new(Scalar::zero(), Scalar::one(), Scalar::one())
    } else {
        let i = spec_texel_index(u, width);
        let j = spec_texel_index(Scalar::one().minus(v), height);
        let pixel_index = 3 * i + 3 * width * j;
        Vec3::new(
            byte_intensity(data[pixel_index]),
            byte_intensity(data[pixel_index + 1]),
            byte_intensity(data[pixel_index + 2]),
        )
    }
}

/// Whether `data` can be the bytes of an image of the given size: three for
/// each pixel at least, and none for an image without pixels.
pub open spec fn is_image(data: Seq<u8>, width: u32, height: u32) -> bool {
    &&& 3 * width * height <= data.len()
    &&& data.len() > 0 ==> width > 0 && height > 0
}

/// A picture laid over a surface.
#[allow(non_camel_case_types)]
pub struct image_texture {
    data: Vec<u8>,
    width: u32,
    height: u32,
    bytes_per_pixel: u32,
    bytes_per_scanline: usize,
}

impl image_texture {
    #[verifier::type_invariant]
    spec fn well_formed(&self) -> bool {
        &&& is_image(self.data@, self.width, self.height)
        &&& self.bytes_per_pixel == 3
        &&& self.data@.len() > 0 ==> self.bytes_per_scanline == 3 * self.width
    }

    /// The bytes of the picture.
    pub closed spec fn bytes(&self) -> Seq<u8> {
        self.data@
    }

    /// The number of pixels in a row of the picture.
    pub closed spec fn columns(&self) -> u32 {
        self.width
    }

    /// The number of rows of the picture.
    pub closed spec fn rows(&self) -> u32 {
        self.height
    }

    /// The texture that shows the picture with the given size and bytes, three
    /// bytes for each pixel, row after row from the top; or `None` where the
    /// bytes cannot be those of such a picture.
    pub fn new(width: u32, height: u32, data: Vec<u8>) -> (t: Option<Self>)
        ensures
            t is Some <==> is_image(data@, width, height),
            t matches Some(img) ==> img.bytes() == data@ && img.columns() == width && img.rows()
                == height,
    {
        let bytes_per_pixel: u32 = 3;
        assert(0 <= 3 * width * height <= 3 * 0xffff_ffff * 0xffff_ffff) by (nonlinear_arith)
            requires
                0 <= width <= 0xffff_ffff,
                0 <= height <= 0xffff_ffff,
        ;
        let needed: u128 = 3 * (width as u128) * (height as u128);
        if needed > data.len() as u128 {
            return None;
        }
        if data.len() == 0 {
            return Some(Self { data, width, height, bytes_per_pixel, bytes_per_scanline: 0 });
        }
        if width == 0 || height == 0 {
            return None;
        }
        assert(3 * width <= 3 * width * height) by (nonlinear_arith)
            requires
                height >= 1,
                width >= 0,
        ;
        let bytes_per_scanline: usize = (bytes_per_pixel as usize) * (width as usize);
        Some(Self { data, width, height, bytes_per_pixel, bytes_per_scanline })
    }
}

impl texture for image_texture {
    closed spec fn color(&self, u: Scalar, v: Scalar, p: Vec3) -> Vec3 {
        texel(self.data@, self.width, self.height, u, v)
    }

    fn value(&self, u: Scalar, v: Scalar, p: &Vec3) -> (c: Vec3)
        ensures
            c == texel(self.bytes(), self.columns(), self.rows(), u, v),
    {
        proof {
            use_type_invariant(self);
        }
        if self.data.len() == 0 {
            return Vec3::new(Scalar::zero(), Scalar::one(), Scalar::one());
        }
        let u2 = u;
        let v2 = Scalar::one().minus(v);
        let i: usize = texel_index(u2, self.width);
        let j: usize = texel_index(v2, self.height);
        assert(3 * i + 3 * self.width * j + 2 < 3 * self.width * self.height) by (nonlinear_arith)
            requires
                0 <= i < self.width,
                0 <= j < self.height,
        ;
        assert(3 * self.width * j == self.bytes_per_scanline * j) by (nonlinear_arith)
            requires
                self.bytes_per_scanline == 3 * self.width,
        ;
        assert(0 <= 3 * self.width * j) by (nonlinear_arith)
            requires
                0 <= j,
                0 <= self.width,
        ;
        let pixel_index: usize = self.bytes_per_pixel as usize * i + self.bytes_per_scanline * j;
        let r = byte_intensity(self.data[pixel_index]);
        let g = byte_intensity(self.data[pixel_index + 1]);
        let b = byte_intensity(self.data[pixel_index + 2]);
        Vec3::new(r, g, b)
    }
}

} // verus!
