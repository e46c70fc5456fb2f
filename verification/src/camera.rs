//! The camera: from pixels to rays, from rays to colours, from colours to an
//! image.

use vstd::prelude::*;
use vstd::arithmetic::div_mod::lemma_fundamental_div_mod_converse;
use crate::canvas::canvas_height;
use crate::canvas::canvas_pixels;
use crate::canvas::canvas_width;
use crate::canvas::fits;
use crate::canvas::pixel_index;
use crate::canvas::Canvas;
use crate::color::encode;
use crate::color::write_color;
use crate::hittable::hit_record;
use crate::hittable::Hittable;
use crate::hittable_list::HittableList;
use crate::interval::Interval;
use crate::material::on_hemisphere;
use crate::ray::Ray;
use crate::sampler::drawn_direction;
use crate::sampler::drawn_directions;
use crate::sampler::half_open;
use crate::sampler::lemma_shifted_by_nothing;
use crate::sampler::lemma_shifted_twice;
use crate::sampler::seed_stream;
use crate::sampler::shifted;
use crate::sampler::most_tries;
use crate::sampler::Sampler;
use crate::scalar::fx_mul;
use crate::scalar::lemma_sqrt_unique;
use crate::scalar::sat;
use crate::scalar::Scalar;
use crate::vec3::lemma_unit_in_box;
use crate::vec3::Vec3;

verus! {

/// A pinhole camera. The image size, the number of samples for each pixel, the
/// bounce limit and the eye point are set by the user; `initialize` derives
/// the other fields from them.
#[derive(Clone, Copy, PartialEq, Eq, Structural, Debug)]
pub struct Camera {
    pub aspect_ratio: Scalar,
    pub width: usize,
    pub height: usize,
    pub camera_center: Vec3,
    pub pixel_delta_u: Vec3,
    pub pixel_delta_v: Vec3,
    pub pixel00_loc: Vec3,
    pub samples_per_pixel: usize,
    pub pixel_samples_scale: Scalar,
    pub max_depth: usize,
}

/// The colour white.
pub open spec fn spec_white() -> Vec3 {
    Vec3::new(Scalar::one(), Scalar::one(), Scalar::one())
}

/// The colour white.
#[verifier::when_used_as_spec(spec_white)]
pub fn white() -> (c: Vec3)
    ensures
        c == spec_white(),
{
    Vec3::new(Scalar::one(), Scalar::one(), Scalar::one())
}

/// The blue of the sky: the colour (0.5, 0.7, 1.0).
pub open spec fn spec_sky_blue() -> Vec3 {
    Vec3::new(Scalar::half(), Scalar { raw: 0xb333_3333 }, Scalar::one())
}

/// The blue of the sky.
#[verifier::when_used_as_spec(spec_sky_blue)]
pub fn sky_blue() -> (c: Vec3)
    ensures
        c == spec_sky_blue(),
{
    Vec3::new(Scalar::half(), Scalar::from_raw(0xb333_3333), Scalar::one())
}

/// The grey that halves a colour.
pub open spec fn spec_grey() -> Vec3 {
    Vec3::new(Scalar::half(), Scalar::half(), Scalar::half())
}

/// The grey that halves a colour.
#[verifier::when_used_as_spec(spec_grey)]
pub fn grey() -> (c: Vec3)
    ensures
        c == spec_grey(),
{
    Vec3::new(Scalar::half(), Scalar::half(), Scalar::half())
}

/// The colour of the sky at the height `t` of a unit direction: white at -1,
/// sky blue at 1, and the blend `(1 - a) * white + a * blue` with
/// `a = (t + 1) / 2` between them.
pub open spec fn spec_gradient(t: Scalar) -> Vec3 {
    let a = Scalar::half().times(t.plus(Scalar::one()));
    white().scaled(Scalar::one().minus(a)).plus(sky_blue().scaled(a))
}

/// Computes the colour of the sky at the height `t` of a unit direction.
#[verifier::when_used_as_spec(spec_gradient)]
pub fn gradient(t: Scalar) -> (c: Vec3)
    ensures
        c == spec_gradient(t),
{
    let a = Scalar::half().times(t.plus(Scalar::one()));
    white().scaled(Scalar::one().minus(a)).plus(sky_blue().scaled(a))
}

/// What a ray sees that strikes nothing: the sky at the height of its unit
/// direction. A ray without direction sees black.
pub open spec fn spec_background(r: Ray) -> Vec3 {
    if r.dir.is_zero() {
        Vec3::zero()
    } else {
        gradient(r.dir.unit().y)
    }
}

/// Computes what a ray sees that strikes nothing.
pub fn background(r: &Ray) -> (c: Vec3)
    ensures
        c == spec_background(*r),
{
    if r.direction().is_zero() {
        Vec3::zero()
    } else {
        let unit_direction = r.direction().unit();
        gradient(unit_direction.y)
    }
}

/// The first place where the ray strikes the scene, if it strikes at all.
pub open spec fn first_hit<H: Hittable + ?Sized>(world: &H, r: Ray) -> Option<hit_record> {
    match world.nearest(r, Scalar::zero()) {
        Some(h) => if h.t@ < i64::MAX {
            Some(h)
        } else {
            None
        },
        None => None,
    }
}

/// The colour that shows a normal: each component moved from `[-1, 1]` to
/// `[0, 1]`.
pub open spec fn spec_normal_shade(n: Vec3) -> Vec3 {
    Vec3::new(
        Scalar::half().times(n.x.plus(Scalar::one())),
        Scalar::half().times(n.y.plus(Scalar::one())),
        Scalar::half().times(n.z.plus(Scalar::one())),
    )
}

/// Computes the colour that shows a normal.
#[verifier::when_used_as_spec(spec_normal_shade)]
pub fn normal_shade(n: Vec3) -> (c: Vec3)
    ensures
        c == spec_normal_shade(n),
{
    Vec3::new(
        Scalar::half().times(n.x.plus(Scalar::one())),
        Scalar::half().times(n.y.plus(Scalar::one())),
        Scalar::half().times(n.z.plus(Scalar::one())),
    )
}

/// What becomes of the ray `r_in` at the hit `rec`, given the random
/// direction `sample`: the attenuation and the scattered ray, or `None` where
/// the ray is absorbed. The material of the surface decides. A surface
/// without material is matte and grey: it scatters into the hemisphere around
/// its normal and halves the light.
pub open spec fn spec_bounce(rec: hit_record, r_in: Ray, sample: Vec3) -> Option<(Vec3, Ray)> {
    match rec.mat {
        Some(m) => m.scattered(r_in, rec.contact(), sample),
        None => Some((grey(), Ray::new(rec.p, on_hemisphere(rec.normal, sample)))),
    }
}

/// Computes what becomes of the ray `r_in` at the hit `rec`.
pub fn bounce(rec: &hit_record, r_in: &Ray, sample: Vec3) -> (out: Option<(Vec3, Ray)>)
    ensures
        out == spec_bounce(*rec, *r_in, sample),
{
    match &rec.mat {
        Some(m) => {
            let at = rec.contact();
            m.scatter(r_in, &at, sample)
        },
        None => {
            let direction = on_hemisphere(rec.normal, sample);
            Some((grey(), Ray::new(rec.p, direction)))
        },
    }
}

/// The colour that the ray `r` brings back from the scene within `depth`
/// bounces, where `samples` holds the random direction drawn at each bounce.
/// With no bounce left it is black. A ray that strikes nothing brings back the
/// background. A ray that strikes a surface brings back what its scattered
/// ray brings back with one bounce less, attenuated; or black, where the
/// surface absorbs it.
pub open spec fn radiance<H: Hittable + ?Sized>(
    world: &H,
    r: Ray,
    depth: nat,
    samples: Seq<Vec3>,
) -> Vec3
    decreases depth,
{
    if depth == 0 {
        Vec3::zero()
    } else {
        match first_hit(world, r) {
            None => spec_background(r),
            Some(h) => match spec_bounce(h, r, samples[0]) {
                None => Vec3::zero(),
                Some((attenuation, scattered)) => attenuation.times(
                    radiance(world, scattered, (depth - 1) as nat, samples.skip(1)),
                ),
            },
        }
    }
}

/// Whether `offset` lies in the square of one pixel around its centre: from
/// -1/2 up to, not including, 1/2 along x and y, and 0 along z.
pub open spec fn in_pixel_square(offset: Vec3) -> bool {
    &&& -0x8000_0000 <= offset.x@ < 0x8000_0000
    &&& -0x8000_0000 <= offset.y@ < 0x8000_0000
    &&& offset.z@ == 0
}

/// The number of words that the path of the ray `r` takes from the stream
/// `words` within `depth` bounces: those of one direction at each surface
/// that it strikes.
pub open spec fn words_taken<H: Hittable + ?Sized>(
    world: &H,
    r: Ray,
    depth: nat,
    words: Map<nat, u32>,
) -> nat
    decreases depth,
{
    if depth == 0 {
        0
    } else {
        match first_hit(world, r) {
            None => 0,
            Some(h) => {
                let first = drawn_direction(words, most_tries());
                match spec_bounce(h, r, first.0) {
                    None => first.1,
                    Some((attenuation, scattered)) => first.1 + words_taken(
                        world,
                        scattered,
                        (depth - 1) as nat,
                        shifted(words, first.1),
                    ),
                }
            },
        }
    }
}

/// The offset in the pixel that the stream `words` gives: its next two
/// numbers along x and y, and 0 along z.
pub open spec fn jitter(words: Map<nat, u32>) -> Vec3 {
    Vec3::new(half_open(words[0]), half_open(words[1]), Scalar::zero())
}

/// What one sample ray of the pixel in column `i` of row `j` brings back
/// where the stream stands at `words`, and the number of words that the sample
/// takes: two for the offset in the pixel, then those of its path.
pub open spec fn sample_radiance<H: Hittable + ?Sized>(
    cam: Camera,
    world: &H,
    i: usize,
    j: usize,
    words: Map<nat, u32>,
) -> (Vec3, nat) {
    let r = cam.ray_through(i, j, jitter(words));
    let rest = shifted(words, 2);
    (
        radiance(world, r, cam.max_depth as nat, drawn_directions(rest, cam.max_depth as nat)),
        2 + words_taken(world, r, cam.max_depth as nat, rest),
    )
}

/// The colour `so_far` with what the next `samples` sample rays of the pixel
/// in column `i` of row `j` bring back added to it, one after the other,
/// where the stream stands at `words`; and the number of words that these
/// samples take.
pub open spec fn pixel_sum<H: Hittable + ?Sized>(
    cam: Camera,
    world: &H,
    i: usize,
    j: usize,
    words: Map<nat, u32>,
    samples: nat,
    so_far: Vec3,
) -> (Vec3, nat)
    decreases samples,
{
    if samples == 0 {
        (so_far, 0)
    } else {
        let first = sample_radiance(cam, world, i, j, words);
        let later = pixel_sum(
            cam,
            world,
            i,
            j,
            shifted(words, first.1),
            (samples - 1) as nat,
            so_far.plus(first.0),
        );
        (later.0, later.1 + first.1)
    }
}

/// The number of words that a render takes from the stream `words` before it
/// comes to the pixel in column `i` of row `j`: the words of all the pixels
/// of the rows above and of the pixels to the left in the same row. Column
/// `cam.width` of a row stands for the end of that row.
pub open spec fn words_before<H: Hittable + ?Sized>(
    cam: Camera,
    world: &H,
    words: Map<nat, u32>,
    i: nat,
    j: nat,
) -> nat
    decreases j, i,
{
    if i == 0 {
        if j == 0 {
            0
        } else {
            words_before(cam, world, words, cam.width as nat, (j - 1) as nat)
        }
    } else {
        let before = words_before(cam, world, words, (i - 1) as nat, j);
        before + pixel_sum(
            cam,
            world,
            (i - 1) as usize,
            j as usize,
            shifted(words, before),
            cam.samples_per_pixel as nat,
            Vec3::zero(),
        ).1
    }
}

/// The pixel in column `i` of row `j` of the image that a render makes of the
/// scene from the stream `words`: the bytes of the average of what the sample
/// rays of that pixel bring back.
pub open spec fn rendered_pixel<H: Hittable + ?Sized>(
    cam: Camera,
    world: &H,
    words: Map<nat, u32>,
    i: nat,
    j: nat,
) -> (u8, u8, u8) {
    encode(
        pixel_sum(
            cam,
            world,
            i as usize,
            j as usize,
            shifted(words, words_before(cam, world, words, i, j)),
            cam.samples_per_pixel as nat,
            Vec3::zero(),
        ).0.scaled(cam.pixel_samples_scale),
    )
}

/// Two streams from the same seed give the same image, pixel by pixel.
pub proof fn lemma_same_seed_same_pixels<H: Hittable + ?Sized>(
    cam: Camera,
    world: &H,
    seed: u64,
    one: Sampler,
    other: Sampler,
    i: nat,
    j: nat,
)
    requires
        one.stream() == seed_stream(seed),
        other.stream() == seed_stream(seed),
    ensures
        rendered_pixel(cam, world, one.stream(), i, j) == rendered_pixel(
            cam,
            world,
            other.stream(),
            i,
            j,
        ),
{
}

/// Two pixels of an image stand at different places, and every pixel stands
/// inside the image.
pub proof fn lemma_pixel_index_distinct(width: int, height: int, x: int, y: int, a: int, b: int)
    requires
        0 <= x < width,
        0 <= a < width,
        0 <= y < height,
        0 <= b < height,
    ensures
        0 <= pixel_index(width, x, y) < width * height,
        (x != a || y != b) ==> pixel_index(width, x, y) != pixel_index(width, a, b),
{
    assert(y * width + x < width * height) by (nonlinear_arith)
        requires
            0 <= x < width,
            0 <= y < height,
    ;
    assert(y * width >= 0) by (nonlinear_arith)
        requires
            0 <= y,
            0 <= width,
    ;
    if y < b {
        assert(y * width + x < b * width + a) by (nonlinear_arith)
            requires
                y + 1 <= b,
                0 <= x < width,
                0 <= a,
        ;
    } else if b < y {
        assert(b * width + a < y * width + x) by (nonlinear_arith)
            requires
                b + 1 <= y,
                0 <= a < width,
                0 <= x,
        ;
    }
}

/// The share `a = (t + 1) / 2` of sky blue in the colour of the sky at the
/// height `t`, as a raw count.
pub open spec fn blue_share(t: Scalar) -> int {
    Scalar::half().times(t.plus(Scalar::one()))@
}

/// One channel of the blend of white and a colour with the channel value `c`,
/// for the share `a` of that colour, as a raw count.
pub open spec fn blend(c: int, a: int) -> int {
    sat(fx_mul(0x1_0000_0000, sat(0x1_0000_0000 - a)) + fx_mul(c, a))
}

/// The blend of white and a colour that is not brighter than white does not
/// grow with the share of that colour.
proof fn lemma_blend_monotonic(c: int, a1: int, a2: int)
    requires
        0 <= c <= 0x1_0000_0000,
        -0x4000_0000_0000_0000 <= a1 <= a2 <= 0x4000_0000_0000_0000,
    ensures
        blend(c, a1) >= blend(c, a2),
{
    let one = 0x1_0000_0000int;
    assert(c * a2 <= c * a1 + one * (a2 - a1)) by (nonlinear_arith)
        requires
            0 <= c <= one,
            a1 <= a2,
    ;
    assert(-0x4000_0000_0000_0000 * one <= c * a1 && c * a2 <= 0x4000_0000_0000_0000 * one)
        by (nonlinear_arith)
        requires
            0 <= c <= one,
            -0x4000_0000_0000_0000 <= a1,
            a2 <= 0x4000_0000_0000_0000,
            one == 0x1_0000_0000,
    ;
    let q1 = (c * a1) / one;
    let q2 = (c * a2) / one;
    assert(q2 <= q1 + (a2 - a1));
    assert((one * (one - a1)) / one == one - a1);
    assert((one * (one - a2)) / one == one - a2);
}

/// The sky darkens upwards: where one unit direction points higher than
/// another, no channel of its colour is brighter.
pub proof fn lemma_gradient_monotonic(low: Scalar, high: Scalar)
    requires
        low@ <= high@,
    ensures
        spec_gradient(low).x@ >= spec_gradient(high).x@,
        spec_gradient(low).y@ >= spec_gradient(high).y@,
        spec_gradient(low).z@ >= spec_gradient(high).z@,
{
    let a1 = blue_share(low);
    let a2 = blue_share(high);
    assert(a1 <= a2);
    assert(spec_gradient(low).x@ == blend(0x8000_0000, a1));
    assert(spec_gradient(low).y@ == blend(0xb333_3333, a1));
    assert(spec_gradient(low).z@ == blend(0x1_0000_0000, a1));
    assert(spec_gradient(high).x@ == blend(0x8000_0000, a2));
    assert(spec_gradient(high).y@ == blend(0xb333_3333, a2));
    assert(spec_gradient(high).z@ == blend(0x1_0000_0000, a2));
    lemma_blend_monotonic(0x8000_0000, a1, a2);
    lemma_blend_monotonic(0xb333_3333, a1, a2);
    lemma_blend_monotonic(0x1_0000_0000, a1, a2);
}

/// Straight down the sky is white, straight up it is sky blue.
pub proof fn lemma_gradient_ends()
    ensures
        spec_gradient(Scalar::one().negated()) == white(),
        spec_gradient(Scalar::one()) == sky_blue(),
{
}

/// A ray that points straight down and strikes nothing sees white; one that
/// points straight up sees sky blue.
pub proof fn lemma_background_ends(r: Ray)
    requires
        r.dir.x@ == 0,
        r.dir.z@ == 0,
        r.dir.y@ != 0,
    ensures
        r.dir.y@ < 0 ==> spec_background(r) == white(),
        r.dir.y@ > 0 ==> spec_background(r) == sky_blue(),
{
    let y = r.dir.y@;
    let len = if y < 0 {
        -y
    } else {
        y
    };
    assert(r.dir.norm_sq() == len * len) by (nonlinear_arith)
        requires
            r.dir.norm_sq() == 0 * 0 + y * y + 0 * 0,
            len == y || len == -y,
    ;
    assert(len * len < (len + 1) * (len + 1)) by (nonlinear_arith)
        requires
            len >= 0,
    ;
    lemma_sqrt_unique(r.dir.norm_sq(), len);
    if y < 0 {
        assert(y * 0x1_0000_0000 == -0x1_0000_0000 * len + 0);
        lemma_fundamental_div_mod_converse(y * 0x1_0000_0000, len, -0x1_0000_0000, 0);
    } else {
        assert(y * 0x1_0000_0000 == 0x1_0000_0000 * len + 0);
        lemma_fundamental_div_mod_converse(y * 0x1_0000_0000, len, 0x1_0000_0000, 0);
    }
    lemma_gradient_ends();
}

/// Between straight down and straight up the sky lies between sky blue and
/// white in each channel.
pub proof fn lemma_gradient_range(t: Scalar)
    requires
        -0x1_0000_0000 <= t@ <= 0x1_0000_0000,
    ensures
        0x8000_0000 <= spec_gradient(t).x@ <= 0x1_0000_0000,
        0xb333_3333 <= spec_gradient(t).y@ <= 0x1_0000_0000,
        spec_gradient(t).z@ == 0x1_0000_0000,
{
    lemma_gradient_monotonic(Scalar::one().negated(), t);
    lemma_gradient_monotonic(t, Scalar::one());
    lemma_gradient_ends();
}

/// What a ray with a direction sees where it strikes nothing lies between
/// sky blue and white in each channel.
pub proof fn lemma_background_range(r: Ray)
    requires
        !r.dir.is_zero(),
    ensures
        0x8000_0000 <= spec_background(r).x@ <= 0x1_0000_0000,
        0xb333_3333 <= spec_background(r).y@ <= 0x1_0000_0000,
        spec_background(r).z@ == 0x1_0000_0000,
{
    lemma_unit_in_box(r.dir);
    lemma_gradient_range(r.dir.unit().y);
}

/// The distance between two raw counts.
pub open spec fn gap(a: int, b: int) -> int {
    if a <= b {
        b - a
    } else {
        a - b
    }
}

/// Two products with the same factor lie no farther apart than that factor is
/// large, where the other factors lie less than 1 apart.
proof fn lemma_product_gap(k: int, s1: int, s2: int)
    requires
        gap(s1, s2) < 0x1_0000_0000,
    ensures
        gap(fx_mul(k, s1), fx_mul(k, s2)) <= gap(k, 0),
{
    let one = 0x1_0000_0000int;
    let m = gap(k, 0);
    assert(k * s1 - k * s2 <= m * (one - 1) && k * s2 - k * s1 <= m * (one - 1))
        by (nonlinear_arith)
        requires
            gap(s1, s2) <= one - 1,
            m == gap(k, 0),
    ;
    let q1 = (k * s1) / one;
    let q2 = (k * s2) / one;
    assert(q1 - q2 <= m && q2 - q1 <= m);
}

/// One component of the direction of the ray of `spec_ray_through`, as a raw
/// count, from the same components of the camera's fields.
pub open spec fn direction_component(
    first: int,
    step_u: int,
    step_v: int,
    eye: int,
    along_u: int,
    along_v: int,
) -> int {
    sat(sat(sat(first + fx_mul(step_u, along_u)) + fx_mul(step_v, along_v)) - eye)
}

/// The same component for two samples of one pixel differs by no more than
/// the pixel steps are large.
proof fn lemma_component_gap(
    first: int,
    step_u: int,
    step_v: int,
    eye: int,
    u1: int,
    v1: int,
    u2: int,
    v2: int,
)
    requires
        gap(u1, u2) < 0x1_0000_0000,
        gap(v1, v2) < 0x1_0000_0000,
    ensures
        gap(
            direction_component(first, step_u, step_v, eye, u1, v1),
            direction_component(first, step_u, step_v, eye, u2, v2),
        ) <= gap(step_u, 0) + gap(step_v, 0),
{
    lemma_product_gap(step_u, u1, u2);
    lemma_product_gap(step_v, v1, v2);
}

/// All sample rays of one pixel start at the eye, and their directions differ
/// in each component by no more than the magnitudes of that component of the
/// two pixel steps together.
pub proof fn lemma_samples_stay_in_pixel(cam: Camera, i: usize, j: usize, o1: Vec3, o2: Vec3)
    requires
        in_pixel_square(o1),
        in_pixel_square(o2),
    ensures
        cam.ray_through(i, j, o1).orig == cam.camera_center,
        cam.ray_through(i, j, o2).orig == cam.camera_center,
        gap(cam.ray_through(i, j, o1).dir.x@, cam.ray_through(i, j, o2).dir.x@) <= gap(
            cam.pixel_delta_u.x@,
            0,
        ) + gap(cam.pixel_delta_v.x@, 0),
        gap(cam.ray_through(i, j, o1).dir.y@, cam.ray_through(i, j, o2).dir.y@) <= gap(
            cam.pixel_delta_u.y@,
            0,
        ) + gap(cam.pixel_delta_v.y@, 0),
        gap(cam.ray_through(i, j, o1).dir.z@, cam.ray_through(i, j, o2).dir.z@) <= gap(
            cam.pixel_delta_u.z@,
            0,
        ) + gap(cam.pixel_delta_v.z@, 0),
{
    let u1 = Scalar::from_count(i).plus(o1.x)@;
    let u2 = Scalar::from_count(i).plus(o2.x)@;
    let v1 = Scalar::from_count(j).plus(o1.y)@;
    let v2 = Scalar::from_count(j).plus(o2.y)@;
    assert(gap(u1, u2) < 0x1_0000_0000);
    assert(gap(v1, v2) < 0x1_0000_0000);
    let r1 = cam.ray_through(i, j, o1);
    let r2 = cam.ray_through(i, j, o2);
    assert(r1.dir.x@ == direction_component(
        cam.pixel00_loc.x@,
        cam.pixel_delta_u.x@,
        cam.pixel_delta_v.x@,
        cam.camera_center.x@,
        u1,
        v1,
    ));
    assert(r2.dir.x@ == direction_component(
        cam.pixel00_loc.x@,
        cam.pixel_delta_u.x@,
        cam.pixel_delta_v.x@,
        cam.camera_center.x@,
        u2,
        v2,
    ));
    assert(r1.dir.y@ == direction_component(
        cam.pixel00_loc.y@,
        cam.pixel_delta_u.y@,
        cam.pixel_delta_v.y@,
        cam.camera_center.y@,
        u1,
        v1,
    ));
    assert(r2.dir.y@ == direction_component(
        cam.pixel00_loc.y@,
        cam.pixel_delta_u.y@,
        cam.pixel_delta_v.y@,
        cam.camera_center.y@,
        u2,
        v2,
    ));
    assert(r1.dir.z@ == direction_component(
        cam.pixel00_loc.z@,
        cam.pixel_delta_u.z@,
        cam.pixel_delta_v.z@,
        cam.camera_center.z@,
        u1,
        v1,
    ));
    assert(r2.dir.z@ == direction_component(
        cam.pixel00_loc.z@,
        cam.pixel_delta_u.z@,
        cam.pixel_delta_v.z@,
        cam.camera_center.z@,
        u2,
        v2,
    ));
    lemma_component_gap(
        cam.pixel00_loc.x@,
        cam.pixel_delta_u.x@,
        cam.pixel_delta_v.x@,
        cam.camera_center.x@,
        u1,
        v1,
        u2,
        v2,
    );
    lemma_component_gap(
        cam.pixel00_loc.y@,
        cam.pixel_delta_u.y@,
        cam.pixel_delta_v.y@,
        cam.camera_center.y@,
        u1,
        v1,
        u2,
        v2,
    );
    lemma_component_gap(
        cam.pixel00_loc.z@,
        cam.pixel_delta_u.z@,
        cam.pixel_delta_v.z@,
        cam.camera_center.z@,
        u1,
        v1,
        u2,
        v2,
    );
}

/// With no bounce left a ray brings back black, whatever the scene holds.
pub proof fn lemma_no_bounce_is_black<H: Hittable + ?Sized>(world: &H, r: Ray, samples: Seq<Vec3>)
    ensures
        radiance(world, r, 0, samples) == Vec3::zero(),
{
}

/// In a scene without objects every ray brings back the background, exactly.
pub proof fn lemma_empty_scene_is_background(
    world: &HittableList,
    r: Ray,
    depth: nat,
    samples: Seq<Vec3>,
)
    requires
        world.objects@.len() == 0,
        depth > 0,
    ensures
        first_hit(world, r) is None,
        radiance(world, r, depth, samples) == spec_background(r),
{
}

impl Camera {
    /// A camera for a square image of 100 by 100 pixels with 10 samples for
    /// each pixel and at most 10 bounces, at the origin, not yet set up.
    pub fn new() -> (cam: Self)
        ensures
            cam.aspect_ratio == Scalar::one(),
            cam.width == 100,
            cam.height == 100,
            cam.samples_per_pixel == 10,
            cam.pixel_samples_scale == Scalar::one().over(Scalar::from_count(10)),
            cam.max_depth == 10,
            cam.camera_center == Vec3::zero(),
            cam.pixel_delta_u == Vec3::zero(),
            cam.pixel_delta_v == Vec3::zero(),
            cam.pixel00_loc == Vec3::zero(),
    {
        Self {
            aspect_ratio: Scalar::one(),
            width: 100,
            height: 100,
            samples_per_pixel: 10,
            pixel_samples_scale: Scalar::one().over(Scalar::from_count(10)),
            max_depth: 10,
            camera_center: Vec3::zero(),
            pixel_delta_u: Vec3::zero(),
            pixel_delta_v: Vec3::zero(),
            pixel00_loc: Vec3::zero(),
        }
    }

    /// Whether an image can be made with these settings: the image and the
    /// number of samples are not empty, each count is a whole number that a
    /// `Scalar` holds exactly, and the image fits into a buffer.
    pub open spec fn spec_usable(&self) -> bool {
        &&& 0 < self.width <= 0x7fff_ffff
        &&& 0 < self.height <= 0x7fff_ffff
        &&& 0 < self.samples_per_pixel <= 0x7fff_ffff
        &&& fits(self.width as u32, self.height as u32)
    }

    /// Decides whether an image can be made with these settings.
    #[verifier::when_used_as_spec(spec_usable)]
    pub fn usable(&self) -> (b: bool)
        ensures
            b == self.spec_usable(),
    {
        if self.width == 0 || self.width > 0x7fff_ffff || self.height == 0 || self.height
            > 0x7fff_ffff || self.samples_per_pixel == 0 || self.samples_per_pixel > 0x7fff_ffff {
            return false;
        }
        assert(0 <= 3 * self.width * self.height <= 3 * 0x7fff_ffff * 0x7fff_ffff)
            by (nonlinear_arith)
            requires
                0 <= self.width <= 0x7fff_ffff,
                0 <= self.height <= 0x7fff_ffff,
        ;
        let bytes: u128 = 3 * (self.width as u128) * (self.height as u128);
        bytes <= isize::MAX as u128
    }

    /// The height of the viewport: 2.
    pub open spec fn viewport_height() -> Scalar {
        Scalar::from_int(2)
    }

    /// The distance from the eye to the viewport: 1.
    pub open spec fn focal_length() -> Scalar {
        Scalar::one()
    }

    /// The vector along the top edge of the viewport, from left to right. Its
    /// length is the height of the viewport times the width of the image over
    /// its height.
    pub open spec fn viewport_u(&self) -> Vec3 {
        Vec3::new(
            Self::viewport_height().times(
                Scalar::from_count(self.width).over(Scalar::from_count(self.height)),
            ),
            Scalar::zero(),
            Scalar::zero(),
        )
    }

    /// The vector along the left edge of the viewport, from top to bottom.
    pub open spec fn viewport_v(&self) -> Vec3 {
        Vec3::new(Scalar::zero(), Self::viewport_height().negated(), Scalar::zero())
    }

    /// The camera after setup. The steps from pixel to pixel are the edges of
    /// the viewport divided by the size of the image; the centre of the first
    /// pixel lies half a step inside the upper left corner of the viewport,
    /// which stands at the focal length in front of the eye.
    pub open spec fn initialized(&self) -> Camera {
        let two = Scalar::from_int(2);
        let pixel_delta_u = self.viewport_u().divided(Scalar::from_count(self.width));
        let pixel_delta_v = self.viewport_v().divided(Scalar::from_count(self.height));
        let viewport_upper_left = self.camera_center.minus(self.viewport_u().divided(two)).minus(
            self.viewport_v().divided(two),
        ).minus(Vec3::new(Scalar::zero(), Scalar::zero(), Self::focal_length()));
        Camera {
            aspect_ratio: Scalar::from_count(self.width).over(Scalar::from_count(self.height)),
            width: self.width,
            height: self.height,
            camera_center: self.camera_center,
            pixel_delta_u,
            pixel_delta_v,
            pixel00_loc: viewport_upper_left.plus(pixel_delta_u.divided(two)).plus(
                pixel_delta_v.divided(two),
            ),
            samples_per_pixel: self.samples_per_pixel,
            pixel_samples_scale: Scalar::one().over(Scalar::from_count(self.samples_per_pixel)),
            max_depth: self.max_depth,
        }
    }

    /// Sets the camera up for its image size and sample count and hands out a
    /// black image of that size. Where the settings are not usable, the camera
    /// stays as it was and there is no image.
    pub fn initialize(&mut self) -> (img: Option<Canvas>)
        ensures
            img is Some <==> old(self).usable(),
            img is None ==> *final(self) == *old(self),
            img matches Some(c) ==> {
                &&& *final(self) == old(self).initialized()
                &&& canvas_width(c) == old(self).width
                &&& canvas_height(c) == old(self).height
                &&& canvas_pixels(c) == Seq::new(
                    (old(self).width * old(self).height) as nat,
                    |k: int| (0u8, 0u8, 0u8),
                )
            },
    {
        if !self.usable() {
            return None;
        }
        let img = Canvas::new(self.width as u32, self.height as u32);
        let two = Scalar::from_int(2);
        let width = Scalar::from_count(self.width);
        let height = Scalar::from_count(self.height);
        self.pixel_samples_scale = Scalar::one().over(Scalar::from_count(self.samples_per_pixel));
        self.aspect_ratio = width.over(height);
        let focal_length = Scalar::one();
        let viewport_height = two;
        let viewport_width = viewport_height.times(width.over(height));

        let viewport_u = Vec3::new(viewport_width, Scalar::zero(), Scalar::zero());
        let viewport_v = Vec3::new(Scalar::zero(), viewport_height.negated(), Scalar::zero());

        self.pixel_delta_u = viewport_u.divided(width);
        self.pixel_delta_v = viewport_v.divided(height);

        let viewport_upper_left = self.camera_center.minus(viewport_u.divided(two)).minus(
            viewport_v.divided(two),
        ).minus(Vec3::new(Scalar::zero(), Scalar::zero(), focal_length));
        self.pixel00_loc = viewport_upper_left.plus(self.pixel_delta_u.divided(two)).plus(
            self.pixel_delta_v.divided(two),
        );
        img
    }

    /// A random offset in the square of one pixel around its centre: the next
    /// two numbers of the stream along x and y, and 0 along z.
    pub fn sample_square(&self, rng: &mut Sampler) -> (offset: Vec3)
        ensures
            offset == jitter(old(rng).stream()),
            final(rng).follows(*old(rng), 2),
            in_pixel_square(offset),
    {
        let x = rng.centered();
        let y = rng.centered();
        proof {
            lemma_shifted_twice(old(rng).stream(), 1, 1);
        }
        Vec3::new(x, y, Scalar::zero())
    }

    /// The ray from the eye through the point that lies `offset` pixel steps
    /// from the centre of the pixel in column `i` of row `j`.
    pub open spec fn spec_ray_through(&self, i: usize, j: usize, offset: Vec3) -> Ray {
        let pixel_sample = self.pixel00_loc.plus(
            self.pixel_delta_u.scaled(Scalar::from_count(i).plus(offset.x)),
        ).plus(self.pixel_delta_v.scaled(Scalar::from_count(j).plus(offset.y)));
        Ray::new(self.camera_center, pixel_sample.minus(self.camera_center))
    }

    /// Computes the ray from the eye through a point of the pixel in column
    /// `i` of row `j`. The direction does not have length 1.
    #[verifier::when_used_as_spec(spec_ray_through)]
    pub fn ray_through(&self, i: usize, j: usize, offset: Vec3) -> (r: Ray)
        ensures
            r == self.spec_ray_through(i, j, offset),
            r.orig == self.camera_center,
    {
        let pixel_sample = self.pixel00_loc.plus(
            self.pixel_delta_u.scaled(Scalar::from_count(i).plus(offset.x)),
        ).plus(self.pixel_delta_v.scaled(Scalar::from_count(j).plus(offset.y)));
        let ray_origin = self.camera_center;
        let ray_direction = pixel_sample.minus(self.camera_center);
        Ray::new(ray_origin, ray_direction)
    }

    /// A ray from the eye through a random point of the pixel in column `i` of
    /// row `j`: the point at the offset that the next two numbers of the
    /// stream give.
    pub fn get_ray(&self, i: usize, j: usize, rng: &mut Sampler) -> (r: Ray)
        ensures
            r == self.ray_through(i, j, jitter(old(rng).stream())),
            final(rng).follows(*old(rng), 2),
            r.orig == self.camera_center,
            in_pixel_square(jitter(old(rng).stream())),
    {
        let offset = self.sample_square(rng);
        self.ray_through(i, j, offset)
    }

    /// The colour that the ray sees without any bounce: the shade of the
    /// normal where it strikes the scene, the background elsewhere.
    pub fn ray_color<H: Hittable + ?Sized>(&self, r: &Ray, world: &H) -> (c: Vec3)
        ensures
            c == match first_hit(world, *r) {
                Some(h) => normal_shade(h.normal),
                None => spec_background(*r),
            },
    {
        let mut rec = hit_record::empty();
        if world.hit(r, Interval::new(Scalar::zero(), Scalar::infinity()), &mut rec) {
            return normal_shade(rec.normal);
        }
        background(r)
    }

    /// The colour that the ray brings back from the scene within `depth`
    /// bounces, with one random direction drawn from `rng` at each surface
    /// that the path strikes. It is black with no bounce left, and the
    /// background where the ray strikes nothing.
    pub fn ray_color_diffuse<H: Hittable + ?Sized>(
        &self,
        r: &Ray,
        world: &H,
        depth: usize,
        rng: &mut Sampler,
    ) -> (c: Vec3)
        ensures
            c == radiance(
                world,
                *r,
                depth as nat,
                drawn_directions(old(rng).stream(), depth as nat),
            ),
            final(rng).follows(*old(rng), words_taken(world, *r, depth as nat, old(rng).stream())),
            depth == 0 ==> c == Vec3::zero(),
            depth > 0 && first_hit(world, *r) is None ==> c == spec_background(*r),
        decreases depth,
    {
        proof {
            rng.lemma_stream_is_total();
            lemma_shifted_by_nothing(rng.stream());
        }
        if depth == 0 {
            return Vec3::zero();
        }
        let mut rec = hit_record::empty();
        if world.hit(r, Interval::new(Scalar::zero(), Scalar::infinity()), &mut rec) {
            let ghost words = rng.stream();
            let ghost first = drawn_direction(words, most_tries());
            let ghost samples = drawn_directions(words, depth as nat);
            let sample = rng.unit_vector();
            assert(samples[0] == sample);
            assert(samples.skip(1) =~= drawn_directions(
                shifted(words, first.1),
                (depth - 1) as nat,
            ));
            match bounce(&rec, r, sample) {
                None => Vec3::zero(),
                Some((attenuation, scattered)) => {
                    let inner = self.ray_color_diffuse(&scattered, world, depth - 1, rng);
                    proof {
                        lemma_shifted_twice(
                            words,
                            first.1,
                            words_taken(
                                world,
                                scattered,
                                (depth - 1) as nat,
                                shifted(words, first.1),
                            ),
                        );
                    }
                    attenuation.times(inner)
                },
            }
        } else {
            background(r)
        }
    }

    /// Renders the scene: sets the camera up, then for each pixel, row by row
    /// and from left to right, sums what `samples_per_pixel` random rays
    /// through the pixel bring back within `max_depth` bounces, and writes
    /// the average to the image. The random numbers are drawn from `rng` in
    /// that order, so that the image is fixed by the camera, the scene and
    /// the stream. Where the settings are not usable, the camera and the
    /// stream stay as they were and there is no image.
    pub fn render<H: Hittable + ?Sized>(&mut self, world: &H, rng: &mut Sampler) -> (out: Option<
        Canvas,
    >)
        ensures
            out is Some <==> old(self).usable(),
            out is None ==> *final(self) == *old(self) && final(rng).stream() == old(rng).stream(),
            out matches Some(img) ==> {
                &&& *final(self) == old(self).initialized()
                &&& canvas_width(img) == old(self).width
                &&& canvas_height(img) == old(self).height
                &&& canvas_pixels(img).len() == old(self).width * old(self).height
                &&& forall|i: int, j: int|
                    0 <= i < old(self).width && 0 <= j < old(self).height ==> canvas_pixels(
                        img,
                    )[#[trigger] pixel_index(old(self).width as int, i, j)] == rendered_pixel(
                        *final(self),
                        world,
                        old(rng).stream(),
                        i as nat,
                        j as nat,
                    )
                &&& final(rng).follows(
                    *old(rng),
                    words_before(
                        *final(self),
                        world,
                        old(rng).stream(),
                        0,
                        old(self).height as nat,
                    ),
                )
            },
    {
        let mut img = match self.initialize() {
            None => {
                return None;
            },
            Some(img) => img,
        };
        let cam: Camera = *self;
        let ghost w = cam.width as int;
        let ghost h = cam.height as int;
        let ghost words = rng.stream();
        proof {
            rng.lemma_stream_is_total();
            lemma_shifted_by_nothing(words);
        }
        let mut j: usize = 0;
        while j < cam.height
            invariant
                cam.usable(),
                w == cam.width,
                h == cam.height,
                j <= cam.height,
                canvas_width(img) == cam.width,
                canvas_height(img) == cam.height,
                canvas_pixels(img).len() == w * h,
                rng.stream() == shifted(words, words_before(cam, world, words, 0, j as nat)),
                forall|a: int, b: int|
                    0 <= a < w && 0 <= b < j ==> canvas_pixels(img)[#[trigger] pixel_index(w, a, b)]
                        == rendered_pixel(cam, world, words, a as nat, b as nat),
            decreases cam.height - j,
        {
            let mut i: usize = 0;
            while i < cam.width
                invariant
                    cam.usable(),
                    w == cam.width,
                    h == cam.height,
                    j < cam.height,
                    i <= cam.width,
                    canvas_width(img) == cam.width,
                    canvas_height(img) == cam.height,
                    canvas_pixels(img).len() == w * h,
                    rng.stream() == shifted(
                        words,
                        words_before(cam, world, words, i as nat, j as nat),
                    ),
                    forall|a: int, b: int|
                        0 <= a < w && 0 <= b < j ==> canvas_pixels(img)[#[trigger] pixel_index(
                            w,
                            a,
                            b,
                        )] == rendered_pixel(cam, world, words, a as nat, b as nat),
                    forall|a: int|
                        0 <= a < i ==> canvas_pixels(img)[#[trigger] pixel_index(w, a, j as int)]
                            == rendered_pixel(cam, world, words, a as nat, j as nat),
                decreases cam.width - i,
            {
                let ghost before = words_before(cam, world, words, i as nat, j as nat);
                let ghost start = rng.stream();
                let ghost whole = pixel_sum(
                    cam,
                    world,
                    i,
                    j,
                    start,
                    cam.samples_per_pixel as nat,
                    Vec3::zero(),
                );
                let ghost mut used: nat = 0;
                proof {
                    rng.lemma_stream_is_total();
                    lemma_shifted_by_nothing(start);
                }
                let mut pixel_color = Vec3::zero();
                let mut sample: usize = 0;
                while sample < cam.samples_per_pixel
                    invariant
                        sample <= cam.samples_per_pixel,
                        rng.stream() == shifted(start, used),
                        whole.0 == pixel_sum(
                            cam,
                            world,
                            i,
                            j,
                            rng.stream(),
                            (cam.samples_per_pixel - sample) as nat,
                            pixel_color,
                        ).0,
                        whole.1 == pixel_sum(
                            cam,
                            world,
                            i,
                            j,
                            rng.stream(),
                            (cam.samples_per_pixel - sample) as nat,
                            pixel_color,
                        ).1 + used,
                    decreases cam.samples_per_pixel - sample,
                {
                    let ghost here = rng.stream();
                    let r = cam.get_ray(i, j, rng);
                    let c = cam.ray_color_diffuse(&r, world, cam.max_depth, rng);
                    proof {
                        let first = sample_radiance(cam, world, i, j, here);
                        assert(first.0 == c);
                        lemma_shifted_twice(here, 2, (first.1 - 2) as nat);
                        assert(rng.stream() == shifted(here, first.1));
                        lemma_shifted_twice(start, used, first.1);
                        used = used + first.1;
                    }
                    pixel_color = pixel_color.plus(c);
                    sample += 1;
                }
                let ghost pixels_before = canvas_pixels(img);
                write_color(pixel_color.scaled(cam.pixel_samples_scale), &mut img, i, j);
                proof {
                    assert(pixel_color == whole.0);
                    assert(used == whole.1);
                    lemma_shifted_twice(words, before, used);
                    assert(words_before(cam, world, words, (i + 1) as nat, j as nat) == before
                        + used);
                    lemma_pixel_index_distinct(w, h, i as int, j as int, i as int, j as int);
                    assert(canvas_pixels(img)[pixel_index(w, i as int, j as int)]
                        == rendered_pixel(cam, world, words, i as nat, j as nat));
                    assert forall|a: int, b: int| 0 <= a < w && 0 <= b < j implies canvas_pixels(
                        img,
                    )[#[trigger] pixel_index(w, a, b)] == rendered_pixel(
                        cam,
                        world,
                        words,
                        a as nat,
                        b as nat,
                    ) by {
                        lemma_pixel_index_distinct(w, h, a, b, i as int, j as int);
                        assert(canvas_pixels(img)[pixel_index(w, a, b)] == pixels_before[pixel_index(
                            w,
                            a,
                            b,
                        )]);
                    }
                    assert forall|a: int| 0 <= a < i + 1 implies canvas_pixels(
                        img,
                    )[#[trigger] pixel_index(w, a, j as int)] == rendered_pixel(
                        cam,
                        world,
                        words,
                        a as nat,
                        j as nat,
                    ) by {
                        lemma_pixel_index_distinct(w, h, a, j as int, i as int, j as int);
                        if a < i {
                            assert(canvas_pixels(img)[pixel_index(w, a, j as int)]
                                == pixels_before[pixel_index(w, a, j as int)]);
                        }
                    }
                }
                i += 1;
            }
            proof {
                assert(words_before(cam, world, words, 0, (j + 1) as nat) == words_before(
                    cam,
                    world,
                    words,
                    cam.width as nat,
                    j as nat,
                ));
            }
            j += 1;
        }
        Some(img)
    }
}

} // verus!
