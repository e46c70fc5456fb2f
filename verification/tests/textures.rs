use raytracer::canvas::Canvas;
use raytracer::color::{channel_byte, encode, intensity, write_color};
use raytracer::interval::Interval;
use raytracer::scalar::Scalar;
use raytracer::texture::{
    byte_intensity, checker_texture, image_texture, in_even_cell, inverse_scale, solid_color,
    texel_index, texture,
};
use raytracer::vec3::Vec3;
use std::sync::Arc;

const FULL: i64 = 1 << 32;

fn num(v: i32) -> Scalar {
    Scalar::from_int(v)
}

fn triple(x: i32, y: i32, z: i32) -> Vec3 {
    Vec3::new(num(x), num(y), num(z))
}

fn tenths(k: i32) -> Scalar {
    num(k).over(num(10))
}

struct Stripes;

impl texture for Stripes {
    fn color(&self, _u: Scalar, _v: Scalar, _p: Vec3) -> Vec3 {
        unreachable!()
    }

    fn value(&self, u: Scalar, _v: Scalar, _p: &Vec3) -> Vec3 {
        Vec3::new(u, u, u)
    }
}

#[test]
fn solid_color_is_the_same_everywhere() {
    let t = solid_color::new(triple(1, 2, 3));
    assert_eq!(t.albedo, triple(1, 2, 3));
    assert_eq!(t.value(num(0), num(0), &triple(0, 0, 0)), triple(1, 2, 3));
    assert_eq!(t.value(num(1), Scalar::half(), &triple(9, -9, 9)), triple(1, 2, 3));
    let rgb = solid_color::new_from_rgb(Scalar::half(), num(0), num(1));
    assert_eq!(rgb.albedo, Vec3::new(Scalar::half(), num(0), num(1)));
    assert_eq!(rgb.value(num(0), num(0), &triple(0, 0, 0)), Vec3::new(Scalar::half(), num(0), num(1)));
}

#[test]
fn checker_inverse_scale() {
    assert_eq!(inverse_scale(num(2)), Scalar::half());
    assert_eq!(inverse_scale(num(1)), num(1));
    assert_eq!(inverse_scale(Scalar::half()), num(2));
    assert_eq!(inverse_scale(num(0)), Scalar::infinity());
    assert_eq!(inverse_scale(num(-4)).raw, -FULL / 4);
}

#[test]
fn checker_cells_alternate() {
    let one = num(1);
    assert!(in_even_cell(one, triple(0, 0, 0)));
    assert!(!in_even_cell(one, triple(1, 0, 0)));
    assert!(in_even_cell(one, triple(1, 1, 0)));
    assert!(!in_even_cell(one, triple(1, 1, 1)));
    assert!(!in_even_cell(one, triple(-1, 0, 0)));
    assert!(in_even_cell(one, triple(-1, -1, 0)));
    assert!(in_even_cell(one, triple(-2, 0, 0)));
    let just_below = Vec3::new(Scalar::from_raw(-1), num(0), num(0));
    assert!(!in_even_cell(one, just_below));
    let half = Scalar::half();
    assert!(in_even_cell(half, triple(1, 0, 0)));
    assert!(!in_even_cell(half, triple(2, 0, 0)));
    assert!(!in_even_cell(half, triple(3, 0, 0)));
}

#[test]
fn checker_texture_picks_even_or_odd() {
    let t = checker_texture::new_from_colors(num(1), triple(1, 1, 1), triple(0, 0, 0));
    assert_eq!(t.inv_scale, num(1));
    assert_eq!(t.even.albedo, triple(1, 1, 1));
    assert_eq!(t.odd.albedo, triple(0, 0, 0));
    assert_eq!(t.value(num(0), num(0), &triple(0, 0, 0)), triple(1, 1, 1));
    assert_eq!(t.value(num(0), num(0), &triple(1, 0, 0)), triple(0, 0, 0));
    assert_eq!(t.value(num(0), num(0), &triple(1, 0, 1)), triple(1, 1, 1));
    assert_eq!(t.value(num(0), num(0), &triple(0, -1, 0)), triple(0, 0, 0));
}

#[test]
fn checker_texture_of_other_textures() {
    let even: Arc<dyn texture> = Arc::new(Stripes);
    let odd: Arc<dyn texture> = Arc::new(solid_color::new(triple(7, 7, 7)));
    let t = checker_texture::new(num(2), even, odd);
    assert_eq!(t.inv_scale, Scalar::half());
    assert_eq!(t.value(num(3), num(0), &triple(0, 0, 0)), triple(3, 3, 3));
    assert_eq!(t.value(num(3), num(0), &triple(1, 1, 1)), triple(3, 3, 3));
    assert_eq!(t.value(num(3), num(0), &triple(2, 0, 0)), triple(7, 7, 7));
    let nested = checker_texture::new(num(1), Arc::new(t), Arc::new(Stripes));
    assert_eq!(nested.value(num(5), num(0), &triple(2, 0, 0)), triple(7, 7, 7));
    assert_eq!(nested.value(num(5), num(0), &triple(1, 0, 0)), triple(5, 5, 5));
}

#[test]
fn checker_texture_with_side_zero() {
    let t = checker_texture::new_from_colors(num(0), triple(1, 1, 1), triple(0, 0, 0));
    assert_eq!(t.inv_scale, Scalar::infinity());
    assert_eq!(t.value(num(0), num(0), &triple(0, 0, 0)), triple(1, 1, 1));
    // Each coordinate saturates to the largest whole number, an odd one.
    assert_eq!(t.value(num(0), num(0), &triple(1, 0, 0)), triple(0, 0, 0));
}

#[test]
fn texel_index_clamps_to_the_edges() {
    assert_eq!(texel_index(num(0), 4), 0);
    assert_eq!(texel_index(tenths(3), 4), 1);
    assert_eq!(texel_index(Scalar::half(), 4), 2);
    assert_eq!(texel_index(Scalar::from_raw(FULL - 1), 4), 3);
    assert_eq!(texel_index(num(1), 4), 3);
    assert_eq!(texel_index(num(5), 4), 3);
    assert_eq!(texel_index(num(-1), 4), 0);
    assert_eq!(texel_index(Scalar::from_raw(-1), 4), 0);
    assert_eq!(texel_index(Scalar::half(), 1), 0);
    assert_eq!(texel_index(num(1), u32::MAX), 0x7fff_ffff);
}

fn two_by_two() -> image_texture {
    // Row 0: red, green. Row 1: blue, white.
    let data: Vec<u8> = vec![255, 0, 0, 0, 255, 0, 0, 0, 255, 255, 255, 255];
    match image_texture::new(2, 2, data) {
        Some(t) => t,
        None => panic!("a 2 by 2 picture with 12 bytes is a picture"),
    }
}

#[test]
fn image_texture_looks_up_pixels_with_v_flipped() {
    let t = two_by_two();
    let full = num(1);
    let p = triple(0, 0, 0);
    // v near 1 is the top row, v near 0 the bottom row.
    assert_eq!(t.value(num(0), num(1), &p), Vec3::new(full, num(0), num(0)));
    assert_eq!(t.value(tenths(7), num(1), &p), Vec3::new(num(0), full, num(0)));
    assert_eq!(t.value(num(0), num(0), &p), Vec3::new(num(0), num(0), full));
    assert_eq!(t.value(tenths(7), tenths(2), &p), Vec3::new(full, full, full));
    assert_eq!(t.value(tenths(2), tenths(7), &p), Vec3::new(full, num(0), num(0)));
}

#[test]
fn image_texture_clamps_out_of_range_coordinates() {
    let t = two_by_two();
    let full = num(1);
    let p = triple(0, 0, 0);
    assert_eq!(t.value(num(-3), num(5), &p), Vec3::new(full, num(0), num(0)));
    assert_eq!(t.value(num(9), num(5), &p), Vec3::new(num(0), full, num(0)));
    assert_eq!(t.value(num(-3), num(-5), &p), Vec3::new(num(0), num(0), full));
    assert_eq!(t.value(num(9), num(-5), &p), Vec3::new(full, full, full));
    assert_eq!(t.value(num(1), num(1), &p), Vec3::new(num(0), full, num(0)));
}

#[test]
fn image_texture_divides_bytes_by_255() {
    let data: Vec<u8> = vec![128, 1, 0, 255, 254, 127];
    let t = image_texture::new(2, 1, data).unwrap();
    let c = t.value(num(0), Scalar::half(), &triple(0, 0, 0));
    assert_eq!(c.x.raw, 2155905152);
    assert_eq!(c.y.raw, 16843009);
    assert_eq!(c.z.raw, 0);
    let c = t.value(num(1), Scalar::half(), &triple(0, 0, 0));
    assert_eq!(c.x.raw, FULL);
    assert_eq!(c.y.raw, 4278124286);
    assert_eq!(c.z.raw, 2139062143);
    assert_eq!(byte_intensity(0), num(0));
    assert_eq!(byte_intensity(255), num(1));
    assert_eq!(byte_intensity(51).raw, FULL / 5);
}

#[test]
fn image_texture_of_four_colours() {
    let t = two_by_two();
    let p = triple(0, 0, 0);
    let quarter = Scalar::from_raw(FULL / 4);
    let three_quarters = Scalar::from_raw(3 * (FULL / 4));
    assert_eq!(t.value(quarter, three_quarters, &p), triple(1, 0, 0));
    assert_eq!(t.value(three_quarters, three_quarters, &p), triple(0, 1, 0));
    assert_eq!(t.value(quarter, quarter, &p), triple(0, 0, 1));
    assert_eq!(t.value(three_quarters, quarter, &p), triple(1, 1, 1));
    assert_eq!(t.value(num(1), num(0), &p), triple(1, 1, 1));
    assert_eq!(t.value(num(-3), num(2), &p), triple(1, 0, 0));
}

#[test]
fn image_texture_without_data_is_cyan() {
    let t = image_texture::new(0, 0, Vec::new()).unwrap();
    assert_eq!(t.value(Scalar::half(), Scalar::half(), &triple(0, 0, 0)), triple(0, 1, 1));
    let t = image_texture::new(0, 7, Vec::new()).unwrap();
    assert_eq!(t.value(num(0), num(1), &triple(1, 2, 3)), triple(0, 1, 1));
}

#[test]
fn image_texture_refuses_bytes_that_are_no_picture() {
    assert!(image_texture::new(2, 2, vec![0; 11]).is_none());
    assert!(image_texture::new(2, 2, vec![0; 12]).is_some());
    assert!(image_texture::new(2, 2, vec![0; 13]).is_some());
    assert!(image_texture::new(0, 2, vec![0; 3]).is_none());
    assert!(image_texture::new(2, 0, vec![0; 3]).is_none());
    assert!(image_texture::new(1, 1, Vec::new()).is_none());
    assert!(image_texture::new(u32::MAX, u32::MAX, vec![0; 16]).is_none());
}

#[test]
fn image_texture_ignores_bytes_behind_the_picture() {
    let data: Vec<u8> = vec![255, 255, 255, 9, 9, 9, 9];
    let t = image_texture::new(1, 1, data).unwrap();
    let full = num(1);
    assert_eq!(t.value(num(1), num(0), &triple(0, 0, 0)), Vec3::new(full, full, full));
}

#[test]
fn channel_bytes() {
    assert_eq!(intensity(), Interval::new(num(0), Scalar::from_raw(FULL - 1)));
    assert_eq!(channel_byte(num(0)), 0);
    assert_eq!(channel_byte(num(1)), 255);
    assert_eq!(channel_byte(Scalar::half()), 128);
    assert_eq!(channel_byte(num(-1)), 0);
    assert_eq!(channel_byte(num(7)), 255);
    assert_eq!(channel_byte(Scalar::from_raw(FULL / 256)), 1);
    assert_eq!(channel_byte(Scalar::from_raw(FULL / 256 - 1)), 0);
    assert_eq!(channel_byte(Scalar::from_raw(FULL - 1)), 255);
    assert_eq!(encode(Vec3::new(num(0), Scalar::half(), num(1))), (0, 128, 255));
}

#[test]
fn canvas_starts_black() {
    let c = Canvas::new(3, 2).unwrap();
    assert_eq!(c.into_raw(), vec![0u8; 18]);
    let none = Canvas::new(0, 5).unwrap();
    assert_eq!(none.into_raw(), Vec::<u8>::new());
}

#[test]
fn canvas_refuses_sizes_that_do_not_fit() {
    assert!(Canvas::new(u32::MAX, u32::MAX).is_none());
    assert!(Canvas::new(1, 1).is_some());
}

#[test]
fn canvas_pixels_stand_row_after_row() {
    let mut c = Canvas::new(3, 2).unwrap();
    let grey = |k: i64| Scalar::from_raw(k * (FULL / 256));
    write_color(Vec3::new(grey(1), grey(2), grey(3)), &mut c, 1, 0);
    write_color(Vec3::new(grey(4), grey(5), grey(6)), &mut c, 2, 1);
    write_color(Vec3::new(grey(7), grey(8), grey(9)), &mut c, 0, 1);
    let bytes = c.into_raw();
    assert_eq!(bytes, vec![0, 0, 0, 1, 2, 3, 0, 0, 0, 7, 8, 9, 0, 0, 0, 4, 5, 6]);
}

#[test]
fn write_color_encodes_and_places_the_pixel() {
    let mut c = Canvas::new(2, 2).unwrap();
    write_color(Vec3::new(num(1), Scalar::half(), num(0)), &mut c, 1, 1);
    write_color(Vec3::new(num(-1), num(9), Scalar::from_raw(FULL / 256)), &mut c, 0, 1);
    let bytes = c.into_raw();
    assert_eq!(bytes, vec![0, 0, 0, 0, 0, 0, 0, 255, 1, 255, 128, 0]);
}
