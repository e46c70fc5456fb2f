use raytracer::interval::Interval;
use raytracer::ray::Ray;
use raytracer::scalar::{floor_div, isqrt, saturate, wide_product, Scalar, ONE_RAW};
use raytracer::vec3::Vec3;

const ONE: i64 = 1 << 32;

fn n(v: i32) -> Scalar {
    Scalar::from_int(v)
}

fn v3(x: i32, y: i32, z: i32) -> Vec3 {
    Vec3::new(n(x), n(y), n(z))
}

#[test]
fn scalar_constants() {
    assert_eq!(ONE_RAW, ONE);
    assert_eq!(Scalar::zero().raw, 0);
    assert_eq!(Scalar::one().raw, ONE);
    assert_eq!(Scalar::half().raw, ONE / 2);
    assert_eq!(Scalar::infinity().raw, i64::MAX);
    assert_eq!(Scalar::from_raw(17).raw, 17);
    assert_eq!(n(3).raw, 3 * ONE);
    assert_eq!(n(-3).raw, -3 * ONE);
    assert_eq!(n(i32::MIN).raw, i64::MIN);
    assert_eq!(n(i32::MAX).raw, 0x7fff_ffff * ONE);
}

#[test]
fn scalar_from_count_saturates() {
    assert_eq!(Scalar::from_count(0).raw, 0);
    assert_eq!(Scalar::from_count(255).raw, 255 * ONE);
    assert_eq!(Scalar::from_count(0x7fff_ffff).raw, 0x7fff_ffff * ONE);
    assert_eq!(Scalar::from_count(0x8000_0000).raw, i64::MAX);
    assert_eq!(Scalar::from_count(usize::MAX).raw, i64::MAX);
}

#[test]
fn scalar_sum_and_difference_saturate() {
    assert_eq!(n(2).plus(n(3)), n(5));
    assert_eq!(n(2).minus(n(3)), n(-1));
    assert_eq!(Scalar::from_raw(i64::MAX).plus(Scalar::one()).raw, i64::MAX);
    assert_eq!(Scalar::from_raw(i64::MIN).plus(Scalar::from_raw(-1)).raw, i64::MIN);
    assert_eq!(Scalar::from_raw(i64::MIN).minus(Scalar::one()).raw, i64::MIN);
    assert_eq!(Scalar::from_raw(i64::MAX).minus(Scalar::from_raw(-1)).raw, i64::MAX);
}

#[test]
fn scalar_negation_saturates_at_the_smallest_number() {
    assert_eq!(n(7).negated(), n(-7));
    assert_eq!(Scalar::zero().negated(), Scalar::zero());
    assert_eq!(Scalar::from_raw(i64::MIN).negated().raw, i64::MAX);
    assert_eq!(Scalar::from_raw(i64::MAX).negated().raw, i64::MIN + 1);
}

#[test]
fn scalar_product_rounds_down() {
    assert_eq!(n(6).times(n(7)), n(42));
    assert_eq!(Scalar::half().times(Scalar::half()).raw, ONE / 4);
    assert_eq!(Scalar::from_raw(1).times(Scalar::half()).raw, 0);
    assert_eq!(Scalar::from_raw(-1).times(Scalar::half()).raw, -1);
    assert_eq!(n(-3).times(n(5)), n(-15));
    assert_eq!(n(0x7fff_ffff).times(n(2)).raw, i64::MAX);
    assert_eq!(n(0x7fff_ffff).times(n(-3)).raw, i64::MIN);
}

#[test]
fn scalar_quotient_rounds_down() {
    assert_eq!(n(42).over(n(7)), n(6));
    assert_eq!(Scalar::one().over(n(4)).raw, ONE / 4);
    assert_eq!(Scalar::one().over(n(3)).raw, 1431655765);
    assert_eq!(n(-1).over(n(3)).raw, -1431655766);
    assert_eq!(Scalar::one().over(n(-3)).raw, -1431655766);
    assert_eq!(n(-1).over(n(-3)).raw, 1431655765);
    assert_eq!(Scalar::one().over(n(10)).raw, 429496729);
    assert_eq!(n(7).over(n(10)).raw, 0xb333_3333);
    assert_eq!(n(0x7fff_ffff).over(Scalar::from_raw(1)).raw, i64::MAX);
    assert_eq!(n(-5).over(Scalar::from_raw(1)).raw, i64::MIN);
}

#[test]
fn scalar_square_root_rounds_down() {
    assert_eq!(n(4).sqrt(), n(2));
    assert_eq!(n(0).sqrt(), n(0));
    assert_eq!(n(2).sqrt().raw, 6074000999);
    assert_eq!(Scalar::from_raw(ONE / 4).sqrt().raw, ONE / 2);
    let big = Scalar::from_raw(i64::MAX).sqrt();
    assert!((big.raw as i128) * (big.raw as i128) <= (i64::MAX as i128) << 32);
    assert!((big.raw as i128 + 1) * (big.raw as i128 + 1) > (i64::MAX as i128) << 32);
}

#[test]
fn scalar_floor() {
    assert_eq!(n(5).plus(Scalar::half()).floor(), 5);
    assert_eq!(n(-5).plus(Scalar::half()).floor(), -5);
    assert_eq!(Scalar::from_raw(-1).floor(), -1);
    assert_eq!(Scalar::from_raw(i64::MAX).floor(), 0x7fff_ffff);
    assert_eq!(Scalar::from_raw(i64::MIN).floor(), -0x8000_0000);
}

#[test]
fn wide_arithmetic_helpers() {
    assert_eq!(saturate(5), 5);
    assert_eq!(saturate(i64::MAX as i128 + 1), i64::MAX);
    assert_eq!(saturate(i64::MIN as i128 - 1), i64::MIN);
    assert_eq!(floor_div(7, 2), 3);
    assert_eq!(floor_div(-7, 2), -4);
    assert_eq!(floor_div(-8, 2), -4);
    assert_eq!(floor_div(-1, 5), -1);
    assert_eq!(floor_div(0, 5), 0);
    assert_eq!(wide_product(i64::MIN, i64::MIN, 1), 1i128 << 126);
    assert_eq!(wide_product(-3, 5, 2), -8);
    assert_eq!(isqrt(0), 0);
    assert_eq!(isqrt(15), 3);
    assert_eq!(isqrt(16), 4);
    assert_eq!(isqrt(u128::MAX), u64::MAX);
}

#[test]
fn vector_arithmetic() {
    assert_eq!(Vec3::zero(), v3(0, 0, 0));
    assert!(Vec3::zero().is_zero());
    assert!(!v3(0, 0, 1).is_zero());
    assert_eq!(v3(1, 2, 3).plus(v3(4, 5, 6)), v3(5, 7, 9));
    assert_eq!(v3(1, 2, 3).minus(v3(4, 5, 6)), v3(-3, -3, -3));
    assert_eq!(v3(1, -2, 3).negated(), v3(-1, 2, -3));
    assert_eq!(v3(1, 2, 3).scaled(n(2)), v3(2, 4, 6));
    assert_eq!(v3(2, 4, 6).divided(n(2)), v3(1, 2, 3));
    assert_eq!(v3(1, 2, 3).times(v3(4, 5, 6)), v3(4, 10, 18));
    assert_eq!(v3(1, 2, 3).dot(v3(4, 5, 6)), n(32));
    assert_eq!(v3(1, 0, 0).dot(v3(0, 1, 0)), n(0));
}

#[test]
fn vector_dot_rounds_each_product_down() {
    let tiny = Vec3::new(Scalar::from_raw(1), Scalar::from_raw(1), Scalar::from_raw(-1));
    let halves = Vec3::new(Scalar::half(), Scalar::half(), Scalar::half());
    assert_eq!(tiny.dot(halves).raw, -1);
}

#[test]
fn vector_length_and_unit() {
    assert_eq!(v3(3, 4, 0).length(), n(5));
    assert_eq!(v3(0, 0, 0).length(), n(0));
    let u = v3(3, 4, 0).unit();
    assert_eq!(u.x.raw, 2576980377);
    assert_eq!(u.y.raw, 3435973836);
    assert_eq!(u.z.raw, 0);
    assert_eq!(v3(0, -2, 0).unit(), v3(0, -1, 0));
    assert_eq!(v3(0, 0, 7).unit(), v3(0, 0, 1));
    let far = Vec3::new(
        Scalar::from_raw(i64::MIN),
        Scalar::from_raw(i64::MIN),
        Scalar::from_raw(i64::MAX),
    );
    let f = far.unit();
    assert!(-ONE <= f.x.raw && f.x.raw <= ONE);
    assert!(-ONE <= f.y.raw && f.y.raw <= ONE);
    assert!(-ONE <= f.z.raw && f.z.raw <= ONE);
    assert!(f.x.raw < 0 && f.z.raw > 0);
    assert_eq!(far.length().raw, i64::MAX);
}

#[test]
fn interval_membership() {
    let i = Interval::new(n(1), n(3));
    assert_eq!(i.min, n(1));
    assert_eq!(i.max, n(3));
    assert!(i.contains(n(1)));
    assert!(i.contains(n(3)));
    assert!(i.contains(n(2)));
    assert!(!i.contains(n(4)));
    assert!(!i.surrounds(n(1)));
    assert!(!i.surrounds(n(3)));
    assert!(i.surrounds(n(2)));
    assert!(!i.surrounds(n(0)));
}

#[test]
fn interval_clamp_and_enclose() {
    let i = Interval::new(n(1), n(3));
    assert_eq!(i.clamp(n(0)), n(1));
    assert_eq!(i.clamp(n(2)), n(2));
    assert_eq!(i.clamp(n(9)), n(3));
    let e = Interval::empty();
    assert!(!e.contains(n(0)));
    assert!(!e.contains(Scalar::from_raw(i64::MAX)));
    assert_eq!(e.enclose(i), i);
    assert_eq!(i.enclose(Interval::new(n(-2), n(2))), Interval::new(n(-2), n(3)));
    let backwards = Interval::new(n(3), n(1));
    assert!(!backwards.contains(n(2)));
    assert!(!backwards.surrounds(n(2)));
}

#[test]
fn ray_accessors_and_points() {
    let r = Ray::new(v3(1, 2, 3), v3(0, 0, -1));
    assert_eq!(r.origin(), v3(1, 2, 3));
    assert_eq!(r.direction(), v3(0, 0, -1));
    assert_eq!(r.time(), n(0));
    assert_eq!(r.at(n(2)), v3(1, 2, 1));
    assert_eq!(r.at(n(0)), v3(1, 2, 3));
    assert_eq!(r.at(Scalar::half()).z.raw, 5 * ONE / 2);
    let timed = Ray::new_with_time(v3(0, 0, 0), v3(1, 1, 1), n(4));
    assert_eq!(timed.time(), n(4));
    assert_eq!(timed.at(n(-3)), v3(-3, -3, -3));
    let long = Ray::new(v3(0, 0, 0), v3(2, 0, 0));
    assert_eq!(long.at(n(3)), v3(6, 0, 0));
}
