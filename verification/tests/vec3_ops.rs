use rayutils::fixed::{HALF, ONE, TWO};
use rayutils::ray::Ray;
use rayutils::vec3::Vec3;

#[test]
fn componentwise_arithmetic() {
    let a = Vec3::new(ONE, TWO, -ONE);
    let b = Vec3::new(HALF, -HALF, HALF);
    assert_eq!(a.add(b), Vec3::new(1_500_000, 1_500_000, -HALF));
    assert_eq!(a.sub(b), Vec3::new(HALF, 2_500_000, -1_500_000));
    assert_eq!(a.mul(b), Vec3::new(HALF, -ONE, -HALF));
    assert_eq!(a.scale(TWO), Vec3::new(TWO, 4 * ONE, -TWO));
    assert_eq!(a.div_scalar(TWO), Vec3::new(HALF, ONE, -HALF));
    assert_eq!(a.neg(), Vec3::new(-ONE, -TWO, ONE));
}

#[test]
fn dot_and_cross_products() {
    let x = Vec3::new(ONE, 0, 0);
    let y = Vec3::new(0, ONE, 0);
    let z = Vec3::new(0, 0, ONE);
    assert_eq!(Vec3::dot(&x, &x), ONE);
    assert_eq!(Vec3::dot(&x, &y), 0);
    assert_eq!(Vec3::cross(&x, &y), z);
    assert_eq!(Vec3::cross(&y, &x), z.neg());
    assert_eq!(Vec3::dot(&Vec3::new(ONE, TWO, 3 * ONE), &Vec3::new(ONE, ONE, ONE)), 6 * ONE);
}

#[test]
fn lengths_and_normalization() {
    // a 3-4-5 triangle scaled down: |(0.3, 0.4, 0)| = 0.5
    let v = Vec3::new(300_000, 400_000, 0);
    assert_eq!(v.squared_length(), 250_000);
    assert_eq!(v.length(), HALF);
    assert_eq!(Vec3::unit_vector(v), Vec3::new(600_000, 800_000, 0));

    let mut w = Vec3::new(0, 0, -5 * ONE);
    w.make_unit_vector();
    assert_eq!(w, Vec3::new(0, 0, -ONE));
}

#[test]
fn accessors_alias_channels() {
    let v = Vec3::new(1, 2, 3);
    assert_eq!((v.x(), v.y(), v.z()), (1, 2, 3));
    assert_eq!((v.r(), v.g(), v.b()), (1, 2, 3));
    assert_eq!(Vec3::init(), Vec3::new(0, 0, 0));
}

#[test]
fn ray_points_along_its_direction() {
    let r = Ray::new(Vec3::new(ONE, 0, 0), Vec3::new(0, 0, -TWO));
    assert_eq!(r.origin(), Vec3::new(ONE, 0, 0));
    assert_eq!(r.dir(), Vec3::new(0, 0, -TWO));
    assert_eq!(r.point_at_parameter(HALF), Vec3::new(ONE, 0, -ONE));
}
