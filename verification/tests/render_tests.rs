use rayutils::camera::Camera;
use rayutils::fixed::{HALF, ONE};
use rayutils::hittable::{HittableList, Sphere};
use rayutils::material::{Lambertian, Material, Metal};
use rayutils::ramp::{fx_to_byte, get_color};
use rayutils::rand::{rand_unit, random_in_unit_disk, random_in_unit_sphere, Rng};
use rayutils::ray::Ray;
use rayutils::vec3::Vec3;

fn empty_scene() -> (HittableList, Vec<Material>) {
    (HittableList::new(vec![]), vec![])
}

#[test]
fn background_straight_up_is_sky_blue() {
    let (world, mats) = empty_scene();
    let mut rng = Rng::new(1);
    let r = Ray::new(Vec3::new(0, 0, 0), Vec3::new(0, ONE, 0));
    let c = get_color(&r, &world, &mats, 0, &mut rng);
    assert_eq!(c, Vec3::new(HALF, 700_000, ONE));
}

#[test]
fn background_straight_down_is_white() {
    let (world, mats) = empty_scene();
    let mut rng = Rng::new(1);
    let r = Ray::new(Vec3::new(0, 0, 0), Vec3::new(0, -ONE, 0));
    let c = get_color(&r, &world, &mats, 0, &mut rng);
    assert_eq!(c, Vec3::new(ONE, ONE, ONE));
}

#[test]
fn depth_cap_returns_black_on_any_hit() {
    // the ray starts inside a mirror sphere, so it always hits; at the
    // depth cap the integrator must answer black without scattering
    let world = HittableList::new(vec![Sphere::new(Vec3::new(0, 0, 0), ONE, 0)]);
    let mats = vec![Material::Metal(Metal::new(Vec3::new(ONE, ONE, ONE), 0, 0))];
    let mut rng = Rng::new(9);
    let before = rng;
    let r = Ray::new(Vec3::new(0, 0, 0), Vec3::new(0, 0, -ONE));
    let c = get_color(&r, &world, &mats, 50, &mut rng);
    assert_eq!(c, Vec3::new(0, 0, 0));
    // no randomness is drawn when the depth is exhausted
    assert_eq!(rng, before);
}

#[test]
fn mirror_box_terminates() {
    // a perfectly reflective enclosing sphere with an inward normal
    // (negative radius): every bounce scatters again, so recursion can
    // only stop through the depth cap, and the result is black
    let world = HittableList::new(vec![Sphere::new(Vec3::new(0, 0, 0), -10 * ONE, 0)]);
    let mats = vec![Material::Metal(Metal::new(Vec3::new(ONE, ONE, ONE), 0, 0))];
    let mut rng = Rng::new(4);
    let r = Ray::new(Vec3::new(0, 0, 0), Vec3::new(0, 0, -ONE));
    let c = get_color(&r, &world, &mats, 0, &mut rng);
    assert_eq!(c, Vec3::new(0, 0, 0));
}

#[test]
fn shaded_sphere_attenuates_by_albedo() {
    // a diffuse sphere straight ahead: the first bounce multiplies the
    // recursive color by the albedo of one half, so every channel ends
    // well below the full-brightness background
    let world = HittableList::new(vec![Sphere::new(Vec3::new(0, 0, -2 * ONE), HALF, 0)]);
    let mats = vec![Material::Lambertian(Lambertian::new(
        Vec3::new(HALF, HALF, HALF),
        0,
    ))];
    let mut rng = Rng::new(11);
    let r = Ray::new(Vec3::new(0, 0, 0), Vec3::new(0, 0, -ONE));
    let c = get_color(&r, &world, &mats, 0, &mut rng);
    assert!(c.x() <= 505_000 && c.y() <= 505_000 && c.z() <= 505_000);
}

#[test]
fn pinhole_camera_rays_share_the_origin() {
    let cam = Camera::new(
        Vec3::new(0, 0, 0),
        Vec3::new(0, 0, -ONE),
        Vec3::new(0, ONE, 0),
        ONE,
        ONE,
        0,
        ONE,
    );
    let mut rng = Rng::new(5);
    let r1 = cam.get_ray(0, 0, &mut rng);
    let r2 = cam.get_ray(ONE, ONE, &mut rng);
    assert_eq!(r1.origin(), Vec3::new(0, 0, 0));
    assert_eq!(r2.origin(), Vec3::new(0, 0, 0));
    // lower-left corner of the image plane, and its opposite corner
    assert_eq!(r1.dir(), Vec3::new(-ONE, -ONE, -ONE));
    assert_eq!(r2.dir(), Vec3::new(ONE, ONE, -ONE));
}

#[test]
fn rng_streams_are_reproducible() {
    let mut a = Rng::new(42);
    let mut b = Rng::new(42);
    for _ in 0..100 {
        assert_eq!(rand_unit(&mut a), rand_unit(&mut b));
    }
}

#[test]
fn rand_unit_follows_the_xorshift_recurrence() {
    let mut rng = Rng::new(42);
    assert_eq!(rand_unit(&mut rng), 805_674);
    assert_eq!(rand_unit(&mut rng), 905_471);
    assert_eq!(rand_unit(&mut rng), 320_954);
}

#[test]
fn unit_ball_samples_stay_inside() {
    let mut rng = Rng::new(6);
    for _ in 0..200 {
        let p = random_in_unit_sphere(&mut rng);
        assert!(Vec3::dot(&p, &p) < ONE);
        let d = random_in_unit_disk(&mut rng);
        assert!(Vec3::dot(&d, &d) < ONE);
        assert_eq!(d.z(), 0);
    }
}

#[test]
fn channel_bytes_truncate_and_saturate() {
    assert_eq!(fx_to_byte(-ONE), 0);
    assert_eq!(fx_to_byte(0), 0);
    assert_eq!(fx_to_byte(999_999), 0);
    assert_eq!(fx_to_byte(ONE), 1);
    assert_eq!(fx_to_byte(255_990_000), 255);
    assert_eq!(fx_to_byte(i64::MAX), 255);
    assert_eq!(fx_to_byte(127_500_000), 127);
}
