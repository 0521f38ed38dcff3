use rayutils::fixed::{HALF, ONE};
use rayutils::hittable::{HitRecord, Sphere};
use rayutils::intersection::hit_sphere;
use rayutils::objects::Sphere as BareSphere;
use rayutils::ray::Ray;
use rayutils::vec3::Vec3;

fn unit_z_ray() -> Ray {
    Ray::new(Vec3::new(0, 0, 0), Vec3::new(0, 0, -ONE))
}

#[test]
fn sphere_hit_head_on() {
    // sphere at (0,0,-1), radius 0.5, ray from the origin along -z:
    // hit at t = 0.5, point (0,0,-0.5), outward unit normal (0,0,1)
    let s = Sphere::new(Vec3::new(0, 0, -ONE), HALF, 7);
    let mut rec = HitRecord::default();
    assert!(s.hit(&unit_z_ray(), 1_000, i64::MAX, &mut rec));
    assert_eq!(rec.t, HALF);
    assert_eq!(rec.p, Vec3::new(0, 0, -HALF));
    assert_eq!(rec.normal, Vec3::new(0, 0, ONE));
    assert_eq!(rec.mat, Some(7));
}

#[test]
fn sphere_miss_leaves_record_alone() {
    let s = Sphere::new(Vec3::new(0, 3 * ONE, -ONE), HALF, 0);
    let mut rec = HitRecord::default();
    let before = rec;
    assert!(!s.hit(&unit_z_ray(), 1_000, i64::MAX, &mut rec));
    assert_eq!(rec, before);
}

#[test]
fn sphere_inside_takes_far_root() {
    // the ray starts inside: the near root is negative and rejected,
    // the far root at t = 1 is taken, with an inward-facing point
    let s = Sphere::new(Vec3::new(0, 0, 0), ONE, 0);
    let mut rec = HitRecord::default();
    assert!(s.hit(&unit_z_ray(), 1_000, i64::MAX, &mut rec));
    assert_eq!(rec.t, ONE);
    assert_eq!(rec.p, Vec3::new(0, 0, -ONE));
}

#[test]
fn sphere_respects_open_interval() {
    let s = Sphere::new(Vec3::new(0, 0, -ONE), HALF, 0);
    let mut rec = HitRecord::default();
    // t = 0.5 is not strictly below t_max = 0.5, and the far root
    // t = 1.5 is not strictly below t_max either
    assert!(!s.hit(&unit_z_ray(), 1_000, HALF, &mut rec));
    // the far root t = 1.5 qualifies once the near one is below t_min
    assert!(s.hit(&unit_z_ray(), ONE, i64::MAX, &mut rec));
    assert_eq!(rec.t, 1_500_000);
}

#[test]
fn negated_radius_flips_normal_only() {
    // identical geometry with radius r and -r: same hit parameter and
    // point, opposite-sign normal
    let outer = Sphere::new(Vec3::new(0, 0, -ONE), HALF, 0);
    let inner = Sphere::new(Vec3::new(0, 0, -ONE), -HALF, 0);
    let mut rec_o = HitRecord::default();
    let mut rec_i = HitRecord::default();
    assert!(outer.hit(&unit_z_ray(), 1_000, i64::MAX, &mut rec_o));
    assert!(inner.hit(&unit_z_ray(), 1_000, i64::MAX, &mut rec_i));
    assert_eq!(rec_o.t, rec_i.t);
    assert_eq!(rec_o.p, rec_i.p);
    assert_eq!(rec_i.normal, Vec3::new(0, 0, -ONE));
    assert_eq!(rec_o.normal, Vec3::new(0, 0, ONE));
}

#[test]
fn entry_parameter_of_bare_sphere() {
    let s = BareSphere::new(Vec3::new(0, 0, -ONE), HALF);
    assert_eq!(hit_sphere(&s, &unit_z_ray()), Some(HALF));
}

#[test]
fn bare_sphere_misses_on_negative_discriminant() {
    let s = BareSphere::new(Vec3::new(0, 3 * ONE, -ONE), HALF);
    assert_eq!(hit_sphere(&s, &unit_z_ray()), None);
}

#[test]
fn tangent_ray_counts_only_for_entry_test() {
    // a grazing ray has discriminant exactly zero: the entry test
    // reports the touch, while the interval-based hit demands a
    // strictly positive discriminant and reports a miss
    let bare = BareSphere::new(Vec3::new(0, HALF, -ONE), HALF);
    assert_eq!(hit_sphere(&bare, &unit_z_ray()), Some(ONE));
    let full = Sphere::new(Vec3::new(0, HALF, -ONE), HALF, 0);
    let mut rec = HitRecord::default();
    assert!(!full.hit(&unit_z_ray(), 1_000, i64::MAX, &mut rec));
}
