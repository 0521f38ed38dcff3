use rayutils::fixed::{HALF, ONE};
use rayutils::hittable::{HitRecord, HittableList, Sphere};
use rayutils::ray::Ray;
use rayutils::vec3::Vec3;

fn unit_z_ray() -> Ray {
    Ray::new(Vec3::new(0, 0, 0), Vec3::new(0, 0, -ONE))
}

fn near() -> Sphere {
    // hit interval along the ray: t in [1.5, 2.5]
    Sphere::new(Vec3::new(0, 0, -2 * ONE), HALF, 1)
}

fn far() -> Sphere {
    // hit interval along the ray: t in [2.5, 3.5], overlapping the near one
    Sphere::new(Vec3::new(0, 0, -3 * ONE), HALF, 2)
}

#[test]
fn nearest_hit_wins() {
    let world = HittableList::new(vec![near(), far()]);
    let mut rec = HitRecord::default();
    assert!(world.hit(&unit_z_ray(), 1_000, i64::MAX, &mut rec));
    assert_eq!(rec.t, 1_500_000);
    assert_eq!(rec.mat, Some(1));
}

#[test]
fn nearest_hit_wins_in_either_order() {
    let world = HittableList::new(vec![far(), near()]);
    let mut rec = HitRecord::default();
    assert!(world.hit(&unit_z_ray(), 1_000, i64::MAX, &mut rec));
    assert_eq!(rec.t, 1_500_000);
    assert_eq!(rec.mat, Some(1));
}

#[test]
fn interval_excludes_the_near_sphere() {
    // with the far end tightened below the near sphere's entry, only
    // the far sphere can be recorded
    let world = HittableList::new(vec![near(), far()]);
    let mut rec = HitRecord::default();
    assert!(world.hit(&unit_z_ray(), 2_600_000, i64::MAX, &mut rec));
    assert_eq!(rec.t, 3_500_000);
    assert_eq!(rec.mat, Some(2));
}

#[test]
fn empty_world_never_hits() {
    let world = HittableList::new(vec![]);
    let mut rec = HitRecord::default();
    let before = rec;
    assert!(!world.hit(&unit_z_ray(), 1_000, i64::MAX, &mut rec));
    assert_eq!(rec, before);
}
