use rayutils::fixed::{HALF, ONE};
use rayutils::hittable::HitRecord;
use rayutils::material::{schlick, Dielectric, Lambertian, Material, Metal};
use rayutils::rand::Rng;
use rayutils::ray::Ray;
use rayutils::vec3::Vec3;

fn record_at_origin_facing_z() -> HitRecord {
    HitRecord {
        t: ONE,
        p: Vec3::new(0, 0, 0),
        normal: Vec3::new(0, 0, ONE),
        mat: Some(0),
    }
}

#[test]
fn lambertian_always_scatters() {
    let m = Lambertian::new(Vec3::new(HALF, HALF, HALF), 0);
    let rec = record_at_origin_facing_z();
    let r_in = Ray::new(Vec3::new(0, 0, ONE), Vec3::new(0, 0, -ONE));
    let mut att = Vec3::init();
    let mut sc = Ray::new(Vec3::init(), Vec3::init());
    for seed in 1..50u64 {
        let mut rng = Rng::new(seed);
        assert!(m.scatter(&r_in, &rec, &mut att, &mut sc, &mut rng));
        assert_eq!(att, Vec3::new(HALF, HALF, HALF));
        assert_eq!(sc.origin(), rec.p);
    }
}

#[test]
fn metal_reflects_an_incoming_ray() {
    // fuzz 0: incoming (0,0,-1) against normal (0,0,1) reflects to
    // (0,0,1), which points out of the surface
    let m = Metal::new(Vec3::new(ONE, ONE, ONE), 0, 0);
    let rec = record_at_origin_facing_z();
    let r_in = Ray::new(Vec3::new(0, 0, ONE), Vec3::new(0, 0, -ONE));
    let mut att = Vec3::init();
    let mut sc = Ray::new(Vec3::init(), Vec3::init());
    let mut rng = Rng::new(3);
    assert!(m.scatter(&r_in, &rec, &mut att, &mut sc, &mut rng));
    assert_eq!(sc.dir(), Vec3::new(0, 0, ONE));
}

#[test]
fn metal_absorbs_a_ray_reflected_inward() {
    // incoming (0,0,1) along the normal reflects to (0,0,-1): the
    // scattered direction has non-positive dot product with the normal
    // and the ray is absorbed
    let m = Metal::new(Vec3::new(ONE, ONE, ONE), 0, 0);
    let rec = record_at_origin_facing_z();
    let r_in = Ray::new(Vec3::new(0, 0, -ONE), Vec3::new(0, 0, ONE));
    let mut att = Vec3::init();
    let mut sc = Ray::new(Vec3::init(), Vec3::init());
    let mut rng = Rng::new(3);
    assert!(!m.scatter(&r_in, &rec, &mut att, &mut sc, &mut rng));
    assert_eq!(sc.dir(), Vec3::new(0, 0, -ONE));
}

#[test]
fn metal_fuzz_is_clamped_to_one() {
    let m = Metal::new(Vec3::new(ONE, ONE, ONE), 3 * ONE, 0);
    assert_eq!(m.fuzz, ONE);
    let soft = Metal::new(Vec3::new(ONE, ONE, ONE), 300_000, 0);
    assert_eq!(soft.fuzz, 300_000);
}

#[test]
fn dielectric_always_scatters_with_unit_attenuation() {
    let m = Dielectric::new(1_500_000, 0);
    let rec = record_at_origin_facing_z();
    let r_in = Ray::new(Vec3::new(0, 0, ONE), Vec3::new(0, 0, -ONE));
    let mut att = Vec3::init();
    let mut sc = Ray::new(Vec3::init(), Vec3::init());
    for seed in 1..50u64 {
        let mut rng = Rng::new(seed);
        assert!(m.scatter(&r_in, &rec, &mut att, &mut sc, &mut rng));
        assert_eq!(att, Vec3::new(ONE, ONE, ONE));
    }
}

#[test]
fn schlick_at_head_on_incidence_is_r0() {
    // r0 = ((1 - 1.5) / (1 + 1.5))^2 = 0.04
    assert_eq!(schlick(ONE, 1_500_000), 40_000);
}

#[test]
fn schlick_at_grazing_incidence_is_one() {
    assert_eq!(schlick(0, 1_500_000), ONE);
    assert_eq!(schlick(0, 2_400_000), ONE);
}

#[test]
fn material_table_dispatch_keeps_indices() {
    let mats = vec![
        Material::Lambertian(Lambertian::new(Vec3::new(HALF, HALF, HALF), 0)),
        Material::Dielectric(Dielectric::new(1_500_000, 1)),
        Material::Metal(Metal::new(Vec3::new(ONE, ONE, ONE), 0, 2)),
    ];
    for (want, m) in mats.iter().enumerate() {
        assert_eq!(m.get_idx() as usize, want);
    }
}
