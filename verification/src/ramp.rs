//! The recursive shading integrator and the top-level render.

use vstd::prelude::*;
use crate::fixed::{
    fx_add, fx_add_s, fx_div, fx_div_s, fx_mul, fx_mul_s, fx_sqrt, fx_sqrt_s, fx_sub, fx_sub_s,
    tdiv_s, FX_MAX, HALF, ONE,
};
use crate::vec3::{v3, v_add_s, v_div_scalar_s, v_len_s, v_mul_s, v_scale_s, v_sub_s, Vec3, V3};
use crate::ray::{Ray, RayS};
use crate::rand::{next_state_s, rand_unit, seed_state_s, unit_of_s, Rng};
use crate::hittable::{
    lemma_world_hit_min, sphere_hit_t_s, sphere_rec_s, spheres_view_s, world_hit_s, world_wf,
    HitRecord, HittableList, Sphere, SphereS,
};
use crate::material::{
    material_wf, mats_view_s, scatter_s, Dielectric, DielectricS, Lambertian, LambertianS,
    Material, MaterialS, Metal, MetalS,
};
use crate::camera::{camera_s, get_ray_s, Camera, CameraS};
use crate::types::{Color, Image, PPMColor, Point};
use crate::ppm::rows_view_s;

verus! {

/// Lower ray-parameter bound of every shading hit test: a small epsilon
/// rather than zero, so a just-scattered ray cannot re-hit its own
/// origin through round-off ("shadow acne").
pub const T_MIN: i64 = 1_000;

/// Recursion depth cap of the integrator; reaching it absorbs the ray.
pub const MAX_DEPTH: u32 = 50;

/// The background gradient: interpolates white to sky-blue by the height
/// of the unit direction; a direction of vanishing computed length reads
/// as height zero.
pub open spec fn background_s(dir: V3) -> V3 {
    let len = v_len_s(dir);
    let uy = if len == 0 {
        0
    } else {
        fx_div_s(dir.y, len)
    };
    let t = fx_mul_s(HALF as int, fx_add_s(uy, ONE as int));
    v_add_s(
        v_scale_s(fx_sub_s(ONE as int, t), v3(ONE as int, ONE as int, ONE as int)),
        v_scale_s(t, v3(HALF as int, 700_000, ONE as int)),
    )
}

/// Every sphere's material handle points into the table.
pub open spec fn mats_cover(spheres: Seq<SphereS>, mats: Seq<Material>) -> bool {
    forall|i: int|
        0 <= i < spheres.len() ==> (#[trigger] spheres[i]).material < mats.len()
}

/// Every table entry is well-formed.
pub open spec fn mats_wf(mats: Seq<Material>) -> bool {
    forall|i: int| 0 <= i < mats.len() ==> material_wf((#[trigger] mats[i])@)
}

/// The color the integrator returns, with the random state it leaves:
/// the nearest hit's material scatters and the result recurses one level
/// deeper, an absorbed ray or an exhausted depth is black, and a miss is
/// the background gradient.
pub open spec fn get_color_s(
    r: RayS,
    spheres: Seq<SphereS>,
    mats: Seq<MaterialS>,
    depth: u32,
    st: u64,
) -> (V3, u64)
    decreases MAX_DEPTH - depth,
{
    match world_hit_s(spheres, r, T_MIN as int, FX_MAX as int) {
        Some(rec) => {
            if depth < MAX_DEPTH {
                let sc = scatter_s(mats[rec.mat->Some_0 as int], r, rec, st);
                if sc.ok {
                    let (c, st2) = get_color_s(sc.ray, spheres, mats, (depth + 1) as u32, sc.st);
                    (v_mul_s(sc.att, c), st2)
                } else {
                    (v3(0, 0, 0), sc.st)
                }
            } else {
                (v3(0, 0, 0), st)
            }
        },
        None => (background_s(r.dir), st),
    }
}

/// Recursion bottoms out at the depth cap: whenever the world is hit at
/// the cap or beyond, the result is black, whatever the scene holds.
pub proof fn lemma_depth_termination(
    r: RayS,
    spheres: Seq<SphereS>,
    mats: Seq<MaterialS>,
    depth: u32,
    st: u64,
)
    requires
        depth >= MAX_DEPTH,
        world_hit_s(spheres, r, T_MIN as int, FX_MAX as int) is Some,
    ensures
        get_color_s(r, spheres, mats, depth, st) == (v3(0, 0, 0), st),
{
}

/// A ray that misses everything is shaded by the background gradient
/// alone, and draws no randomness.
pub proof fn lemma_background_miss(
    r: RayS,
    spheres: Seq<SphereS>,
    mats: Seq<MaterialS>,
    depth: u32,
    st: u64,
)
    requires
        world_hit_s(spheres, r, T_MIN as int, FX_MAX as int) is None,
    ensures
        get_color_s(r, spheres, mats, depth, st) == (background_s(r.dir), st),
{
}

/// Shades one ray: nearest hit, scatter, recurse; black on absorption or
/// depth exhaustion; the background gradient on a miss.
pub fn get_color(
    r: &Ray,
    world: &HittableList,
    materials: &Vec<Material>,
    depth: u32,
    rng: &mut Rng,
) -> (color: Color)
    requires
        world_wf(world@),
        mats_cover(world@, materials@),
        mats_wf(materials@),
    ensures
        (color@, final(rng)@) == get_color_s(
            r@,
            world@,
            mats_view_s(materials@),
            depth,
            old(rng)@,
        ),
    decreases MAX_DEPTH - depth,
{
    let mut record = HitRecord::default();
    // a small epsilon lower bound avoids shadow acne
    if world.hit(r, T_MIN, FX_MAX, &mut record) {
        proof {
            lemma_world_hit_min(world@, r@, T_MIN as int, FX_MAX as int);
            let rec = world_hit_s(world@, r@, T_MIN as int, FX_MAX as int)->Some_0;
            let j = choose|j: int|
                0 <= j < world@.len() && sphere_hit_t_s(
                    #[trigger] world@[j],
                    r@,
                    T_MIN as int,
                    FX_MAX as int,
                ) == Some(rec.t) && rec == sphere_rec_s(world@[j], r@, rec.t);
            assert(rec.mat == Some(world@[j].material));
            assert(world@[j].material < materials@.len());
            assert(mats_view_s(materials@)[world@[j].material as int] == materials@[world@[
                j
            ].material as int]@);
        }
        let mut scattered = Ray::new(Vec3::init(), Vec3::init());
        let mut attenuation = Vec3::init();
        if depth < MAX_DEPTH {
            let idx = record.mat.unwrap();
            if materials[idx as usize].scatter(r, &record, &mut attenuation, &mut scattered, rng) {
                return attenuation.mul(get_color(&scattered, world, materials, depth + 1, rng));
            }
        }
        let black = Color::new(0, 0, 0);
        return black;
    }
    // make it so the unit direction's height is in [-1, 1], then shift
    // and scale it into an interpolation weight in [0, 1]
    let dlen: i64 = r.dir().length();
    let unit_direction = if dlen != 0 {
        r.dir().div_scalar(dlen)
    } else {
        Vec3::init()
    };
    let t: i64 = fx_mul(HALF, fx_add(unit_direction.y(), ONE));
    let blue = Color::new(HALF, 700_000, ONE);  // a light blue
    let white = Color::new(ONE, ONE, ONE);
    white.scale(fx_sub(ONE, t)).add(blue.scale(t))
}

/// One output channel: truncate a scaled color value to an integer and
/// saturate it into a byte, as the final cast of the render does.
pub open spec fn byte_of_fx_s(v: int) -> u8 {
    if v <= 0 {
        0
    } else if tdiv_s(v, ONE as int) >= 255 {
        255
    } else {
        tdiv_s(v, ONE as int) as u8
    }
}

pub fn fx_to_byte(v: i64) -> (b: u8)
    ensures
        b == byte_of_fx_s(v as int),
{
    if v <= 0 {
        0
    } else {
        let q: u64 = (v as u64) / (ONE as u64);
        if q >= 255 {
            255
        } else {
            q as u8
        }
    }
}

/// Spheres built so far all have sound geometry and material handles
/// that point into the table built so far.
pub open spec fn scene_inv(materials: Seq<Material>, list: Seq<Sphere>, mat_idx: u32) -> bool {
    &&& mat_idx as int == materials.len()
    &&& mats_wf(materials)
    &&& forall|k: int|
        0 <= k < list.len() ==> (#[trigger] list[k])@.radius != 0 && (list[k]@.material as int)
            < materials.len()
}

/// The four fixed materials of the scene: gray ground, glass, brown
/// diffuse, polished metal.
pub open spec fn scene_base_mats_s() -> Seq<MaterialS> {
    seq![
        MaterialS::Lambertian(
            LambertianS { albedo: v3(HALF as int, HALF as int, HALF as int), idx: 0 },
        ),
        MaterialS::Dielectric(DielectricS { ref_idx: 1_500_000, idx: 1 }),
        MaterialS::Lambertian(LambertianS { albedo: v3(400_000, 200_000, 100_000), idx: 2 }),
        MaterialS::Metal(
            MetalS { albedo: v3(700_000, 600_000, HALF as int), fuzz: 0, idx: 3 },
        ),
    ]
}

/// The ground sphere and the three large spheres of the scene.
pub open spec fn scene_base_spheres_s() -> Seq<SphereS> {
    seq![
        SphereS { center: v3(0, -1_000_000_000, 0), radius: 1_000_000_000, material: 0 },
        SphereS { center: v3(0, ONE as int, 0), radius: ONE as int, material: 1 },
        SphereS { center: v3(-4 * (ONE as int), ONE as int, 0), radius: ONE as int, material: 2 },
        SphereS { center: v3(4 * (ONE as int), ONE as int, 0), radius: ONE as int, material: 3 },
    ]
}

/// One cell of the randomized sphere field: a draw picks the material
/// kind, two more jitter the center inside the cell; a center too close
/// to the large metal sphere adds nothing.
pub open spec fn scene_cell_s(
    mats: Seq<MaterialS>,
    spheres: Seq<SphereS>,
    mat_idx: u32,
    a: int,
    b: int,
    st: u64,
) -> (Seq<MaterialS>, Seq<SphereS>, u32, u64) {
    let st1 = next_state_s(st);
    let choose_mat = unit_of_s(st1);
    let st2 = next_state_s(st1);
    let cx = fx_add_s(a * (ONE as int), fx_mul_s(900_000, unit_of_s(st2)));
    let st3 = next_state_s(st2);
    let cz = fx_add_s(b * (ONE as int), fx_mul_s(900_000, unit_of_s(st3)));
    let center = v3(cx, 200_000, cz);
    if v_len_s(v_sub_s(center, v3(4 * (ONE as int), 200_000, 0))) > 900_000 {
        let sphere = SphereS { center, radius: 200_000, material: mat_idx };
        if choose_mat < 800_000 {
            let st4 = next_state_s(st3);
            let st5 = next_state_s(st4);
            let st6 = next_state_s(st5);
            let st7 = next_state_s(st6);
            let st8 = next_state_s(st7);
            let st9 = next_state_s(st8);
            let m = MaterialS::Lambertian(
                LambertianS {
                    albedo: v3(
                        fx_mul_s(unit_of_s(st4), unit_of_s(st5)),
                        fx_mul_s(unit_of_s(st6), unit_of_s(st7)),
                        fx_mul_s(unit_of_s(st8), unit_of_s(st9)),
                    ),
                    idx: mat_idx,
                },
            );
            (mats.push(m), spheres.push(sphere), (mat_idx + 1) as u32, st9)
        } else if choose_mat < 950_000 {
            let st4 = next_state_s(st3);
            let st5 = next_state_s(st4);
            let st6 = next_state_s(st5);
            let m = MaterialS::Metal(
                MetalS {
                    albedo: v3(
                        fx_mul_s(HALF as int, fx_add_s(ONE as int, unit_of_s(st4))),
                        fx_mul_s(HALF as int, fx_add_s(ONE as int, unit_of_s(st5))),
                        fx_mul_s(HALF as int, fx_add_s(ONE as int, unit_of_s(st6))),
                    ),
                    fuzz: 0,
                    idx: mat_idx,
                },
            );
            (mats.push(m), spheres.push(sphere), (mat_idx + 1) as u32, st6)
        } else {
            let m = MaterialS::Dielectric(DielectricS { ref_idx: 1_500_000, idx: mat_idx });
            (mats.push(m), spheres.push(sphere), (mat_idx + 1) as u32, st3)
        }
    } else {
        (mats, spheres, mat_idx, st3)
    }
}

/// The cells of one grid row, from column `b` to the end.
pub open spec fn scene_row_s(
    mats: Seq<MaterialS>,
    spheres: Seq<SphereS>,
    mat_idx: u32,
    a: int,
    b: int,
    st: u64,
) -> (Seq<MaterialS>, Seq<SphereS>, u32, u64)
    decreases 11 - b,
{
    if b >= 11 {
        (mats, spheres, mat_idx, st)
    } else {
        let (m2, s2, mi2, st2) = scene_cell_s(mats, spheres, mat_idx, a, b, st);
        scene_row_s(m2, s2, mi2, a, b + 1, st2)
    }
}

/// The remaining grid rows, from row `a` to the end.
pub open spec fn scene_grid_s(
    mats: Seq<MaterialS>,
    spheres: Seq<SphereS>,
    mat_idx: u32,
    a: int,
    st: u64,
) -> (Seq<MaterialS>, Seq<SphereS>, u32, u64)
    decreases 11 - a,
{
    if a >= 11 {
        (mats, spheres, mat_idx, st)
    } else {
        let (m2, s2, mi2, st2) = scene_row_s(mats, spheres, mat_idx, a, -11, st);
        scene_grid_s(m2, s2, mi2, a + 1, st2)
    }
}

/// The whole scene: the fixed bases, then the randomized field drawn
/// from the seeded stream.
pub open spec fn scene_s() -> (Seq<MaterialS>, Seq<SphereS>, u32, u64) {
    scene_grid_s(scene_base_mats_s(), scene_base_spheres_s(), 4, -11, seed_state_s(0))
}

/// The camera of the render: the spec constants of the scene.
pub open spec fn scene_camera_s() -> CameraS {
    camera_s(
        v3(13 * (ONE as int), 2 * (ONE as int), 3 * (ONE as int)),
        v3(0, 0, 0),
        v3(0, ONE as int, 0),
        176_327,
        fx_div_s(1_200_000_000, 800_000_000),
        100_000,
        10 * (ONE as int),
    )
}

/// The running color sum of one pixel, `n` samples still to draw: each
/// sample jitters the image-plane coordinates, casts a camera ray and
/// shades it.
pub open spec fn sample_sum_s(
    c: CameraS,
    spheres: Seq<SphereS>,
    mats: Seq<MaterialS>,
    i: int,
    j: int,
    n: nat,
    acc: V3,
    st: u64,
) -> (V3, u64)
    decreases n,
{
    if n == 0 {
        (acc, st)
    } else {
        let st1 = next_state_s(st);
        let u = fx_div_s(fx_add_s(i * (ONE as int), unit_of_s(st1)), 1_200_000_000);
        let st2 = next_state_s(st1);
        let v = fx_div_s(fx_add_s(j * (ONE as int), unit_of_s(st2)), 800_000_000);
        let (ray, st3) = get_ray_s(c, u, v, st2);
        let (col, st4) = get_color_s(ray, spheres, mats, 0, st3);
        sample_sum_s(c, spheres, mats, i, j, (n - 1) as nat, v_add_s(acc, col), st4)
    }
}

/// One finished pixel at column `i` of scan line `j`: the mean of 30
/// samples, gamma-2 corrected by a square root per channel, scaled by
/// 255.99 and truncated into bytes.
pub open spec fn pixel_s(
    c: CameraS,
    spheres: Seq<SphereS>,
    mats: Seq<MaterialS>,
    i: int,
    j: int,
    st: u64,
) -> (PPMColor, u64) {
    let (sum, st2) = sample_sum_s(c, spheres, mats, i, j, 30, v3(0, 0, 0), st);
    let mean = v_div_scalar_s(sum, 30_000_000);
    let g = v3(fx_sqrt_s(mean.x), fx_sqrt_s(mean.y), fx_sqrt_s(mean.z));
    let scaled = v_scale_s(255_990_000, g);
    ((byte_of_fx_s(scaled.x), byte_of_fx_s(scaled.y), byte_of_fx_s(scaled.z)), st2)
}

/// One pixel row of scan line `j`, from column `i` on, left to right.
pub open spec fn pixel_row_s(
    c: CameraS,
    spheres: Seq<SphereS>,
    mats: Seq<MaterialS>,
    j: int,
    i: int,
    acc: Seq<PPMColor>,
    st: u64,
) -> (Seq<PPMColor>, u64)
    decreases 1200 - i,
{
    if i >= 1200 {
        (acc, st)
    } else {
        let (p, st2) = pixel_s(c, spheres, mats, i, j, st);
        pixel_row_s(c, spheres, mats, j, i + 1, acc.push(p), st2)
    }
}

/// The rows from scan line `j - 1` down to the bottom, appended top to
/// bottom.
pub open spec fn pixel_rows_s(
    c: CameraS,
    spheres: Seq<SphereS>,
    mats: Seq<MaterialS>,
    j: int,
    acc: Seq<Seq<PPMColor>>,
    st: u64,
) -> (Seq<Seq<PPMColor>>, u64)
    decreases j,
{
    if j <= 0 {
        (acc, st)
    } else {
        let (row, st2) = pixel_row_s(c, spheres, mats, j - 1, 0, Seq::empty(), st);
        pixel_rows_s(c, spheres, mats, j - 1, acc.push(row), st2)
    }
}

/// The whole render, pixel by pixel: build the scene from the seeded
/// stream, then shade 800 rows of 1200 pixels with 30 samples each,
/// continuing along the same stream.
pub open spec fn render_s() -> Seq<Seq<PPMColor>> {
    let (mats, spheres, mat_idx, st) = scene_s();
    pixel_rows_s(scene_camera_s(), spheres, mats, 800, Seq::empty(), st).0
}

/// Renders the classic scene: a huge ground sphere, three large spheres
/// of each material kind, and a field of small randomized spheres, all
/// drawn from an internally seeded deterministic random source. The
/// image is exactly the spec-level render: 800 rows of 1200 pixels, top
/// to bottom, each channel the truncation of 255.99 times the gamma-2
/// square root of the mean of 30 sampled colors.
pub fn raytrace() -> (img: Image)
    ensures
        rows_view_s(img@) == render_s(),
        img@.len() == 800,
        forall|k: int| 0 <= k < img@.len() ==> (#[trigger] img@[k])@.len() == 1200,
{
    // 1200 columns, 800 rows, 30 samples per pixel
    let ny: usize = 800;

    let mut rng = Rng::new(0);

    let mut mat_idx: u32 = 0;

    let ground_mat = Lambertian::new(Color::new(HALF, HALF, HALF), mat_idx);
    mat_idx = mat_idx + 1;
    let dielectric = Dielectric::new(1_500_000, mat_idx);
    mat_idx = mat_idx + 1;
    let lambertian = Lambertian::new(Color::new(400_000, 200_000, 100_000), mat_idx);
    mat_idx = mat_idx + 1;
    let metal = Metal::new(Color::new(700_000, 600_000, HALF), 0, mat_idx);
    mat_idx = mat_idx + 1;

    let mut materials: Vec<Material> = Vec::new();
    materials.push(Material::Lambertian(ground_mat));
    materials.push(Material::Dielectric(dielectric));
    materials.push(Material::Lambertian(lambertian));
    materials.push(Material::Metal(metal));

    let ground_sphere = Sphere::new(
        Point::new(0, -1_000_000_000, 0),
        1_000_000_000,
        ground_mat.get_idx(),
    );
    let sphere1 = Sphere::new(Point::new(0, ONE, 0), ONE, dielectric.get_idx());
    let sphere2 = Sphere::new(Point::new(-4 * ONE, ONE, 0), ONE, lambertian.get_idx());
    let sphere3 = Sphere::new(Point::new(4 * ONE, ONE, 0), ONE, metal.get_idx());

    let mut list: Vec<Sphere> = Vec::new();
    list.push(ground_sphere);
    list.push(sphere1);
    list.push(sphere2);
    list.push(sphere3);

    let ghost scene = scene_s();
    proof {
        assert(mats_view_s(materials@) =~= scene_base_mats_s());
        assert(spheres_view_s(list@) =~= scene_base_spheres_s());
    }

    let mut a: i64 = -11;
    while a < 11
        invariant
            -11 <= a <= 11,
            scene_inv(materials@, list@, mat_idx),
            materials@.len() <= 4 + (a + 11) * 22,
            scene_grid_s(
                mats_view_s(materials@),
                spheres_view_s(list@),
                mat_idx,
                a as int,
                rng@,
            ) == scene,
        decreases 11 - a,
    {
        let mut b: i64 = -11;
        while b < 11
            invariant
                -11 <= a < 11,
                -11 <= b <= 11,
                scene_inv(materials@, list@, mat_idx),
                materials@.len() <= 4 + (a + 11) * 22 + (b + 11),
                ({
                    let (m2, s2, mi2, st2) = scene_row_s(
                        mats_view_s(materials@),
                        spheres_view_s(list@),
                        mat_idx,
                        a as int,
                        b as int,
                        rng@,
                    );
                    scene_grid_s(m2, s2, mi2, a as int + 1, st2) == scene
                }),
            decreases 11 - b,
        {
            let ghost ms0 = mats_view_s(materials@);
            let ghost ls0 = spheres_view_s(list@);
            let ghost mi0 = mat_idx;
            let ghost st0 = rng@;
            let choose_mat: i64 = rand_unit(&mut rng);
            let cx: i64 = fx_add(a * ONE, fx_mul(900_000, rand_unit(&mut rng)));
            let cz: i64 = fx_add(b * ONE, fx_mul(900_000, rand_unit(&mut rng)));
            let center = Point::new(cx, 200_000, cz);

            if center.sub(Point::new(4 * ONE, 200_000, 0)).length() > 900_000 {
                if choose_mat < 800_000 {  // diffuse
                    let r1: i64 = rand_unit(&mut rng);
                    let r2: i64 = rand_unit(&mut rng);
                    let r3: i64 = rand_unit(&mut rng);
                    let r4: i64 = rand_unit(&mut rng);
                    let r5: i64 = rand_unit(&mut rng);
                    let r6: i64 = rand_unit(&mut rng);
                    let small = Lambertian::new(
                        Color::new(fx_mul(r1, r2), fx_mul(r3, r4), fx_mul(r5, r6)),
                        mat_idx,
                    );
                    materials.push(Material::Lambertian(small));
                    list.push(Sphere::new(center, 200_000, small.get_idx()));
                } else if choose_mat < 950_000 {  // metal
                    let r1: i64 = rand_unit(&mut rng);
                    let r2: i64 = rand_unit(&mut rng);
                    let r3: i64 = rand_unit(&mut rng);
                    let small = Metal::new(
                        Color::new(
                            fx_mul(HALF, fx_add(ONE, r1)),
                            fx_mul(HALF, fx_add(ONE, r2)),
                            fx_mul(HALF, fx_add(ONE, r3)),
                        ),
                        0,
                        mat_idx,
                    );
                    materials.push(Material::Metal(small));
                    list.push(Sphere::new(center, 200_000, small.get_idx()));
                } else {  // glass
                    let small = Dielectric::new(1_500_000, mat_idx);
                    materials.push(Material::Dielectric(small));
                    list.push(Sphere::new(center, 200_000, small.get_idx()));
                }
                mat_idx = mat_idx + 1;
            }
            proof {
                let cell = scene_cell_s(ms0, ls0, mi0, a as int, b as int, st0);
                assert(mats_view_s(materials@) =~= cell.0);
                assert(spheres_view_s(list@) =~= cell.1);
                assert(mat_idx == cell.2 && rng@ == cell.3);
            }
            b = b + 1;
        }
        a = a + 1;
    }
    proof {
        assert(mats_view_s(materials@) == scene.0 && spheres_view_s(list@) == scene.1 && rng@
            == scene.3);
    }

    let ghost lsnap = list@;
    let world = HittableList::new(list);
    proof {
        assert forall|k: int| 0 <= k < world@.len() implies (#[trigger] world@[k]).radius != 0
            && world@[k].material < materials@.len() by {
            assert(world@[k] == lsnap[k]@);
        }
    }

    let mut rows: Image = Vec::new();

    let lookfrom = Point::new(13 * ONE, 2 * ONE, 3 * ONE);
    let lookat = Point::new(0, 0, 0);
    let vup = Vec3::new(0, ONE, 0);
    let tan_half_vfov: i64 = 176_327;  // the 20 degree field of view, as tan(10 degrees)
    let aspect: i64 = fx_div(1_200_000_000, 800_000_000);
    let aperture: i64 = 100_000;
    let focus_dist: i64 = 10 * ONE;

    let cam = Camera::new(lookfrom, lookat, vup, tan_half_vfov, aspect, aperture, focus_dist);
    let ghost target = pixel_rows_s(cam@, scene.1, scene.0, 800, Seq::empty(), rng@);
    proof {
        assert(cam@ == scene_camera_s());
        assert(rows_view_s(rows@) =~= Seq::<Seq<PPMColor>>::empty());
        assert(render_s() == target.0);
    }

    let mut j: usize = ny;
    while j > 0
        invariant
            j <= 800,
            rows@.len() == 800 - j,
            forall|k: int| 0 <= k < rows@.len() ==> (#[trigger] rows@[k])@.len() == 1200,
            world_wf(world@),
            mats_cover(world@, materials@),
            mats_wf(materials@),
            world@ == scene.1,
            mats_view_s(materials@) == scene.0,
            pixel_rows_s(cam@, scene.1, scene.0, j as int, rows_view_s(rows@), rng@) == target,
        decreases j,
    {
        j = j - 1;
        let mut cols: Vec<PPMColor> = Vec::new();
        let mut i: usize = 0;
        while i < 1200
            invariant
                j < 800,
                i <= 1200,
                cols@.len() == i,
                world_wf(world@),
                mats_cover(world@, materials@),
                mats_wf(materials@),
                world@ == scene.1,
                mats_view_s(materials@) == scene.0,
                ({
                    let (rowv, st2) = pixel_row_s(
                        cam@,
                        scene.1,
                        scene.0,
                        j as int,
                        i as int,
                        cols@,
                        rng@,
                    );
                    pixel_rows_s(cam@, scene.1, scene.0, j as int, rows_view_s(rows@).push(rowv), st2)
                        == target
                }),
            decreases 1200 - i,
        {
            let ghost pix_st = rng@;
            let mut color = Color::init();
            let mut sample: usize = 0;
            while sample < 30
                invariant
                    j < 800,
                    i < 1200,
                    sample <= 30,
                    world_wf(world@),
                    mats_cover(world@, materials@),
                    mats_wf(materials@),
                    world@ == scene.1,
                    mats_view_s(materials@) == scene.0,
                    sample_sum_s(
                        cam@,
                        scene.1,
                        scene.0,
                        i as int,
                        j as int,
                        (30 - sample) as nat,
                        color@,
                        rng@,
                    ) == sample_sum_s(cam@, scene.1, scene.0, i as int, j as int, 30, v3(0, 0, 0), pix_st),
                    ({
                        let (rowv, st2) = pixel_row_s(
                            cam@,
                            scene.1,
                            scene.0,
                            j as int,
                            i as int,
                            cols@,
                            pix_st,
                        );
                        pixel_rows_s(
                            cam@,
                            scene.1,
                            scene.0,
                            j as int,
                            rows_view_s(rows@).push(rowv),
                            st2,
                        ) == target
                    }),
                decreases 30 - sample,
            {
                let u: i64 = fx_div(fx_add((i as i64) * ONE, rand_unit(&mut rng)), 1_200_000_000);
                let v: i64 = fx_div(fx_add((j as i64) * ONE, rand_unit(&mut rng)), 800_000_000);
                let ray = cam.get_ray(u, v, &mut rng);
                color = color.add(get_color(&ray, &world, &materials, 0, &mut rng));
                sample = sample + 1;
            }

            color = color.div_scalar(30_000_000);
            // gamma 2 correction
            color = Color::new(fx_sqrt(color.r()), fx_sqrt(color.g()), fx_sqrt(color.b()));

            color = color.scale(255_990_000);
            let ir: u8 = fx_to_byte(color.r());
            let ig: u8 = fx_to_byte(color.g());
            let ib: u8 = fx_to_byte(color.b());
            proof {
                let (p, st2) = pixel_s(cam@, scene.1, scene.0, i as int, j as int, pix_st);
                assert(p == (ir, ig, ib) && st2 == rng@);
            }
            cols.push((ir, ig, ib));
            i = i + 1;
        }
        let ghost rows0 = rows_view_s(rows@);
        let ghost colsv = cols@;
        rows.push(cols);
        proof {
            assert(rows_view_s(rows@) =~= rows0.push(colsv));
        }
    }

    rows
}

} // verus!
