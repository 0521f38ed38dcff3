//! Scattering behaviors: diffuse, metal and dielectric, as a closed set
//! of variants with a single `scatter` operation.

use vstd::prelude::*;
use crate::fixed::{
    abs_s, fx_add, fx_add_s, fx_div, fx_div_s, fx_mul, fx_mul_s, fx_neg, fx_neg_s, fx_sqrt,
    fx_sqrt_s, fx_sub, fx_sub_s, lemma_fx_div_unit_bound, lemma_fx_mul_one, lemma_fx_square_unit,
    lemma_fx_sqrt_nonneg, FX_MAX, ONE, TWO,
};
use crate::vec3::{
    v3, v_add_s, v_dot_s, v_len2_s, v_len_s, v_neg_s, v_scale_s, v_sub_s, v_unit_s, Vec3, V3,
};
use crate::ray::{Ray, RayS};
use crate::hittable::{HitRecS, HitRecord};
use crate::rand::{
    in_unit_sphere_s, next_state_s, rand_unit, random_in_unit_sphere, unit_of_s, Rng,
    SAMPLE_ATTEMPTS,
};

verus! {

/// Mathematical model of a diffuse material.
pub struct LambertianS {
    pub albedo: V3,
    pub idx: u32,
}

/// Mathematical model of a metal material.
pub struct MetalS {
    pub albedo: V3,
    pub fuzz: int,
    pub idx: u32,
}

/// Mathematical model of a dielectric material.
pub struct DielectricS {
    pub ref_idx: int,
    pub idx: u32,
}

#[derive(Clone, Copy, Debug, PartialEq, Eq, Structural)]
pub struct Lambertian {
    pub albedo: Vec3,
    pub idx: u32,
}

#[derive(Clone, Copy, Debug, PartialEq, Eq, Structural)]
pub struct Metal {
    pub albedo: Vec3,
    pub fuzz: i64,
    pub idx: u32,
}

#[derive(Clone, Copy, Debug, PartialEq, Eq, Structural)]
pub struct Dielectric {
    pub ref_idx: i64,
    pub idx: u32,
}

impl View for Lambertian {
    type V = LambertianS;

    open spec fn view(&self) -> LambertianS {
        LambertianS { albedo: self.albedo@, idx: self.idx }
    }
}

impl View for Metal {
    type V = MetalS;

    open spec fn view(&self) -> MetalS {
        MetalS { albedo: self.albedo@, fuzz: self.fuzz as int, idx: self.idx }
    }
}

impl View for Dielectric {
    type V = DielectricS;

    open spec fn view(&self) -> DielectricS {
        DielectricS { ref_idx: self.ref_idx as int, idx: self.idx }
    }
}

/// The outcome of a scatter: whether the ray survives, its attenuation,
/// the continuation ray, and the random state left behind.
pub struct ScatterS {
    pub ok: bool,
    pub att: V3,
    pub ray: RayS,
    pub st: u64,
}

/// Mirror reflection about a normal: `v - 2 (v . n) n`.
pub open spec fn reflect_s(v: V3, n: V3) -> V3 {
    v_sub_s(v, v_scale_s(fx_mul_s(TWO as int, v_dot_s(v, n)), n))
}

/// Normalization made total: a vector whose computed length vanishes
/// maps to the zero vector.
pub open spec fn unit_or_zero_s(v: V3) -> V3 {
    if v_len_s(v) == 0 {
        v3(0, 0, 0)
    } else {
        v_unit_s(v)
    }
}

/// Fifth power by repeated scaled multiplication.
pub open spec fn pow5_s(x: int) -> int {
    fx_mul_s(fx_mul_s(fx_mul_s(fx_mul_s(x, x), x), x), x)
}

/// The base reflectance at head-on incidence: `((1 - n) / (1 + n))^2`.
pub open spec fn schlick_r0_s(ref_idx: int) -> int {
    let r0 = fx_div_s(fx_sub_s(ONE as int, ref_idx), fx_add_s(ONE as int, ref_idx));
    fx_mul_s(r0, r0)
}

/// Schlick's reflectance approximation: `r0 + (1 - r0) (1 - cosine)^5`.
pub open spec fn schlick_s(cosine: int, ref_idx: int) -> int {
    let r0 = schlick_r0_s(ref_idx);
    fx_add_s(r0, fx_mul_s(fx_sub_s(ONE as int, r0), pow5_s(fx_sub_s(ONE as int, cosine))))
}

/// Snell refraction of `v` about the outward normal `n`; nothing when
/// total internal reflection leaves no refracted direction.
pub open spec fn refract_s(v: V3, n: V3, ni_over_nt: int) -> Option<V3> {
    let uv = v_unit_s(v);
    let dt = v_dot_s(uv, n);
    let disc = fx_sub_s(
        ONE as int,
        fx_mul_s(fx_mul_s(ni_over_nt, ni_over_nt), fx_sub_s(ONE as int, fx_mul_s(dt, dt))),
    );
    if disc > 0 {
        Some(
            v_sub_s(
                v_scale_s(ni_over_nt, v_sub_s(uv, v_scale_s(dt, n))),
                v_scale_s(fx_sqrt_s(disc), n),
            ),
        )
    } else {
        None
    }
}

/// A diffuse scatter: aim at the normal displaced by a random point of
/// the unit ball; always survives, attenuated by the albedo.
pub open spec fn lambertian_scatter_s(m: LambertianS, rec: HitRecS, st: u64) -> ScatterS {
    let (p, st2) = in_unit_sphere_s(st, SAMPLE_ATTEMPTS as nat);
    let target = v_add_s(v_add_s(rec.p, rec.normal), p);
    ScatterS {
        ok: true,
        att: m.albedo,
        ray: RayS { orig: rec.p, dir: v_sub_s(target, rec.p) },
        st: st2,
    }
}

/// A metal scatter: reflect the unit incoming direction, fuzz it by a
/// random point of the unit ball; survives only while the scattered
/// direction leaves the surface.
pub open spec fn metal_scatter_s(m: MetalS, r_in: RayS, rec: HitRecS, st: u64) -> ScatterS {
    let reflected = reflect_s(unit_or_zero_s(r_in.dir), rec.normal);
    let (p, st2) = in_unit_sphere_s(st, SAMPLE_ATTEMPTS as nat);
    let dir = v_add_s(reflected, v_scale_s(m.fuzz, p));
    ScatterS {
        ok: v_dot_s(dir, rec.normal) > 0,
        att: m.albedo,
        ray: RayS { orig: rec.p, dir },
        st: st2,
    }
}

/// A dielectric scatter: decide entering or exiting from the sign of the
/// incoming direction against the normal, attempt refraction, and choose
/// reflection with the Schlick probability; always survives with unit
/// attenuation. A direction of vanishing computed length admits no
/// refraction and always reflects.
pub open spec fn dielectric_scatter_s(m: DielectricS, r_in: RayS, rec: HitRecS, st: u64) -> ScatterS {
    let len = v_len_s(r_in.dir);
    let dot_in = v_dot_s(r_in.dir, rec.normal);
    let outward = if dot_in > 0 {
        v_neg_s(rec.normal)
    } else {
        rec.normal
    };
    let ni = if dot_in > 0 {
        m.ref_idx
    } else {
        fx_div_s(ONE as int, m.ref_idx)
    };
    let cosine = if len == 0 {
        0
    } else if dot_in > 0 {
        fx_div_s(fx_mul_s(m.ref_idx, dot_in), len)
    } else {
        fx_div_s(fx_neg_s(dot_in), len)
    };
    let refr = if len == 0 {
        None
    } else {
        refract_s(r_in.dir, outward, ni)
    };
    let reflect_prob = match refr {
        Some(x) => schlick_s(cosine, m.ref_idx),
        None => ONE as int,
    };
    let st2 = next_state_s(st);
    let dir = if unit_of_s(st2) < reflect_prob {
        reflect_s(r_in.dir, rec.normal)
    } else {
        match refr {
            Some(x) => x,
            None => v3(0, 0, 0),
        }
    };
    ScatterS {
        ok: true,
        att: v3(ONE as int, ONE as int, ONE as int),
        ray: RayS { orig: rec.p, dir },
        st: st2,
    }
}

pub fn reflect(v: Vec3, n: Vec3) -> (r: Vec3)
    ensures
        r@ == reflect_s(v@, n@),
{
    v.sub(n.scale(fx_mul(TWO, Vec3::dot(&v, &n))))
}

fn pow5(x: i64) -> (r: i64)
    ensures
        r as int == pow5_s(x as int),
{
    fx_mul(fx_mul(fx_mul(fx_mul(x, x), x), x), x)
}

/// Schlick's approximation for angle-dependent reflectance.
pub fn schlick(cosine: i64, ref_idx: i64) -> (r: i64)
    requires
        fx_add_s(ONE as int, ref_idx as int) != 0,
    ensures
        r as int == schlick_s(cosine as int, ref_idx as int),
{
    let mut r0: i64 = fx_div(fx_sub(ONE, ref_idx), fx_add(ONE, ref_idx));
    r0 = fx_mul(r0, r0);
    fx_add(r0, fx_mul(fx_sub(ONE, r0), pow5(fx_sub(ONE, cosine))))
}

/// Total internal reflection can happen when a ray moves from a slower
/// medium to a faster one; nothing comes back when the incident ray lies
/// beyond the critical angle.
pub fn refract(v: Vec3, n: Vec3, ni_over_nt: i64) -> (res: Option<Vec3>)
    requires
        v_len_s(v@) != 0,
    ensures
        res matches Some(x) ==> refract_s(v@, n@, ni_over_nt as int) == Some(x@),
        res is None ==> refract_s(v@, n@, ni_over_nt as int) is None,
{
    let uv = Vec3::unit_vector(v);
    let dt: i64 = Vec3::dot(&uv, &n);
    let discriminant: i64 = fx_sub(
        ONE,
        fx_mul(fx_mul(ni_over_nt, ni_over_nt), fx_sub(ONE, fx_mul(dt, dt))),
    );
    if discriminant > 0 {
        Some(uv.sub(n.scale(dt)).scale(ni_over_nt).sub(n.scale(fx_sqrt(discriminant))))
    } else {
        None
    }
}

/// At head-on incidence the Schlick reflectance is exactly the base
/// reflectance `((1 - n) / (1 + n))^2`.
pub proof fn lemma_schlick_head_on(ref_idx: int)
    ensures
        schlick_s(ONE as int, ref_idx) == schlick_r0_s(ref_idx),
{
    let r0 = schlick_r0_s(ref_idx);
    assert(fx_sub_s(ONE as int, ONE as int) == 0);
    assert(pow5_s(0) == 0);
    assert(fx_mul_s(fx_sub_s(ONE as int, r0), 0) == 0);
    assert(fx_add_s(r0, 0) == r0);
}

/// At grazing incidence the Schlick reflectance is exactly one: as the
/// cosine falls to zero the reflectance rises to its full value.
pub proof fn lemma_schlick_grazing(ref_idx: int)
    requires
        0 <= ref_idx <= FX_MAX as int,
    ensures
        schlick_s(0, ref_idx) == ONE as int,
{
    let num = fx_sub_s(ONE as int, ref_idx);
    let den = fx_add_s(ONE as int, ref_idx);
    assert(den > 0 && abs_s(num) <= den);
    let q = fx_div_s(num, den);
    lemma_fx_div_unit_bound(num, den);
    lemma_fx_square_unit(q);
    let r0 = schlick_r0_s(ref_idx);
    assert(pow5_s(fx_sub_s(ONE as int, 0)) == ONE as int) by {
        lemma_fx_mul_one(ONE as int);
        lemma_fx_mul_one(fx_mul_s(ONE as int, ONE as int));
        lemma_fx_mul_one(fx_mul_s(fx_mul_s(ONE as int, ONE as int), ONE as int));
        lemma_fx_mul_one(
            fx_mul_s(fx_mul_s(fx_mul_s(ONE as int, ONE as int), ONE as int), ONE as int),
        );
    }
    lemma_fx_mul_one(fx_sub_s(ONE as int, r0));
}

impl Lambertian {
    pub fn new(albedo: Vec3, idx: u32) -> (m: Lambertian)
        ensures
            m@ == (LambertianS { albedo: albedo@, idx }),
    {
        Lambertian { albedo, idx }
    }

    /// Diffuse scatter; always returns a scattered ray, never signals
    /// absorption.
    pub fn scatter(
        &self,
        _r_in: &Ray,
        record: &HitRecord,
        attenuation: &mut Vec3,
        scattered: &mut Ray,
        rng: &mut Rng,
    ) -> (ret: bool)
        ensures
            ret,
            ({
                let sc = lambertian_scatter_s(self@, record@, old(rng)@);
                ret == sc.ok && final(attenuation)@ == sc.att && final(scattered)@ == sc.ray
                    && final(rng)@ == sc.st
            }),
    {
        let target = record.p.add(record.normal).add(random_in_unit_sphere(rng));
        *scattered = Ray::new(record.p, target.sub(record.p));
        *attenuation = self.albedo;
        true
    }

    pub fn get_idx(&self) -> (idx: u32)
        ensures
            idx == self@.idx,
    {
        self.idx
    }
}

impl Metal {
    /// The fuzz is clamped to at most one at construction.
    pub fn new(albedo: Vec3, fuzz: i64, idx: u32) -> (m: Metal)
        ensures
            m@ == (MetalS {
                albedo: albedo@,
                fuzz: if fuzz < ONE {
                    fuzz as int
                } else {
                    ONE as int
                },
                idx,
            }),
    {
        let clamped_fuzz: i64 = if fuzz < ONE {
            fuzz
        } else {
            ONE
        };
        Metal { albedo, fuzz: clamped_fuzz, idx }
    }

    /// Metal scatter; succeeds exactly when the scattered direction
    /// points out of the surface, and signals absorption otherwise.
    pub fn scatter(
        &self,
        r_in: &Ray,
        record: &HitRecord,
        attenuation: &mut Vec3,
        scattered: &mut Ray,
        rng: &mut Rng,
    ) -> (ret: bool)
        ensures
            ret <==> v_dot_s(final(scattered)@.dir, record@.normal) > 0,
            ({
                let sc = metal_scatter_s(self@, r_in@, record@, old(rng)@);
                ret == sc.ok && final(attenuation)@ == sc.att && final(scattered)@ == sc.ray
                    && final(rng)@ == sc.st
            }),
    {
        let dir = r_in.dir();
        let len: i64 = dir.length();
        let uv = if len != 0 {
            dir.div_scalar(len)
        } else {
            Vec3::init()
        };
        let reflected = reflect(uv, record.normal);
        *scattered = Ray::new(record.p, reflected.add(random_in_unit_sphere(rng).scale(self.fuzz)));
        *attenuation = self.albedo;
        Vec3::dot(&scattered.dir(), &record.normal) > 0
    }

    pub fn get_idx(&self) -> (idx: u32)
        ensures
            idx == self@.idx,
    {
        self.idx
    }
}

impl Dielectric {
    pub fn new(ref_idx: i64, idx: u32) -> (m: Dielectric)
        ensures
            m@ == (DielectricS { ref_idx: ref_idx as int, idx }),
    {
        Dielectric { ref_idx, idx }
    }

    /// Dielectric scatter; always survives with unit attenuation, and
    /// chooses between reflection and refraction by the Schlick
    /// probability.
    pub fn scatter(
        &self,
        r_in: &Ray,
        record: &HitRecord,
        attenuation: &mut Vec3,
        scattered: &mut Ray,
        rng: &mut Rng,
    ) -> (ret: bool)
        requires
            self.ref_idx > 0,
        ensures
            ret,
            ({
                let sc = dielectric_scatter_s(self@, r_in@, record@, old(rng)@);
                ret == sc.ok && final(attenuation)@ == sc.att && final(scattered)@ == sc.ray
                    && final(rng)@ == sc.st
            }),
    {
        *attenuation = Vec3::new(ONE, ONE, ONE);
        let dir = r_in.dir();
        let len: i64 = dir.length();
        proof {
            lemma_fx_sqrt_nonneg(v_len2_s(dir@));
        }
        let dot_in: i64 = Vec3::dot(&dir, &record.normal);
        if len > 0 {
            let outward_normal: Vec3;
            let ni_over_nt: i64;
            let cosine: i64;
            if dot_in > 0 {
                outward_normal = record.normal.neg();
                ni_over_nt = self.ref_idx;
                cosine = fx_div(fx_mul(self.ref_idx, dot_in), len);
            } else {
                outward_normal = record.normal;
                ni_over_nt = fx_div(ONE, self.ref_idx);
                cosine = fx_div(fx_neg(dot_in), len);
            }
            let mut refracted = Vec3::init();
            let reflect_prob: i64;
            match refract(dir, outward_normal, ni_over_nt) {
                Some(refrac) => {
                    refracted = refrac;
                    reflect_prob = schlick(cosine, self.ref_idx);
                },
                None => {
                    reflect_prob = ONE;
                },
            }
            if rand_unit(rng) < reflect_prob {
                *scattered = Ray::new(record.p, reflect(dir, record.normal));
            } else {
                *scattered = Ray::new(record.p, refracted);
            }
            true
        } else {
            // a degenerate direction admits no refraction: the draw still
            // happens, and the reflected direction is taken
            let toss: i64 = rand_unit(rng);
            assert(toss < ONE);
            *scattered = Ray::new(record.p, reflect(dir, record.normal));
            true
        }
    }

    pub fn get_idx(&self) -> (idx: u32)
        ensures
            idx == self@.idx,
    {
        self.idx
    }
}

/// Mathematical model of a material table entry.
pub enum MaterialS {
    Lambertian(LambertianS),
    Metal(MetalS),
    Dielectric(DielectricS),
}

/// A scattering behavior; the set of behaviors is closed, so matching is
/// exhaustive.
#[derive(Clone, Copy, Debug)]
pub enum Material {
    Lambertian(Lambertian),
    Metal(Metal),
    Dielectric(Dielectric),
}

impl View for Material {
    type V = MaterialS;

    open spec fn view(&self) -> MaterialS {
        match self {
            Material::Lambertian(m) => MaterialS::Lambertian(m@),
            Material::Metal(m) => MaterialS::Metal(m@),
            Material::Dielectric(m) => MaterialS::Dielectric(m@),
        }
    }
}

/// A dielectric entry must carry a positive refractive index, so the
/// reciprocal index and the Schlick denominator are defined.
pub open spec fn material_wf(m: MaterialS) -> bool {
    match m {
        MaterialS::Dielectric(d) => d.ref_idx > 0,
        _ => true,
    }
}

/// A material table as mathematical models, entry by entry.
pub open spec fn mats_view_s(mats: Seq<Material>) -> Seq<MaterialS> {
    mats.map_values(|m: Material| m@)
}

/// What any material's scatter leaves behind.
pub open spec fn scatter_s(m: MaterialS, r_in: RayS, rec: HitRecS, st: u64) -> ScatterS {
    match m {
        MaterialS::Lambertian(l) => lambertian_scatter_s(l, rec, st),
        MaterialS::Metal(mt) => metal_scatter_s(mt, r_in, rec, st),
        MaterialS::Dielectric(d) => dielectric_scatter_s(d, r_in, rec, st),
    }
}

impl Material {
    /// Scatters an incoming ray at a hit record, writing the attenuation
    /// and the continuation ray; the return value tells whether the ray
    /// survives.
    pub fn scatter(
        &self,
        r_in: &Ray,
        record: &HitRecord,
        attenuation: &mut Vec3,
        scattered: &mut Ray,
        rng: &mut Rng,
    ) -> (ret: bool)
        requires
            material_wf(self@),
        ensures
            ({
                let sc = scatter_s(self@, r_in@, record@, old(rng)@);
                ret == sc.ok && final(attenuation)@ == sc.att && final(scattered)@ == sc.ray
                    && final(rng)@ == sc.st
            }),
    {
        match self {
            Material::Lambertian(m) => m.scatter(r_in, record, attenuation, scattered, rng),
            Material::Metal(m) => m.scatter(r_in, record, attenuation, scattered, rng),
            Material::Dielectric(m) => m.scatter(r_in, record, attenuation, scattered, rng),
        }
    }

    pub fn get_idx(&self) -> (idx: u32)
        ensures
            idx == match self@ {
                MaterialS::Lambertian(m) => m.idx,
                MaterialS::Metal(m) => m.idx,
                MaterialS::Dielectric(m) => m.idx,
            },
    {
        match self {
            Material::Lambertian(m) => m.get_idx(),
            Material::Metal(m) => m.get_idx(),
            Material::Dielectric(m) => m.get_idx(),
        }
    }
}

} // verus!
