//! Hit-testable spheres and the aggregate that returns the globally
//! nearest valid hit.

use vstd::prelude::*;
use crate::fixed::{
    fx_add, fx_add_s, fx_div_s, fx_mul, fx_mul_s, fx_neg, fx_neg_s, fx_sqrt, fx_sqrt_s, fx_sub,
    fx_sub_s, fx_div, lemma_fx_div_mono, lemma_fx_div_neg, lemma_fx_mul_self_neg,
    lemma_fx_mul_two_pos, lemma_fx_sqrt_nonneg, FOUR, TWO,
};
use crate::vec3::{v3, v_div_scalar_s, v_dot_s, v_neg_s, v_sub_s, Vec3, V3};
use crate::ray::{ray_at_s, Ray, RayS};
use crate::types::Point;

verus! {

/// Mathematical model of a hit record.
pub struct HitRecS {
    /// Ray parameter of the hit.
    pub t: int,
    /// World-space hit point.
    pub p: V3,
    /// Normal at the hit point, signed by the sphere radius.
    pub normal: V3,
    /// Index of the sphere's material in the material table.
    pub mat: Option<u32>,
}

#[derive(Clone, Copy, Debug, PartialEq, Eq, Structural)]
pub struct HitRecord {
    pub t: i64,
    pub p: Point,
    pub normal: Vec3,
    pub mat: Option<u32>,
}

impl View for HitRecord {
    type V = HitRecS;

    open spec fn view(&self) -> HitRecS {
        HitRecS { t: self.t as int, p: self.p@, normal: self.normal@, mat: self.mat }
    }
}

impl Default for HitRecord {
    fn default() -> (r: HitRecord)
        ensures
            r@ == (HitRecS { t: 0, p: v3(0, 0, 0), normal: v3(0, 0, 0), mat: None::<u32> }),
    {
        HitRecord { t: 0, p: Vec3::init(), normal: Vec3::init(), mat: None }
    }
}

/// Mathematical model of a sphere with a material handle.
pub struct SphereS {
    pub center: V3,
    pub radius: int,
    pub material: u32,
}

#[derive(Clone, Copy, Debug, PartialEq, Eq, Structural)]
pub struct Sphere {
    pub center: Point,
    pub radius: i64,
    pub material: u32,
}

impl View for Sphere {
    type V = SphereS;

    open spec fn view(&self) -> SphereS {
        SphereS { center: self.center@, radius: self.radius as int, material: self.material }
    }
}

#[verifier::opaque]
pub open spec fn sphere_a_s(s: SphereS, r: RayS) -> int {
    v_dot_s(r.dir, r.dir)
}

#[verifier::opaque]
pub open spec fn sphere_b_s(s: SphereS, r: RayS) -> int {
    fx_mul_s(TWO as int, v_dot_s(v_sub_s(r.orig, s.center), r.dir))
}

#[verifier::opaque]
pub open spec fn sphere_c_s(s: SphereS, r: RayS) -> int {
    fx_sub_s(
        v_dot_s(v_sub_s(r.orig, s.center), v_sub_s(r.orig, s.center)),
        fx_mul_s(s.radius, s.radius),
    )
}

#[verifier::opaque]
pub open spec fn sphere_disc_s(s: SphereS, r: RayS) -> int {
    fx_sub_s(
        fx_mul_s(sphere_b_s(s, r), sphere_b_s(s, r)),
        fx_mul_s(fx_mul_s(FOUR as int, sphere_a_s(s, r)), sphere_c_s(s, r)),
    )
}

/// The smaller quadratic root: the entry intersection.
#[verifier::opaque]
pub open spec fn sphere_root_lo_s(s: SphereS, r: RayS) -> int {
    fx_div_s(
        fx_sub_s(fx_neg_s(sphere_b_s(s, r)), fx_sqrt_s(sphere_disc_s(s, r))),
        fx_mul_s(TWO as int, sphere_a_s(s, r)),
    )
}

/// The larger quadratic root: the exit intersection.
#[verifier::opaque]
pub open spec fn sphere_root_hi_s(s: SphereS, r: RayS) -> int {
    fx_div_s(
        fx_add_s(fx_neg_s(sphere_b_s(s, r)), fx_sqrt_s(sphere_disc_s(s, r))),
        fx_mul_s(TWO as int, sphere_a_s(s, r)),
    )
}

/// The parameter a sphere records over the open interval `(t0, t1)`: the
/// smaller root if it lies strictly inside, else the larger root if it
/// does, else nothing. A non-positive discriminant is never a hit, and
/// neither is a direction whose scaled self-dot-product vanishes.
pub open spec fn sphere_hit_t_s(s: SphereS, r: RayS, t0: int, t1: int) -> Option<int> {
    if sphere_a_s(s, r) <= 0 || sphere_disc_s(s, r) <= 0 {
        None
    } else if t0 < sphere_root_lo_s(s, r) < t1 {
        Some(sphere_root_lo_s(s, r))
    } else if t0 < sphere_root_hi_s(s, r) < t1 {
        Some(sphere_root_hi_s(s, r))
    } else {
        None
    }
}

/// The record a sphere produces at parameter `t`: hit point on the ray,
/// normal scaled by the signed radius, the sphere's material handle.
pub open spec fn sphere_rec_s(s: SphereS, r: RayS, t: int) -> HitRecS {
    HitRecS {
        t,
        p: ray_at_s(r, t),
        normal: v_div_scalar_s(v_sub_s(ray_at_s(r, t), s.center), s.radius),
        mat: Some(s.material),
    }
}

/// Both roots exist in order: the entry root never exceeds the exit root.
pub proof fn lemma_roots_ordered(s: SphereS, r: RayS)
    requires
        sphere_a_s(s, r) > 0,
        sphere_disc_s(s, r) > 0,
    ensures
        sphere_root_lo_s(s, r) <= sphere_root_hi_s(s, r),
{
    reveal(sphere_root_lo_s);
    reveal(sphere_root_hi_s);
    let b = sphere_b_s(s, r);
    let sq = fx_sqrt_s(sphere_disc_s(s, r));
    lemma_fx_sqrt_nonneg(sphere_disc_s(s, r));
    lemma_fx_mul_two_pos(sphere_a_s(s, r));
    lemma_fx_div_mono(
        fx_sub_s(fx_neg_s(b), sq),
        fx_add_s(fx_neg_s(b), sq),
        fx_mul_s(TWO as int, sphere_a_s(s, r)),
    );
}

/// Shrinking the far end of the interval: a hit nearer than the new end
/// is kept unchanged, and every other outcome becomes a miss.
pub proof fn lemma_hit_t_restrict(s: SphereS, r: RayS, t0: int, t1: int, c: int)
    requires
        c <= t1,
    ensures
        sphere_hit_t_s(s, r, t0, t1) matches Some(t) ==> (t < c ==> sphere_hit_t_s(s, r, t0, c)
            == Some(t)) && (t >= c ==> sphere_hit_t_s(s, r, t0, c) is None),
        sphere_hit_t_s(s, r, t0, t1) is None ==> sphere_hit_t_s(s, r, t0, c) is None,
{
    if sphere_a_s(s, r) > 0 && sphere_disc_s(s, r) > 0 {
        lemma_roots_ordered(s, r);
    }
}

impl Sphere {
    pub fn new(center: Point, radius: i64, material: u32) -> (s: Sphere)
        ensures
            s@ == (SphereS { center: center@, radius: radius as int, material }),
    {
        Sphere { center, radius, material }
    }

    pub fn center(&self) -> (c: Point)
        ensures
            c@ == self@.center,
    {
        self.center
    }

    pub fn radius(&self) -> (r: i64)
        ensures
            r as int == self@.radius,
    {
        self.radius
    }

    /// Tests the ray against this sphere over the open interval
    /// `(t_min, t_max)`, writing the record of the nearer valid root.
    pub fn hit(&self, r: &Ray, t_min: i64, t_max: i64, record: &mut HitRecord) -> (ret: bool)
        requires
            self.radius != 0,
        ensures
            ret <==> sphere_hit_t_s(self@, r@, t_min as int, t_max as int) is Some,
            sphere_hit_t_s(self@, r@, t_min as int, t_max as int) matches Some(t)
                ==> final(record)@ == sphere_rec_s(self@, r@, t),
            !ret ==> *final(record) == *old(record),
    {
        proof {
            reveal(sphere_a_s);
            reveal(sphere_b_s);
            reveal(sphere_c_s);
            reveal(sphere_disc_s);
            reveal(sphere_root_lo_s);
            reveal(sphere_root_hi_s);
        }
        let oc = r.origin().sub(self.center);
        let rdir = r.dir();
        let a: i64 = Vec3::dot(&rdir, &rdir);
        let b: i64 = fx_mul(TWO, Vec3::dot(&oc, &rdir));
        let c: i64 = fx_sub(Vec3::dot(&oc, &oc), fx_mul(self.radius, self.radius));
        let discriminant: i64 = fx_sub(fx_mul(b, b), fx_mul(fx_mul(FOUR, a), c));
        if discriminant > 0 && a > 0 {
            proof {
                lemma_fx_mul_two_pos(a as int);
            }
            let denom: i64 = fx_mul(TWO, a);
            let sq: i64 = fx_sqrt(discriminant);
            // the smaller root is the entry hit rather than the exit
            let curr_t: i64 = fx_div(fx_sub(fx_neg(b), sq), denom);
            if curr_t < t_max && curr_t > t_min {
                record.t = curr_t;
                record.p = r.point_at_parameter(curr_t);
                // signed by the radius, so a negative radius points inward
                record.normal = record.p.sub(self.center).div_scalar(self.radius);
                record.mat = Some(self.material);
                return true;
            }
            // check the other root
            let curr_t: i64 = fx_div(fx_add(fx_neg(b), sq), denom);
            if curr_t < t_max && curr_t > t_min {
                record.t = curr_t;
                record.p = r.point_at_parameter(curr_t);
                record.normal = record.p.sub(self.center).div_scalar(self.radius);
                record.mat = Some(self.material);
                return true;
            }
        }
        false
    }
}

/// Every sphere of a world has a non-zero radius, so normals are always
/// defined.
pub open spec fn world_wf(spheres: Seq<SphereS>) -> bool {
    forall|i: int| 0 <= i < spheres.len() ==> (#[trigger] spheres[i]).radius != 0
}

/// The record the sequential scan settles on: each sphere is tested over
/// `(t0, closest-so-far)`, and a success replaces the record and tightens
/// the interval.
pub open spec fn world_hit_s(spheres: Seq<SphereS>, r: RayS, t0: int, t1: int) -> Option<HitRecS>
    decreases spheres.len(),
{
    if spheres.len() == 0 {
        None
    } else {
        let prev = world_hit_s(spheres.drop_last(), r, t0, t1);
        let closest = match prev {
            Some(pr) => pr.t,
            None => t1,
        };
        match sphere_hit_t_s(spheres.last(), r, t0, closest) {
            Some(t) => Some(sphere_rec_s(spheres.last(), r, t)),
            None => prev,
        }
    }
}

/// `t` is no farther than the hit `o` records, if any.
pub open spec fn hit_at_or_beyond(o: Option<int>, t: int) -> bool {
    match o {
        Some(ti) => t <= ti,
        None => true,
    }
}

/// Nearest-hit selection: the scan's record always carries the globally
/// minimal valid parameter over the full interval; it comes from one of
/// the spheres, and no sphere hits strictly nearer. A miss means no
/// sphere hits the full interval at all.
#[verifier::rlimit(50)]
pub proof fn lemma_world_hit_min(spheres: Seq<SphereS>, r: RayS, t0: int, t1: int)
    ensures
        world_hit_s(spheres, r, t0, t1) matches Some(rec) ==> {
            &&& t0 < rec.t < t1
            &&& exists|j: int|
                0 <= j < spheres.len() && sphere_hit_t_s(#[trigger] spheres[j], r, t0, t1)
                    == Some(rec.t) && rec == sphere_rec_s(spheres[j], r, rec.t)
            &&& forall|i: int|
                0 <= i < spheres.len() ==> hit_at_or_beyond(
                    sphere_hit_t_s(#[trigger] spheres[i], r, t0, t1),
                    rec.t,
                )
        },
        world_hit_s(spheres, r, t0, t1) is None ==> forall|i: int|
            0 <= i < spheres.len() ==> sphere_hit_t_s(#[trigger] spheres[i], r, t0, t1) is None,
    decreases spheres.len(),
{
    if spheres.len() == 0 {
    } else {
        let prefix = spheres.drop_last();
        let last = spheres.last();
        lemma_world_hit_min(prefix, r, t0, t1);
        let prev = world_hit_s(prefix, r, t0, t1);
        let closest = match prev {
            Some(pr) => pr.t,
            None => t1,
        };
        lemma_hit_t_restrict(last, r, t0, t1, closest);
        assert(forall|i: int| 0 <= i < prefix.len() ==> spheres[i] == #[trigger] prefix[i]);
        match sphere_hit_t_s(last, r, t0, closest) {
            Some(t) => {
                let rec = sphere_rec_s(last, r, t);
                assert(sphere_hit_t_s(last, r, t0, t1) == Some(t)) by {
                    match sphere_hit_t_s(last, r, t0, t1) {
                        Some(tf) => {},
                        None => {},
                    }
                }
                assert(spheres[spheres.len() - 1] == last);
                assert(world_hit_s(spheres, r, t0, t1) == Some(rec));
                assert(t0 < t < closest && closest <= t1);
                assert(0 <= spheres.len() - 1 < spheres.len() && sphere_hit_t_s(
                    spheres[spheres.len() - 1],
                    r,
                    t0,
                    t1,
                ) == Some(rec.t) && rec == sphere_rec_s(spheres[spheres.len() - 1], r, rec.t));
                assert forall|i: int| 0 <= i < spheres.len() implies hit_at_or_beyond(
                    sphere_hit_t_s(#[trigger] spheres[i], r, t0, t1),
                    rec.t,
                ) by {
                    if i < spheres.len() - 1 {
                        assert(spheres[i] == prefix[i]);
                        assert(hit_at_or_beyond(sphere_hit_t_s(prefix[i], r, t0, t1), closest));
                    }
                }
            },
            None => {
                match prev {
                    Some(pr) => {
                        assert(world_hit_s(spheres, r, t0, t1) == Some(pr));
                        let j = choose|j: int|
                            0 <= j < prefix.len() && sphere_hit_t_s(#[trigger] prefix[j], r, t0, t1)
                                == Some(pr.t) && pr == sphere_rec_s(prefix[j], r, pr.t);
                        assert(spheres[j] == prefix[j]);
                        assert(0 <= j < spheres.len() && sphere_hit_t_s(spheres[j], r, t0, t1)
                            == Some(pr.t) && pr == sphere_rec_s(spheres[j], r, pr.t));
                        assert(spheres[spheres.len() - 1] == last);
                        assert forall|i: int| 0 <= i < spheres.len() implies hit_at_or_beyond(
                            sphere_hit_t_s(#[trigger] spheres[i], r, t0, t1),
                            pr.t,
                        ) by {
                            if i < spheres.len() - 1 {
                                assert(spheres[i] == prefix[i]);
                                assert(hit_at_or_beyond(
                                    sphere_hit_t_s(prefix[i], r, t0, t1),
                                    pr.t,
                                ));
                            } else {
                                assert(hit_at_or_beyond(sphere_hit_t_s(last, r, t0, t1), pr.t));
                            }
                        }
                    },
                    None => {
                        assert(spheres[spheres.len() - 1] == last);
                        assert forall|i: int| 0 <= i < spheres.len() implies sphere_hit_t_s(
                            #[trigger] spheres[i],
                            r,
                            t0,
                            t1,
                        ) is None by {
                            if i < spheres.len() - 1 {
                                assert(spheres[i] == prefix[i]);
                            }
                        }
                    },
                }
            },
        }
    }
}

/// Negated radius: identical geometry, hits at the same parameters, and
/// the normal at any hit point has exactly the opposite sign.
pub proof fn lemma_negated_radius(s1: SphereS, s2: SphereS, r: RayS, t0: int, t1: int)
    requires
        s2.center == s1.center,
        s2.radius == -s1.radius,
        s1.radius != 0,
    ensures
        sphere_hit_t_s(s2, r, t0, t1) == sphere_hit_t_s(s1, r, t0, t1),
        sphere_hit_t_s(s1, r, t0, t1) matches Some(t) ==> {
            &&& sphere_rec_s(s2, r, t).p == sphere_rec_s(s1, r, t).p
            &&& sphere_rec_s(s2, r, t).normal == v_neg_s(sphere_rec_s(s1, r, t).normal)
        },
{
    reveal(sphere_a_s);
    reveal(sphere_b_s);
    reveal(sphere_c_s);
    reveal(sphere_disc_s);
    reveal(sphere_root_lo_s);
    reveal(sphere_root_hi_s);
    lemma_fx_mul_self_neg(s1.radius);
    assert(fx_mul_s(s2.radius, s2.radius) == fx_mul_s(s1.radius, s1.radius));
    if sphere_hit_t_s(s1, r, t0, t1) is Some {
        let t = sphere_hit_t_s(s1, r, t0, t1)->Some_0;
        let d = v_sub_s(ray_at_s(r, t), s1.center);
        lemma_fx_div_neg(d.x, s1.radius);
        lemma_fx_div_neg(d.y, s1.radius);
        lemma_fx_div_neg(d.z, s1.radius);
    }
}

/// A sphere list as mathematical models, entry by entry.
pub open spec fn spheres_view_s(list: Seq<Sphere>) -> Seq<SphereS> {
    list.map_values(|s: Sphere| s@)
}

/// An unordered collection of spheres.
pub struct HittableList {
    pub list: Vec<Sphere>,
}

impl View for HittableList {
    type V = Seq<SphereS>;

    open spec fn view(&self) -> Seq<SphereS> {
        spheres_view_s(self.list@)
    }
}

impl HittableList {
    pub fn new(v: Vec<Sphere>) -> (w: HittableList)
        ensures
            w@ == spheres_view_s(v@),
    {
        HittableList { list: v }
    }

    /// Scans every sphere, tightening the far end of the interval to the
    /// closest hit so far; the surviving record is the nearest valid hit
    /// of the whole collection, and no sphere hits strictly nearer.
    pub fn hit(&self, r: &Ray, t_min: i64, t_max: i64, record: &mut HitRecord) -> (ret: bool)
        requires
            world_wf(self@),
        ensures
            ret <==> world_hit_s(self@, r@, t_min as int, t_max as int) is Some,
            world_hit_s(self@, r@, t_min as int, t_max as int) matches Some(rec)
                ==> final(record)@ == rec,
            !ret ==> *final(record) == *old(record),
            ret ==> forall|i: int|
                0 <= i < self@.len() ==> hit_at_or_beyond(
                    sphere_hit_t_s(#[trigger] self@[i], r@, t_min as int, t_max as int),
                    final(record)@.t,
                ),
            !ret ==> forall|i: int|
                0 <= i < self@.len() ==> sphere_hit_t_s(
                    #[trigger] self@[i],
                    r@,
                    t_min as int,
                    t_max as int,
                ) is None,
    {
        let ghost all = self@;
        let mut tmp_record = HitRecord::default();
        let mut hit_anything = false;
        let mut closest_so_far = t_max;
        let mut i: usize = 0;
        while i < self.list.len()
            invariant
                world_wf(all),
                all == self@,
                all.len() == self.list.len(),
                0 <= i <= self.list.len(),
                hit_anything <==> world_hit_s(all.take(i as int), r@, t_min as int, t_max as int)
                    is Some,
                world_hit_s(all.take(i as int), r@, t_min as int, t_max as int) matches Some(rec)
                    ==> *record == tmp_record && tmp_record@ == rec && closest_so_far as int
                    == rec.t,
                !hit_anything ==> *record == *old(record) && closest_so_far == t_max,
            decreases self.list.len() - i,
        {
            proof {
                assert(all.take(i + 1).drop_last() =~= all.take(i as int));
                assert(all.take(i + 1).last() == all[i as int]);
            }
            if self.list[i].hit(r, t_min, closest_so_far, &mut tmp_record) {
                hit_anything = true;
                closest_so_far = tmp_record.t;
                *record = tmp_record;
            }
            i = i + 1;
        }
        proof {
            assert(all.take(all.len() as int) =~= all);
            lemma_world_hit_min(all, r@, t_min as int, t_max as int);
        }
        hit_anything
    }
}

} // verus!
