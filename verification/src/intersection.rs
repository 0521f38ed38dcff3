//! Ray/sphere intersection by the quadratic formula, returning only the
//! entry parameter.

use vstd::prelude::*;
use crate::fixed::{
    fx_div, fx_div_s, fx_mul, fx_mul_s, fx_neg, fx_neg_s, fx_sqrt, fx_sqrt_s, fx_sub,
    fx_sub_s, lemma_fx_mul_two_pos, FOUR, TWO,
};
use crate::vec3::{v_dot_s, v_sub_s, Vec3};
use crate::objects::{Sphere, SphereGeomS};
use crate::ray::{Ray, RayS};

verus! {

pub open spec fn quad_a_s(s: SphereGeomS, r: RayS) -> int {
    v_dot_s(r.dir, r.dir)
}

pub open spec fn quad_b_s(s: SphereGeomS, r: RayS) -> int {
    fx_mul_s(TWO as int, v_dot_s(v_sub_s(r.orig, s.center), r.dir))
}

pub open spec fn quad_c_s(s: SphereGeomS, r: RayS) -> int {
    fx_sub_s(
        v_dot_s(v_sub_s(r.orig, s.center), v_sub_s(r.orig, s.center)),
        fx_mul_s(s.radius, s.radius),
    )
}

pub open spec fn quad_disc_s(s: SphereGeomS, r: RayS) -> int {
    fx_sub_s(
        fx_mul_s(quad_b_s(s, r), quad_b_s(s, r)),
        fx_mul_s(fx_mul_s(FOUR as int, quad_a_s(s, r)), quad_c_s(s, r)),
    )
}

/// The entry intersection parameter: the smaller quadratic root, present
/// whenever the discriminant is not negative. A ray whose direction is so
/// short that its scaled self-dot-product vanishes never records a hit.
pub open spec fn hit_sphere_s(s: SphereGeomS, r: RayS) -> Option<int> {
    if quad_a_s(s, r) <= 0 || quad_disc_s(s, r) < 0 {
        None
    } else {
        Some(
            fx_div_s(
                fx_sub_s(fx_neg_s(quad_b_s(s, r)), fx_sqrt_s(quad_disc_s(s, r))),
                fx_mul_s(TWO as int, quad_a_s(s, r)),
            ),
        )
    }
}

/// Solves `a*t^2 + b*t + c = 0` for the ray parameter of the first
/// intersection; a non-negative discriminant means a hit, and the smaller
/// of the two roots is the entry point rather than the exit.
pub fn hit_sphere(s: &Sphere, r: &Ray) -> (res: Option<i64>)
    ensures
        res matches Some(t) ==> hit_sphere_s(s@, r@) == Some(t as int),
        res is None ==> hit_sphere_s(s@, r@) is None,
{
    let oc = r.origin().sub(s.center());
    let rdir = r.dir();
    let a: i64 = Vec3::dot(&rdir, &rdir);
    let b: i64 = fx_mul(TWO, Vec3::dot(&oc, &rdir));
    let c: i64 = fx_sub(Vec3::dot(&oc, &oc), fx_mul(s.radius(), s.radius()));
    let discriminant: i64 = fx_sub(fx_mul(b, b), fx_mul(fx_mul(FOUR, a), c));
    if a <= 0 || discriminant < 0 {
        None
    } else {
        proof {
            lemma_fx_mul_two_pos(a as int);
        }
        Some(fx_div(fx_sub(fx_neg(b), fx_sqrt(discriminant)), fx_mul(TWO, a)))
    }
}

} // verus!
