//! Rays: an origin point plus a direction vector (not required to be unit
//! length).

use vstd::prelude::*;
use crate::vec3::{v3, v_add_s, v_scale_s, Vec3, V3};
use crate::types::Point;

verus! {

/// Mathematical model of a ray.
pub struct RayS {
    pub orig: V3,
    pub dir: V3,
}

#[derive(Clone, Copy, Debug, PartialEq, Eq, Structural)]
pub struct Ray {
    pub orig: Point,
    pub dir: Vec3,
}

impl View for Ray {
    type V = RayS;

    open spec fn view(&self) -> RayS {
        RayS { orig: self.orig@, dir: self.dir@ }
    }
}

/// The point reached after travelling `t` along the ray.
pub open spec fn ray_at_s(r: RayS, t: int) -> V3 {
    v_add_s(r.orig, v_scale_s(t, r.dir))
}

impl Ray {
    pub fn new(orig: Point, dir: Vec3) -> (r: Ray)
        ensures
            r@ == (RayS { orig: orig@, dir: dir@ }),
    {
        Ray { orig, dir }
    }

    pub fn origin(&self) -> (p: Point)
        ensures
            p@ == self@.orig,
    {
        self.orig
    }

    pub fn dir(&self) -> (d: Vec3)
        ensures
            d@ == self@.dir,
    {
        self.dir
    }

    pub fn point_at_parameter(&self, t: i64) -> (p: Point)
        ensures
            p@ == ray_at_s(self@, t as int),
    {
        self.orig.add(self.dir.scale(t))
    }
}

} // verus!
