//! A bare sphere primitive: center and signed radius, no material.

use vstd::prelude::*;
use crate::vec3::V3;
use crate::types::Point;

verus! {

/// Mathematical model of a bare sphere.
pub struct SphereGeomS {
    pub center: V3,
    pub radius: int,
}

#[derive(Clone, Copy, Debug, PartialEq, Eq, Structural)]
pub struct Sphere {
    pub center: Point,
    pub radius: i64,
}

impl View for Sphere {
    type V = SphereGeomS;

    open spec fn view(&self) -> SphereGeomS {
        SphereGeomS { center: self.center@, radius: self.radius as int }
    }
}

impl Sphere {
    pub fn new(center: Point, radius: i64) -> (s: Sphere)
        ensures
            s@ == (SphereGeomS { center: center@, radius: radius as int }),
    {
        Sphere { center, radius }
    }

    pub fn center(&self) -> (c: Point)
        ensures
            c@ == self@.center,
    {
        self.center
    }

    pub fn radius(&self) -> (r: i64)
        ensures
            r as int == self@.radius,
    {
        self.radius
    }
}

} // verus!
