//! Three-component fixed-point vectors, used interchangeably as points,
//! directions and linear-light RGB colors.

use vstd::prelude::*;
use crate::fixed::{
    fx_add, fx_add_s, fx_div, fx_div_s, fx_mul, fx_mul_s, fx_neg, fx_neg_s, fx_sqrt, fx_sqrt_s,
    fx_sub, fx_sub_s,
};

verus! {

/// Mathematical model of a vector: three unbounded scaled integers.
pub struct V3 {
    pub x: int,
    pub y: int,
    pub z: int,
}

/// A vector of three fixed-point scalars.
#[derive(Clone, Copy, Debug, PartialEq, Eq, Structural)]
pub struct Vec3 {
    pub e0: i64,
    pub e1: i64,
    pub e2: i64,
}

impl View for Vec3 {
    type V = V3;

    open spec fn view(&self) -> V3 {
        V3 { x: self.e0 as int, y: self.e1 as int, z: self.e2 as int }
    }
}

pub open spec fn v3(x: int, y: int, z: int) -> V3 {
    V3 { x, y, z }
}

pub open spec fn v_add_s(a: V3, b: V3) -> V3 {
    V3 { x: fx_add_s(a.x, b.x), y: fx_add_s(a.y, b.y), z: fx_add_s(a.z, b.z) }
}

pub open spec fn v_sub_s(a: V3, b: V3) -> V3 {
    V3 { x: fx_sub_s(a.x, b.x), y: fx_sub_s(a.y, b.y), z: fx_sub_s(a.z, b.z) }
}

/// Component-wise product, the attenuation product on colors.
pub open spec fn v_mul_s(a: V3, b: V3) -> V3 {
    V3 { x: fx_mul_s(a.x, b.x), y: fx_mul_s(a.y, b.y), z: fx_mul_s(a.z, b.z) }
}

pub open spec fn v_scale_s(k: int, a: V3) -> V3 {
    V3 { x: fx_mul_s(k, a.x), y: fx_mul_s(k, a.y), z: fx_mul_s(k, a.z) }
}

pub open spec fn v_div_scalar_s(a: V3, k: int) -> V3 {
    V3 { x: fx_div_s(a.x, k), y: fx_div_s(a.y, k), z: fx_div_s(a.z, k) }
}

pub open spec fn v_neg_s(a: V3) -> V3 {
    V3 { x: fx_neg_s(a.x), y: fx_neg_s(a.y), z: fx_neg_s(a.z) }
}

pub open spec fn v_dot_s(a: V3, b: V3) -> int {
    fx_add_s(fx_add_s(fx_mul_s(a.x, b.x), fx_mul_s(a.y, b.y)), fx_mul_s(a.z, b.z))
}

pub open spec fn v_cross_s(a: V3, b: V3) -> V3 {
    V3 {
        x: fx_sub_s(fx_mul_s(a.y, b.z), fx_mul_s(a.z, b.y)),
        y: fx_add_s(fx_neg_s(fx_mul_s(a.x, b.z)), fx_mul_s(a.z, b.x)),
        z: fx_sub_s(fx_mul_s(a.x, b.y), fx_mul_s(a.y, b.x)),
    }
}

pub open spec fn v_len2_s(a: V3) -> int {
    v_dot_s(a, a)
}

pub open spec fn v_len_s(a: V3) -> int {
    fx_sqrt_s(v_len2_s(a))
}

/// Normalization; meaningful only when the computed length is positive.
pub open spec fn v_unit_s(a: V3) -> V3 {
    v_div_scalar_s(a, v_len_s(a))
}

impl Vec3 {
    pub fn new(x: i64, y: i64, z: i64) -> (v: Vec3)
        ensures
            v@ == v3(x as int, y as int, z as int),
    {
        Vec3 { e0: x, e1: y, e2: z }
    }

    pub fn init() -> (v: Vec3)
        ensures
            v@ == v3(0, 0, 0),
    {
        Vec3 { e0: 0, e1: 0, e2: 0 }
    }

    pub fn x(&self) -> (r: i64)
        ensures
            r as int == self@.x,
    {
        self.e0
    }

    pub fn y(&self) -> (r: i64)
        ensures
            r as int == self@.y,
    {
        self.e1
    }

    pub fn z(&self) -> (r: i64)
        ensures
            r as int == self@.z,
    {
        self.e2
    }

    pub fn r(&self) -> (r: i64)
        ensures
            r as int == self@.x,
    {
        self.e0
    }

    pub fn g(&self) -> (r: i64)
        ensures
            r as int == self@.y,
    {
        self.e1
    }

    pub fn b(&self) -> (r: i64)
        ensures
            r as int == self@.z,
    {
        self.e2
    }

    pub fn squared_length(&self) -> (r: i64)
        ensures
            r as int == v_len2_s(self@),
    {
        Vec3::dot(self, self)
    }

    pub fn length(&self) -> (r: i64)
        ensures
            r as int == v_len_s(self@),
    {
        fx_sqrt(self.squared_length())
    }

    pub fn make_unit_vector(&mut self)
        requires
            v_len_s(old(self)@) != 0,
        ensures
            final(self)@ == v_unit_s(old(self)@),
    {
        let k: i64 = self.length();
        self.e0 = fx_div(self.e0, k);
        self.e1 = fx_div(self.e1, k);
        self.e2 = fx_div(self.e2, k);
    }

    pub fn unit_vector(v: Vec3) -> (r: Vec3)
        requires
            v_len_s(v@) != 0,
        ensures
            r@ == v_unit_s(v@),
    {
        v.div_scalar(v.length())
    }

    pub fn dot(v1: &Vec3, v2: &Vec3) -> (r: i64)
        ensures
            r as int == v_dot_s(v1@, v2@),
    {
        fx_add(fx_add(fx_mul(v1.e0, v2.e0), fx_mul(v1.e1, v2.e1)), fx_mul(v1.e2, v2.e2))
    }

    pub fn cross(v1: &Vec3, v2: &Vec3) -> (r: Vec3)
        ensures
            r@ == v_cross_s(v1@, v2@),
    {
        Vec3 {
            e0: fx_sub(fx_mul(v1.e1, v2.e2), fx_mul(v1.e2, v2.e1)),
            e1: fx_add(fx_neg(fx_mul(v1.e0, v2.e2)), fx_mul(v1.e2, v2.e0)),
            e2: fx_sub(fx_mul(v1.e0, v2.e1), fx_mul(v1.e1, v2.e0)),
        }
    }

    pub fn add(self, rhs: Vec3) -> (r: Vec3)
        ensures
            r@ == v_add_s(self@, rhs@),
    {
        Vec3 {
            e0: fx_add(self.e0, rhs.e0),
            e1: fx_add(self.e1, rhs.e1),
            e2: fx_add(self.e2, rhs.e2),
        }
    }

    pub fn sub(self, rhs: Vec3) -> (r: Vec3)
        ensures
            r@ == v_sub_s(self@, rhs@),
    {
        Vec3 {
            e0: fx_sub(self.e0, rhs.e0),
            e1: fx_sub(self.e1, rhs.e1),
            e2: fx_sub(self.e2, rhs.e2),
        }
    }

    pub fn mul(self, rhs: Vec3) -> (r: Vec3)
        ensures
            r@ == v_mul_s(self@, rhs@),
    {
        Vec3 {
            e0: fx_mul(self.e0, rhs.e0),
            e1: fx_mul(self.e1, rhs.e1),
            e2: fx_mul(self.e2, rhs.e2),
        }
    }

    pub fn scale(self, k: i64) -> (r: Vec3)
        ensures
            r@ == v_scale_s(k as int, self@),
    {
        Vec3 { e0: fx_mul(k, self.e0), e1: fx_mul(k, self.e1), e2: fx_mul(k, self.e2) }
    }

    pub fn div_scalar(self, k: i64) -> (r: Vec3)
        requires
            k != 0,
        ensures
            r@ == v_div_scalar_s(self@, k as int),
    {
        Vec3 { e0: fx_div(self.e0, k), e1: fx_div(self.e1, k), e2: fx_div(self.e2, k) }
    }

    pub fn neg(self) -> (r: Vec3)
        ensures
            r@ == v_neg_s(self@),
    {
        Vec3 { e0: fx_neg(self.e0), e1: fx_neg(self.e1), e2: fx_neg(self.e2) }
    }
}

} // verus!
