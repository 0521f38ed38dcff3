//! The thin-lens camera: maps normalized image-plane coordinates plus a
//! lens sample to a world-space ray.

use vstd::prelude::*;
use crate::fixed::{fx_div, fx_div_s, fx_mul, fx_mul_s, TWO};
use crate::vec3::{v_add_s, v_cross_s, v_scale_s, v_sub_s, v_unit_s, Vec3, V3};
use crate::ray::{Ray, RayS};
use crate::rand::{in_unit_disk_s, random_in_unit_disk, Rng, SAMPLE_ATTEMPTS};
use crate::types::Point;

verus! {

/// Mathematical model of a camera.
pub struct CameraS {
    pub origin: V3,
    pub lower_left_corner: V3,
    pub horizontal: V3,
    pub vertical: V3,
    pub u: V3,
    pub v: V3,
    pub lens_radius: int,
}

#[derive(Clone, Copy, Debug, PartialEq, Eq, Structural)]
pub struct Camera {
    pub origin: Point,
    pub lower_left_corner: Point,
    pub horizontal: Vec3,
    pub vertical: Vec3,
    pub u: Vec3,
    pub v: Vec3,
    pub lens_radius: i64,
}

impl View for Camera {
    type V = CameraS;

    open spec fn view(&self) -> CameraS {
        CameraS {
            origin: self.origin@,
            lower_left_corner: self.lower_left_corner@,
            horizontal: self.horizontal@,
            vertical: self.vertical@,
            u: self.u@,
            v: self.v@,
            lens_radius: self.lens_radius as int,
        }
    }
}

/// The camera derived from its construction parameters: an orthonormal
/// frame `(u, v, w)`, an image-plane corner, and frustum-scaled basis
/// vectors. The vertical field of view enters as the tangent of its
/// half-angle.
pub open spec fn camera_s(
    lookfrom: V3,
    lookat: V3,
    vup: V3,
    tan_half_vfov: int,
    aspect: int,
    aperture: int,
    focus_dist: int,
) -> CameraS {
    let half_height = tan_half_vfov;
    let half_width = fx_mul_s(aspect, half_height);
    let w = v_unit_s(v_sub_s(lookfrom, lookat));
    let u = v_unit_s(v_cross_s(vup, w));
    let v = v_cross_s(w, u);
    CameraS {
        origin: lookfrom,
        lower_left_corner: v_sub_s(
            lookfrom,
            v_scale_s(
                focus_dist,
                v_add_s(v_add_s(v_scale_s(half_width, u), v_scale_s(half_height, v)), w),
            ),
        ),
        horizontal: v_scale_s(fx_mul_s(fx_mul_s(TWO as int, half_width), focus_dist), u),
        vertical: v_scale_s(fx_mul_s(fx_mul_s(TWO as int, half_height), focus_dist), v),
        u,
        v,
        lens_radius: fx_div_s(aperture, TWO as int),
    }
}

/// The ray cast for image-plane coordinates `(s, t)` with a fresh lens
/// sample: the origin is offset inside the lens disk and the direction
/// aims at the corresponding point of the focus plane.
pub open spec fn get_ray_s(c: CameraS, s: int, t: int, st: u64) -> (RayS, u64) {
    let (d, st2) = in_unit_disk_s(st, SAMPLE_ATTEMPTS as nat);
    let rd = v_scale_s(c.lens_radius, d);
    let offset = v_add_s(v_scale_s(rd.x, c.u), v_scale_s(rd.y, c.v));
    (
        RayS {
            orig: v_add_s(c.origin, offset),
            dir: v_sub_s(
                v_sub_s(
                    v_add_s(
                        v_add_s(c.lower_left_corner, v_scale_s(s, c.horizontal)),
                        v_scale_s(t, c.vertical),
                    ),
                    c.origin,
                ),
                offset,
            ),
        },
        st2,
    )
}

/// Normalization made total: with nothing to divide by the zero vector
/// comes back, exactly as `v_unit_s` reads on a vanishing length.
fn normalize_or_zero(v: Vec3) -> (r: Vec3)
    ensures
        r@ == v_unit_s(v@),
{
    let len: i64 = v.length();
    if len != 0 {
        v.div_scalar(len)
    } else {
        Vec3::init()
    }
}

impl Camera {
    /// Builds the camera frame. `tan_half_vfov` is the tangent of half
    /// the vertical field of view; `aspect` is width over height. For a
    /// meaningful frame the gaze must not vanish and the up vector must
    /// not be parallel to it; a degenerate input still constructs, with
    /// zero basis vectors where normalization has nothing to divide by.
    pub fn new(
        lookfrom: Point,
        lookat: Point,
        vup: Vec3,
        tan_half_vfov: i64,
        aspect: i64,
        aperture: i64,
        focus_dist: i64,
    ) -> (c: Camera)
        ensures
            c@ == camera_s(
                lookfrom@,
                lookat@,
                vup@,
                tan_half_vfov as int,
                aspect as int,
                aperture as int,
                focus_dist as int,
            ),
    {
        let half_height: i64 = tan_half_vfov;
        let half_width: i64 = fx_mul(aspect, half_height);
        let lens_radius: i64 = fx_div(aperture, TWO);
        let w = normalize_or_zero(lookfrom.sub(lookat));
        let u = normalize_or_zero(Vec3::cross(&vup, &w));
        let v = Vec3::cross(&w, &u);
        Camera {
            origin: lookfrom,
            lower_left_corner: lookfrom.sub(
                u.scale(half_width).add(v.scale(half_height)).add(w).scale(focus_dist),
            ),
            horizontal: u.scale(fx_mul(fx_mul(TWO, half_width), focus_dist)),
            vertical: v.scale(fx_mul(fx_mul(TWO, half_height), focus_dist)),
            u,
            v,
            lens_radius,
        }
    }

    /// Casts the camera ray for normalized image-plane coordinates
    /// `(s, t)`, sampling the lens disk from the supplied random source.
    pub fn get_ray(&self, s: i64, t: i64, rng: &mut Rng) -> (r: Ray)
        ensures
            (r@, final(rng)@) == get_ray_s(self@, s as int, t as int, old(rng)@),
    {
        let rd = random_in_unit_disk(rng).scale(self.lens_radius);
        let offset = self.u.scale(rd.x()).add(self.v.scale(rd.y()));
        Ray::new(
            self.origin.add(offset),
            self.lower_left_corner.add(self.horizontal.scale(s)).add(self.vertical.scale(t)).sub(
                self.origin,
            ).sub(offset),
        )
    }
}

} // verus!
