//! The thin-lens camera.
//!
//! Construction takes lookfrom/lookat/up, a vertical field of view in
//! degrees, aspect ratio, aperture and focus distance, and derives the
//! orthonormal basis and image-plane geometry. The half-height is
//! `tan(vfov/2)`, computed by fixed-point Taylor series for sine and
//! cosine (the field of view is limited to [1, 150] degrees, where the
//! series are accurate) and clamped into [0, 4]. Ray generation samples
//! the lens disk for depth of field; `get_ray_with_offset` carries the
//! exact contract with the lens sample as an argument, and `get_ray`
//! draws the sample and calls it.

use vstd::prelude::*;

use crate::fixed::{
    clamp, clamp_i64, div_fp, div_trunc_pos, fp_div, fp_mul, fp_sqrt, iabs, lemma_div_le_num,
    lemma_fp_div_abs, lemma_fp_mul_abs, lemma_isqrt_pos, mul_fp, tdiv, SCALE,
};
use crate::ray::Ray;
use crate::sampler::Sampler;
use crate::sphere::{random_in_unit_sphere, DIR_LIMIT, ORIGIN_LIMIT};
use crate::vector3d::{
    lemma_fp_mul_le, lemma_sdot_bound, scross, sdot, slength, sunit, svadd, svscale, svsub,
    unit_vector, vec_in, Vector3D, UNIT_CLAMP,
};

verus! {

/// Largest magnitude of a derived camera field component.
pub const CAM_LIMIT: i64 = 0x2_0000_0000;

/// Largest magnitude of a camera input coordinate (256 in value).
pub const CAM_IN_LIMIT: i64 = 0x100_0000;

pub struct Camera {
    pub origin: Vector3D,
    pub lower_left_corner: Vector3D,
    pub horizontal: Vector3D,
    pub vertical: Vector3D,
    pub u: Vector3D,
    pub v: Vector3D,
    pub lens_radius: i64,
}

/// Field bounds that `new` establishes and `get_ray` relies on.
pub open spec fn camera_wf(c: Camera) -> bool {
    &&& vec_in(c.origin, CAM_IN_LIMIT as int)
    &&& vec_in(c.lower_left_corner, CAM_LIMIT as int)
    &&& vec_in(c.horizontal, CAM_LIMIT as int)
    &&& vec_in(c.vertical, CAM_LIMIT as int)
    &&& vec_in(c.u, UNIT_CLAMP as int)
    &&& vec_in(c.v, 4 * UNIT_CLAMP)
    &&& 0 <= c.lens_radius <= CAM_IN_LIMIT
}

/// Half the field of view, in fixed-point radians: vfov * pi / 360.
pub open spec fn stheta_half(vfov: int) -> int {
    tdiv(vfov * 205887, 23592960)
}

/// tan(x) by Taylor series for sine and cosine, for x in [0, 1.38)
/// radians, clamped into [0, 4].
pub open spec fn stan(x: int) -> int {
    let x2 = fp_mul(x, x);
    let x3 = fp_mul(x2, x);
    let x4 = fp_mul(x2, x2);
    let x5 = fp_mul(x3, x2);
    let x6 = fp_mul(x4, x2);
    let x7 = fp_mul(x5, x2);
    let sinv = x - tdiv(x3, 6) + tdiv(x5, 120) - tdiv(x7, 5040);
    let cosv = SCALE - tdiv(x2, 2) + tdiv(x4, 24) - tdiv(x6, 720);
    if cosv >= 1 {
        clamp(fp_div(sinv, cosv), 0, 4 * SCALE)
    } else {
        SCALE as int
    }
}

/// The camera a given configuration constructs. Degenerate bases (a view
/// direction of length zero, or an up vector parallel to it) fall back to
/// fixed axes instead of dividing by zero.
pub open spec fn scamera(
    lookfrom: Vector3D,
    lookat: Vector3D,
    vup: Vector3D,
    vfov: int,
    aspect: int,
    aperture: int,
    focus_dist: int,
) -> Camera {
    let hh = stan(stheta_half(vfov));
    let hw = fp_mul(aspect, hh);
    let dirv = svsub(lookfrom, lookat);
    let w = if sdot(dirv, dirv) >= 1 {
        sunit(dirv)
    } else {
        Vector3D { x: 0, y: 0, z: SCALE }
    };
    let cr = scross(vup, w);
    let u = if sdot(cr, cr) >= 1 {
        sunit(cr)
    } else {
        Vector3D { x: SCALE, y: 0, z: 0 }
    };
    let v = scross(w, u);
    let hwf = fp_mul(hw, focus_dist);
    let hhf = fp_mul(hh, focus_dist);
    Camera {
        origin: lookfrom,
        lower_left_corner: svsub(
            svsub(svsub(lookfrom, svscale(u, hwf)), svscale(v, hhf)),
            svscale(w, focus_dist),
        ),
        horizontal: svscale(u, 2 * hwf),
        vertical: svscale(v, 2 * hhf),
        u,
        v,
        lens_radius: tdiv(aperture, 2) as i64,
    }
}

/// The ray for image-plane coordinates (s, t) and lens offset (rdx, rdy):
/// origin + offset toward lower-left + s * horizontal + t * vertical.
pub open spec fn sget_ray(c: Camera, s: int, t: int, rdx: int, rdy: int) -> Ray {
    let offset = svadd(svscale(c.u, rdx), svscale(c.v, rdy));
    let a = svadd(c.origin, offset);
    let b = svsub(
        svsub(
            svadd(svadd(c.lower_left_corner, svscale(c.horizontal, s)), svscale(c.vertical, t)),
            c.origin,
        ),
        offset,
    );
    Ray { a, b }
}

/// tan(x) for x in fixed-point radians, [0, 90000] raw.
fn tan_fp(x: i64) -> (r: i64)
    requires
        0 <= x <= 90000,
    ensures
        r == stan(x as int),
        0 <= r <= 4 * SCALE,
{
    proof {
        lemma_fp_mul_abs(x as int, x as int);
        lemma_fp_mul_le(x as int, x as int, 90000, 90000);
    }
    let x2 = mul_fp(x, x);
    proof {
        lemma_fp_mul_abs(x2 as int, x as int);
        lemma_fp_mul_le(x2 as int, x as int, 123596, 90000);
        lemma_fp_mul_abs(x2 as int, x2 as int);
        lemma_fp_mul_le(x2 as int, x2 as int, 123596, 123596);
    }
    let x3 = mul_fp(x2, x);
    let x4 = mul_fp(x2, x2);
    proof {
        lemma_fp_mul_abs(x3 as int, x2 as int);
        lemma_fp_mul_le(x3 as int, x2 as int, 169733, 123596);
        lemma_fp_mul_abs(x4 as int, x2 as int);
        lemma_fp_mul_le(x4 as int, x2 as int, 233092, 123596);
    }
    let x5 = mul_fp(x3, x2);
    let x6 = mul_fp(x4, x2);
    proof {
        lemma_fp_mul_abs(x5 as int, x2 as int);
        lemma_fp_mul_le(x5 as int, x2 as int, 320103, 123596);
    }
    let x7 = mul_fp(x5, x2);
    let sinv = x - div_trunc_pos(x3, 6) + div_trunc_pos(x5, 120) - div_trunc_pos(x7, 5040);
    let cosv = SCALE - div_trunc_pos(x2, 2) + div_trunc_pos(x4, 24) - div_trunc_pos(x6, 720);
    if cosv >= 1 {
        proof {
            lemma_fp_div_abs(sinv as int, cosv as int);
            lemma_div_le_num(
                iabs(fp_div(sinv as int, cosv as int)),
                cosv as int,
                iabs(sinv as int) * SCALE,
            );
        }
        clamp_i64(div_fp(sinv, cosv), 0, 4 * 65536)
    } else {
        SCALE
    }
}

impl Camera {
    /// Builds the camera from its configuration; see the module
    /// description for the geometry.
    pub fn new(
        lookfrom: Vector3D,
        lookat: Vector3D,
        vup: Vector3D,
        vfov: i64,
        aspect: i64,
        aperture: i64,
        focus_dist: i64,
    ) -> (c: Camera)
        requires
            vec_in(lookfrom, CAM_IN_LIMIT as int),
            vec_in(lookat, CAM_IN_LIMIT as int),
            vec_in(vup, CAM_IN_LIMIT as int),
            SCALE <= vfov <= 150 * SCALE,
            0 < aspect <= 16 * SCALE,
            0 <= aperture <= CAM_IN_LIMIT,
            1 <= focus_dist <= CAM_IN_LIMIT,
        ensures
            c == scamera(
                lookfrom,
                lookat,
                vup,
                vfov as int,
                aspect as int,
                aperture as int,
                focus_dist as int,
            ),
            camera_wf(c),
    {
        let theta_half = div_trunc_pos(vfov * 205887, 23592960);
        let hh = tan_fp(theta_half);
        proof {
            lemma_fp_mul_abs(aspect as int, hh as int);
            lemma_fp_mul_le(aspect as int, hh as int, 1048576, 262144);
        }
        let hw = mul_fp(aspect, hh);
        let dirv = lookfrom.sub(&lookat);
        proof {
            crate::vector3d::lemma_sdot_self_bound(dirv);
        }
        let w: Vector3D;
        if dirv.squared_length() >= 1 {
            proof {
                lemma_isqrt_pos((sdot(dirv, dirv) * SCALE) as nat);
            }
            w = unit_vector(&dirv);
        } else {
            w = Vector3D { x: 0, y: 0, z: SCALE };
        }
        let cr = vup.cross(&w);
        proof {
            crate::vector3d::lemma_cross_bound(vup, w, 16777216, 131072, 0x400_0000);
            crate::vector3d::lemma_sdot_self_bound(cr);
        }
        let u: Vector3D;
        if cr.squared_length() >= 1 {
            proof {
                lemma_isqrt_pos((sdot(cr, cr) * SCALE) as nat);
            }
            u = unit_vector(&cr);
        } else {
            u = Vector3D { x: SCALE, y: 0, z: 0 };
        }
        let v = w.cross(&u);
        proof {
            crate::vector3d::lemma_cross_bound(w, u, 131072, 131072, 524288);
            lemma_fp_mul_abs(hw as int, focus_dist as int);
            lemma_fp_mul_le(hw as int, focus_dist as int, 4194304, 16777216);
            lemma_fp_mul_abs(hh as int, focus_dist as int);
            lemma_fp_mul_le(hh as int, focus_dist as int, 262144, 16777216);
        }
        let hwf = mul_fp(hw, focus_dist);
        let hhf = mul_fp(hh, focus_dist);
        proof {
            lemma_scale3(u, hwf as int, 131072, 0x4000_0000);
            lemma_scale3(v, hhf as int, 524288, 0x400_0000);
            lemma_scale3(w, focus_dist as int, 131072, 16777216);
            lemma_scale3(u, 2 * hwf, 131072, 0x8000_0000);
            lemma_scale3(v, 2 * hhf, 524288, 0x800_0000);
        }
        let u_hwf = u.mul_scalar(hwf);
        let v_hhf = v.mul_scalar(hhf);
        let w_f = w.mul_scalar(focus_dist);
        let ll = lookfrom.sub(&u_hwf).sub(&v_hhf).sub(&w_f);
        let horizontal = u.mul_scalar(2 * hwf);
        let vertical = v.mul_scalar(2 * hhf);
        Camera {
            origin: lookfrom,
            lower_left_corner: ll,
            horizontal,
            vertical,
            u,
            v,
            lens_radius: div_trunc_pos(aperture, 2),
        }
    }

    /// The ray for image-plane coordinates (s, t) with the given lens
    /// sample; the exact geometric contract lives here.
    #[verifier::rlimit(60)]
    pub fn get_ray_with_offset(&self, u: i64, v: i64, rdx: i64, rdy: i64) -> (r: Ray)
        requires
            camera_wf(*self),
            0 <= u <= SCALE,
            0 <= v <= SCALE,
            iabs(rdx as int) <= CAM_IN_LIMIT,
            iabs(rdy as int) <= CAM_IN_LIMIT,
        ensures
            r == sget_ray(*self, u as int, v as int, rdx as int, rdy as int),
            vec_in(r.a, ORIGIN_LIMIT as int),
            vec_in(r.b, DIR_LIMIT as int),
    {
        proof {
            lemma_scale3(self.u, rdx as int, 131072, 16777216);
            lemma_scale3(self.v, rdy as int, 524288, 16777216);
            lemma_scale3(self.horizontal, u as int, 0x2_0000_0000, 65536);
            lemma_scale3(self.vertical, v as int, 0x2_0000_0000, 65536);
        }
        let ou = self.u.mul_scalar(rdx);
        let ov = self.v.mul_scalar(rdy);
        let offset = ou.add(&ov);
        let a = self.origin.add(&offset);
        let hs = self.horizontal.mul_scalar(u);
        let vt = self.vertical.mul_scalar(v);
        let b = self.lower_left_corner.add(&hs).add(&vt).sub(&self.origin).sub(&offset);
        Ray { a, b }
    }

    /// A ray for image-plane coordinates (u, v), its origin perturbed by
    /// a fresh lens-disk sample scaled by the lens radius.
    pub fn get_ray(&self, u: i64, v: i64, s: &mut Sampler) -> (r: Ray)
        requires
            camera_wf(*self),
            0 <= u <= SCALE,
            0 <= v <= SCALE,
        ensures
            vec_in(r.a, ORIGIN_LIMIT as int),
            vec_in(r.b, DIR_LIMIT as int),
            exists|rdx: int, rdy: int|
                #![auto]
                iabs(rdx) <= CAM_IN_LIMIT && iabs(rdy) <= CAM_IN_LIMIT && r == sget_ray(
                    *self,
                    u as int,
                    v as int,
                    rdx,
                    rdy,
                ),
    {
        let rd = random_in_unit_disk(s);
        proof {
            lemma_fp_mul_le(rd.x as int, self.lens_radius as int, 65536, 16777216);
            lemma_fp_mul_le(rd.y as int, self.lens_radius as int, 65536, 16777216);
        }
        let rdx = mul_fp(rd.x, self.lens_radius);
        let rdy = mul_fp(rd.y, self.lens_radius);
        let r = self.get_ray_with_offset(u, v, rdx, rdy);
        proof {
            assert(iabs(rdx as int) <= CAM_IN_LIMIT && iabs(rdy as int) <= CAM_IN_LIMIT && r
                == sget_ray(*self, u as int, v as int, rdx as int, rdy as int));
        }
        r
    }
}

/// A point drawn from the open unit disk in the x,y plane, by rejection
/// sampling; the defensive cap falls back to the center.
pub fn random_in_unit_disk(s: &mut Sampler) -> (p: Vector3D)
    ensures
        vec_in(p, SCALE as int),
        sdot(p, p) < SCALE,
        p.z == 0,
{
    let mut tries: u32 = 0;
    while tries < 64
        invariant
            tries <= 64,
        decreases 64 - tries,
    {
        let p = Vector3D { x: s.next_symmetric(), y: s.next_symmetric(), z: 0 };
        proof {
            lemma_sdot_bound(p, p, SCALE as int, SCALE as int);
        }
        let sq = p.dot(&p);
        if sq < SCALE {
            return p;
        }
        tries = tries + 1;
    }
    Vector3D { x: 0, y: 0, z: 0 }
}

/// Componentwise magnitude bound for scaling a bounded vector by a
/// bounded scalar.
proof fn lemma_scale3(a: Vector3D, k: int, ba: int, bk: int)
    requires
        vec_in(a, ba),
        iabs(k) <= bk,
        0 <= ba,
        0 <= bk,
    ensures
        iabs(fp_mul(a.x as int, k)) * SCALE <= ba * bk,
        iabs(fp_mul(a.y as int, k)) * SCALE <= ba * bk,
        iabs(fp_mul(a.z as int, k)) * SCALE <= ba * bk,
{
    lemma_fp_mul_le(a.x as int, k, ba, bk);
    lemma_fp_mul_le(a.y as int, k, ba, bk);
    lemma_fp_mul_le(a.z as int, k, ba, bk);
}

} // verus!
