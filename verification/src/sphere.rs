//! Spheres and the ray/sphere intersection query.
//!
//! Intersection solves the quadratic `a t^2 + 2 b t + c = 0` with
//! `a = d.d`, `b = (o-C).d`, `c = (o-C).(o-C) - r^2`; a nonpositive
//! discriminant is a miss, otherwise the nearer root is tried first and
//! the first root inside the open interval (t_min, t_max) is accepted.
//! The executable query computes in 128-bit intermediates and matches the
//! spec mirror `shit_sphere` exactly. Degenerate inputs (radius <= 0, a
//! direction whose fixed-point dot with itself is zero) are misses, and
//! the hit point and normal are clamped into the world box and the unit
//! clamp, so the query is total and its outputs are bounded.

use vstd::prelude::*;

use crate::fixed::{
    clamp, clamp_i64, div_fp_wide, fp_div, fp_mul, iabs, isqrt, isqrt_u128, lemma_div_le_num,
    lemma_fp_div_abs, lemma_isqrt, mul_fp, tdiv, tdiv_i128, SCALE,
};
use crate::hitable::{hit_record_wf, HitRecord};
use crate::material::{material_wf, Material};
use crate::ray::Ray;
use crate::sampler::Sampler;
use crate::vector3d::{
    lemma_fp_mul_le, lemma_sdot_bound, sdot, svsub, vec_in, Vector3D, UNIT_CLAMP,
};

verus! {

/// Largest magnitude of a ray origin or hit point (about 1.7e7 in value).
pub const ORIGIN_LIMIT: i64 = 0x100_0000_0000;

/// Largest magnitude of a ray direction component (about 1.0e6 in value).
pub const DIR_LIMIT: i64 = 0x10_0000_0000;

/// Largest magnitude of a sphere center component or radius.
pub const CENTER_LIMIT: i64 = 0x4_0000_0000;

/// Upper sentinel for the ray parameter search (32768 in value).
pub const T_FAR: i64 = 0x4000_0000;

pub struct Sphere {
    pub center: Vector3D,
    pub radius: i64,
    pub material: Material,
}

/// A sphere the intersection query accepts: bounded center and radius,
/// well-formed material. (A nonpositive radius is allowed; it just never
/// produces a hit.)
pub open spec fn sphere_wf(s: Sphere) -> bool {
    &&& vec_in(s.center, CENTER_LIMIT as int)
    &&& iabs(s.radius as int) <= CENTER_LIMIT
    &&& material_wf(s.material)
}

/// The hit point at parameter `t`, componentwise clamped into the world box.
pub open spec fn sp_point(r: Ray, t: int) -> Vector3D {
    Vector3D {
        x: clamp(r.a.x + fp_mul(r.b.x as int, t), -ORIGIN_LIMIT as int, ORIGIN_LIMIT as int) as i64,
        y: clamp(r.a.y + fp_mul(r.b.y as int, t), -ORIGIN_LIMIT as int, ORIGIN_LIMIT as int) as i64,
        z: clamp(r.a.z + fp_mul(r.b.z as int, t), -ORIGIN_LIMIT as int, ORIGIN_LIMIT as int) as i64,
    }
}

/// The outward normal at `p`: (p - center) / radius, componentwise clamped
/// into [-2, 2] against rounding blow-up.
pub open spec fn sp_normal(p: Vector3D, center: Vector3D, radius: int) -> Vector3D {
    Vector3D {
        x: clamp(fp_div(p.x - center.x, radius), -UNIT_CLAMP as int, UNIT_CLAMP as int) as i64,
        y: clamp(fp_div(p.y - center.y, radius), -UNIT_CLAMP as int, UNIT_CLAMP as int) as i64,
        z: clamp(fp_div(p.z - center.z, radius), -UNIT_CLAMP as int, UNIT_CLAMP as int) as i64,
    }
}

/// The record built for an accepted root.
pub open spec fn sp_record(s: Sphere, r: Ray, t: int) -> HitRecord {
    let p = sp_point(r, t);
    HitRecord { t: t as i64, p, normal: sp_normal(p, s.center, s.radius as int), material: s.material }
}

/// The quadratic's discriminant (at scale SCALE^2).
pub open spec fn sp_disc(s: Sphere, r: Ray) -> int {
    let oc = svsub(r.a, s.center);
    let a = sdot(r.b, r.b);
    let b = sdot(oc, r.b);
    let c = sdot(oc, oc) - fp_mul(s.radius as int, s.radius as int);
    b * b - a * c
}

/// Mirror of the intersection query: the nearer root first, then the
/// farther one, each accepted only inside (t_min, t_max).
pub open spec fn shit_sphere(s: Sphere, r: Ray, t_min: int, t_max: int) -> Option<HitRecord> {
    let oc = svsub(r.a, s.center);
    let a = sdot(r.b, r.b);
    let b = sdot(oc, r.b);
    let disc = sp_disc(s, r);
    if s.radius <= 0 || a <= 0 || disc <= 0 {
        None
    } else {
        let sq = isqrt(disc as nat) as int;
        let t1 = tdiv((-b - sq) * SCALE, a);
        let t2 = tdiv((-b + sq) * SCALE, a);
        if t_min < t1 && t1 < t_max {
            Some(sp_record(s, r, t1))
        } else if t_min < t2 && t2 < t_max {
            Some(sp_record(s, r, t2))
        } else {
            None
        }
    }
}

/// A ray aimed straight at a sphere's center from outside hits it at the
/// nearer root, t = distance - radius. Fixed-point rounding makes this
/// exact exactly where the squares are, so it is stated for distances and
/// radii that are whole multiples of 2^-8 (their squares are then whole
/// fixed-point values), with the ray along the z axis.
pub proof fn lemma_head_on_hit(s: Sphere, o: Vector3D, d: int, t_min: int, t_max: int)
    requires
        s.center == (Vector3D { x: o.x, y: o.y, z: (o.z - d) as i64 }),
        d % 256 == 0,
        s.radius % 256 == 0,
        0 < s.radius < d <= T_FAR,
        iabs(o.z as int) <= ORIGIN_LIMIT,
        0 <= t_min < d - s.radius < t_max <= T_FAR,
    ensures
        shit_sphere(s, Ray { a: o, b: Vector3D { x: 0, y: 0, z: (-SCALE) as i64 } }, t_min, t_max)
            matches Some(h) && h.t == d - s.radius,
{
    let ray = Ray { a: o, b: Vector3D { x: 0, y: 0, z: (-SCALE) as i64 } };
    let oc = svsub(ray.a, s.center);
    assert(oc == (Vector3D { x: 0, y: 0, z: d as i64 }));
    crate::fixed::lemma_fp_mul_one(d);
    crate::fixed::lemma_fp_mul_one(-(SCALE as int));
    crate::fixed::lemma_fp_mul_neg(d, SCALE as int);
    crate::fixed::lemma_fp_mul_neg(SCALE as int, SCALE as int);
    assert(fp_mul(0, 0) == 0);
    assert(fp_mul(0, -(SCALE as int)) == 0) by {
        assert(0 * (-(SCALE as int)) == 0) by (nonlinear_arith);
    }
    let a = sdot(ray.b, ray.b);
    assert(a == SCALE);
    let b = sdot(oc, ray.b);
    assert(b == -d);
    let k = d / 256;
    let m = (s.radius as int) / 256;
    assert(d == 256 * k && s.radius == 256 * m);
    assert(d * d == 65536 * (k * k)) by (nonlinear_arith)
        requires
            d == 256 * k,
    ;
    assert((s.radius as int) * (s.radius as int) == 65536 * (m * m)) by (nonlinear_arith)
        requires
            s.radius == 256 * m,
    ;
    assert(65536 * (k * k) >= 0 && 65536 * (m * m) >= 0) by (nonlinear_arith);
    assert((65536 * (k * k)) / 65536 == k * k) by (nonlinear_arith);
    assert((65536 * (m * m)) / 65536 == m * m) by (nonlinear_arith);
    assert(fp_mul(d, d) == k * k);
    assert(fp_mul(s.radius as int, s.radius as int) == m * m);
    let c = sdot(oc, oc) - fp_mul(s.radius as int, s.radius as int);
    assert(c == k * k - m * m);
    let disc = sp_disc(s, ray);
    assert(disc == (-d) * (-d) - (SCALE as int) * (k * k - m * m));
    assert(disc == (s.radius as int) * (s.radius as int)) by (nonlinear_arith)
        requires
            disc == (-d) * (-d) - 65536 * (k * k - m * m),
            d * d == 65536 * (k * k),
            (s.radius as int) * (s.radius as int) == 65536 * (m * m),
    ;
    assert(disc > 0) by (nonlinear_arith)
        requires
            disc == (s.radius as int) * (s.radius as int),
            s.radius > 0,
    ;
    assert((s.radius as int) * (s.radius as int) < (s.radius as int + 1) * (s.radius as int + 1))
        by (nonlinear_arith)
        requires
            s.radius > 0,
    ;
    crate::fixed::lemma_isqrt_unique(disc as nat, s.radius as nat);
    let sq = isqrt(disc as nat) as int;
    assert(sq == s.radius);
    let num = (-b - sq) * (SCALE as int);
    assert(num == (d - s.radius) * (SCALE as int));
    assert(num >= 0) by (nonlinear_arith)
        requires
            num == (d - s.radius) * 65536,
            d > s.radius,
    ;
    assert(num / (SCALE as int) == d - s.radius) by (nonlinear_arith)
        requires
            num == (d - s.radius) * 65536,
    ;
    let t1 = tdiv(num, a);
    assert(t1 == d - s.radius);
}

impl Sphere {
    pub fn new(center: Vector3D, radius: i64, m: Material) -> (r: Sphere)
        ensures
            r.center == center,
            r.radius == radius,
            r.material == m,
    {
        Sphere { center, radius, material: m }
    }

    /// The nearest intersection of the ray with this sphere inside
    /// (t_min, t_max), or None.
    #[verifier::rlimit(60)]
    pub fn hit(&self, r: &Ray, t_min: i64, t_max: i64) -> (res: Option<HitRecord>)
        requires
            sphere_wf(*self),
            vec_in(r.a, ORIGIN_LIMIT as int),
            vec_in(r.b, DIR_LIMIT as int),
            0 <= t_min,
            t_max <= T_FAR,
        ensures
            res == shit_sphere(*self, *r, t_min as int, t_max as int),
            res matches Some(h) ==> t_min < h.t < t_max && hit_record_wf(h) && h.material
                == self.material,
    {
        if self.radius <= 0 {
            return None;
        }
        let oc = r.a.sub(&self.center);
        proof {
            lemma_sdot_bound(r.b, r.b, DIR_LIMIT as int, DIR_LIMIT as int);
            lemma_sdot_bound(oc, r.b, 0x200_0000_0000, DIR_LIMIT as int);
            lemma_sdot_bound(oc, oc, 0x200_0000_0000, 0x200_0000_0000);
            lemma_fp_mul_le(
                self.radius as int,
                self.radius as int,
                CENTER_LIMIT as int,
                CENTER_LIMIT as int,
            );
        }
        let ax = dot3_i128(&r.b, &r.b);
        let bx = dot3_i128(&oc, &r.b);
        let rr = div_prod_scale(self.radius, self.radius);
        let cx = dot3_i128(&oc, &oc) - rr;
        if ax <= 0 {
            return None;
        }
        proof {
            assert(iabs(ax as int) <= 0x300_0000_0000_0000);
            assert(iabs(bx as int) <= 0x6000_0000_0000_0000);
            assert(iabs(cx as int) <= 0x10_0000_0000_0000_0000);
            assert(iabs((bx as int) * (bx as int)) <= 0x2400_0000_0000_0000_0000_0000_0000_0000)
                by (nonlinear_arith)
                requires
                    iabs(bx as int) <= 0x6000_0000_0000_0000,
            ;
            assert(iabs((ax as int) * (cx as int)) <= 0x3000_0000_0000_0000_0000_0000_0000_0000)
                by (nonlinear_arith)
                requires
                    iabs(ax as int) <= 0x300_0000_0000_0000,
                    iabs(cx as int) <= 0x10_0000_0000_0000_0000,
            ;
        }
        let disc: i128 = bx * bx - ax * cx;
        if disc <= 0 {
            return None;
        }
        let sq: i128 = isqrt_u128(disc as u128) as i128;
        proof {
            lemma_isqrt(disc as nat);
            assert((sq as int) * (sq as int) <= disc as int);
            assert(iabs(sq as int) <= 0x1_0000_0000_0000_0000) by (nonlinear_arith)
                requires
                    sq >= 0,
                    (sq as int) * (sq as int) <= disc as int,
                    disc as int <= 0x5400_0000_0000_0000_0000_0000_0000_0000,
            ;
        }
        let t1: i128 = tdiv_i128((-bx - sq) * 65536, ax);
        if (t_min as i128) < t1 && t1 < (t_max as i128) {
            return Some(self.build_record(r, t1 as i64));
        }
        let t2: i128 = tdiv_i128((-bx + sq) * 65536, ax);
        if (t_min as i128) < t2 && t2 < (t_max as i128) {
            return Some(self.build_record(r, t2 as i64));
        }
        None
    }

    /// Builds the record for an accepted root: clamped point, clamped
    /// outward normal, the sphere's material.
    fn build_record(&self, r: &Ray, t: i64) -> (h: HitRecord)
        requires
            sphere_wf(*self),
            self.radius > 0,
            vec_in(r.a, ORIGIN_LIMIT as int),
            vec_in(r.b, DIR_LIMIT as int),
            0 <= t <= T_FAR,
        ensures
            h == sp_record(*self, *r, t as int),
            hit_record_wf(h),
            h.material == self.material,
    {
        proof {
            lemma_fp_mul_le(r.b.x as int, t as int, DIR_LIMIT as int, T_FAR as int);
            lemma_fp_mul_le(r.b.y as int, t as int, DIR_LIMIT as int, T_FAR as int);
            lemma_fp_mul_le(r.b.z as int, t as int, DIR_LIMIT as int, T_FAR as int);
        }
        let px = clamp_i64(r.a.x + mul_fp(r.b.x, t), -ORIGIN_LIMIT, ORIGIN_LIMIT);
        let py = clamp_i64(r.a.y + mul_fp(r.b.y, t), -ORIGIN_LIMIT, ORIGIN_LIMIT);
        let pz = clamp_i64(r.a.z + mul_fp(r.b.z, t), -ORIGIN_LIMIT, ORIGIN_LIMIT);
        let p = Vector3D { x: px, y: py, z: pz };
        proof {
            lemma_fp_div_abs(p.x - self.center.x, self.radius as int);
            lemma_fp_div_abs(p.y - self.center.y, self.radius as int);
            lemma_fp_div_abs(p.z - self.center.z, self.radius as int);
            lemma_div_le_num(
                iabs(fp_div(p.x - self.center.x, self.radius as int)),
                self.radius as int,
                iabs((p.x - self.center.x) as int) * SCALE,
            );
            lemma_div_le_num(
                iabs(fp_div(p.y - self.center.y, self.radius as int)),
                self.radius as int,
                iabs((p.y - self.center.y) as int) * SCALE,
            );
            lemma_div_le_num(
                iabs(fp_div(p.z - self.center.z, self.radius as int)),
                self.radius as int,
                iabs((p.z - self.center.z) as int) * SCALE,
            );
        }
        let nx = clamp_i64(div_fp_wide(px - self.center.x, self.radius), -UNIT_CLAMP, UNIT_CLAMP);
        let ny = clamp_i64(div_fp_wide(py - self.center.y, self.radius), -UNIT_CLAMP, UNIT_CLAMP);
        let nz = clamp_i64(div_fp_wide(pz - self.center.z, self.radius), -UNIT_CLAMP, UNIT_CLAMP);
        HitRecord {
            t,
            p,
            normal: Vector3D { x: nx, y: ny, z: nz },
            material: self.material,
        }
    }
}

/// The three fixed-point component products of a dot product, summed in
/// 128 bits (no narrowing).
fn dot3_i128(a: &Vector3D, b: &Vector3D) -> (r: i128)
    ensures
        r == sdot(*a, *b),
{
    proof {
        lemma_prod_i64_fits(a.x as int, b.x as int);
        lemma_prod_i64_fits(a.y as int, b.y as int);
        lemma_prod_i64_fits(a.z as int, b.z as int);
    }
    let px = tdiv_i128((a.x as i128) * (b.x as i128), 65536);
    let py = tdiv_i128((a.y as i128) * (b.y as i128), 65536);
    let pz = tdiv_i128((a.z as i128) * (b.z as i128), 65536);
    px + py + pz
}

/// One fixed-point product, kept in 128 bits.
fn div_prod_scale(a: i64, b: i64) -> (r: i128)
    ensures
        r == fp_mul(a as int, b as int),
{
    proof {
        lemma_prod_i64_fits(a as int, b as int);
    }
    tdiv_i128((a as i128) * (b as i128), 65536)
}

/// Products of 64-bit values fit in 128 bits.
proof fn lemma_prod_i64_fits(a: int, b: int)
    requires
        iabs(a) <= 0x8000_0000_0000_0000,
        iabs(b) <= 0x8000_0000_0000_0000,
    ensures
        iabs(a * b) <= 0x4000_0000_0000_0000_0000_0000_0000_0000,
{
    assert(iabs(a * b) == iabs(a) * iabs(b)) by (nonlinear_arith);
    crate::fixed::lemma_mul_le(
        iabs(a),
        iabs(b),
        0x8000_0000_0000_0000,
        0x8000_0000_0000_0000,
    );
}

/// A point drawn from the open unit ball, by rejection sampling in the
/// cube [-1,1)^3. A defensive cap bounds the draw count; if it is ever
/// exhausted the center of the ball is returned.
pub fn random_in_unit_sphere(s: &mut Sampler) -> (p: Vector3D)
    ensures
        vec_in(p, SCALE as int),
        sdot(p, p) < SCALE,
{
    let mut tries: u32 = 0;
    while tries < 64
        invariant
            tries <= 64,
        decreases 64 - tries,
    {
        let p = Vector3D { x: s.next_symmetric(), y: s.next_symmetric(), z: s.next_symmetric() };
        proof {
            lemma_sdot_bound(p, p, SCALE as int, SCALE as int);
        }
        let sq = p.dot(&p);
        if sq < SCALE {
            return p;
        }
        tries = tries + 1;
    }
    Vector3D { x: 0, y: 0, z: 0 }
}

} // verus!
