//! Surface scattering laws.
//!
//! A material is a closed tagged variant; each call of `scatter` is
//! independent, takes the incident ray and hit record, and produces an
//! attenuation color and a scattered ray, or reports absorption.
//!
//! - Lambertian: scatter toward normal + unit-ball sample; attenuation is
//!   the albedo; never absorbs.
//! - Metal: specular reflection of the normalized incident direction,
//!   fuzzed by a scaled unit-ball sample; absorbs when the outgoing
//!   direction points into the surface.
//! - Dielectric (spelled as in the surrounding API): Snell refraction
//!   against the outward-facing normal when geometrically possible,
//!   otherwise reflection; reflection is also chosen at random with the
//!   Schlick probability. The reflected direction is computed from the
//!   normalized incident direction (in exact arithmetic reflection is
//!   homogeneous in the incident vector, so only the ray's length, never
//!   its path, differs). Attenuation is white; never absorbs.

use vstd::prelude::*;

use crate::fixed::{
    clamp_i64, div_fp, fp_div, fp_mul, iabs, lemma_div_le_num, lemma_fp_div_abs, lemma_fp_mul_abs,
    lemma_isqrt_pos, mul_fp, sqrt_fp, SCALE,
};
use crate::hitable::{hit_record_wf, HitRecord};
use crate::ray::Ray;
use crate::sampler::Sampler;
use crate::sphere::{random_in_unit_sphere, DIR_LIMIT, ORIGIN_LIMIT};
use crate::vector3d::{
    lemma_fp_mul_le, sdot, slength, sunit, svadd, svneg, svscale, svsub, unit_vector, vec_in,
    Vector3D, LEN_LIMIT, UNIT_CLAMP,
};

verus! {

#[derive(Clone, Copy, Debug, PartialEq, Eq, Structural)]
pub enum Material {
    DummyMat { albedo: Vector3D },
    Lambertian { albedo: Vector3D },
    Metal { albedo: Vector3D, fuzziness: i64 },
    Dialectric { ref_ind: i64 },
}

/// Each channel lies in [0, 1].
pub open spec fn color_wf(c: Vector3D) -> bool {
    &&& 0 <= c.x <= SCALE
    &&& 0 <= c.y <= SCALE
    &&& 0 <= c.z <= SCALE
}

/// The parameter ranges the scattering laws are specified for: albedos in
/// [0,1] per channel, fuzziness in [0,1], refractive index in [1/16, 16].
pub open spec fn material_wf(m: Material) -> bool {
    match m {
        Material::DummyMat { albedo } => color_wf(albedo),
        Material::Lambertian { albedo } => color_wf(albedo),
        Material::Metal { albedo, fuzziness } => color_wf(albedo) && 0 <= fuzziness <= SCALE,
        Material::Dialectric { ref_ind } => SCALE / 16 <= ref_ind <= 16 * SCALE,
    }
}

/// Mirror of `reflect`: v - n * (2 * dot(v, n)).
pub open spec fn sreflect(v: Vector3D, n: Vector3D) -> Vector3D {
    svsub(v, svscale(n, 2 * sdot(v, n)))
}

/// The outward-facing normal for a dielectric interaction: against the
/// stored normal when the ray comes from inside.
pub open spec fn sout_normal(dir: Vector3D, n: Vector3D) -> Vector3D {
    if sdot(dir, n) > 0 {
        svneg(n)
    } else {
        n
    }
}

/// The relative index ratio for a dielectric interaction.
pub open spec fn sout_eta(dir: Vector3D, n: Vector3D, ref_ind: int) -> int {
    if sdot(dir, n) > 0 {
        ref_ind
    } else {
        fp_div(SCALE as int, ref_ind)
    }
}

/// Mirror of the refraction discriminant: 1 - eta^2 (1 - dt^2), with
/// dt the dot of the normalized incident direction with the normal.
/// Refraction is possible exactly when this is positive.
pub open spec fn srefract_disc(v: Vector3D, n: Vector3D, eta: int) -> int {
    let dt = sdot(sunit(v), n);
    SCALE - fp_mul(fp_mul(eta, eta), SCALE - fp_mul(dt, dt))
}

/// Mirror of the refracted direction: (unit(v) - n dt) eta - n sqrt(disc).
pub open spec fn srefract_dir(v: Vector3D, n: Vector3D, eta: int) -> Vector3D {
    let uv = sunit(v);
    let dt = sdot(uv, n);
    let disc = srefract_disc(v, n, eta);
    svsub(svscale(svsub(uv, svscale(n, dt)), eta), svscale(n, crate::fixed::fp_sqrt(disc)))
}

/// Mirror of the Schlick reflectance approximation:
/// r0 + (1 - r0)(1 - cos)^5 with r0 = ((1 - n)/(1 + n))^2.
pub open spec fn sschlick(cosine: int, ref_idx: int) -> int {
    let r0a = fp_div(SCALE - ref_idx, SCALE + ref_idx);
    let r0 = fp_mul(r0a, r0a);
    let p = SCALE - cosine;
    let p2 = fp_mul(p, p);
    let p4 = fp_mul(p2, p2);
    let p5 = fp_mul(p4, p);
    r0 + fp_mul(SCALE - r0, p5)
}

/// Reflection of `v` about the normal `n`: v - n * (2 * dot(v, n)).
pub fn reflect(v: &Vector3D, n: Vector3D) -> (r: Vector3D)
    requires
        vec_in(*v, 4 * SCALE),
        vec_in(n, 4 * SCALE),
    ensures
        r == sreflect(*v, n),
        vec_in(r, 400 * SCALE),
{
    proof {
        crate::vector3d::lemma_sdot_bound(*v, n, 262144, 262144);
        let dd = 2 * sdot(*v, n);
        lemma_fp_mul_le(n.x as int, dd, 262144, 6291456);
        lemma_fp_mul_le(n.y as int, dd, 262144, 6291456);
        lemma_fp_mul_le(n.z as int, dd, 262144, 6291456);
    }
    let d = v.dot(&n);
    let scaled = n.mul_scalar(2 * d);
    v.sub(&scaled)
}

/// Snell refraction of `v` at a surface with outward normal `n` and index
/// ratio `ni_over_nt`. Returns whether refraction is geometrically
/// possible (the discriminant is positive); on success `refracted` holds
/// the refracted direction, otherwise it is left unchanged. Total internal
/// reflection is reported exactly when the discriminant is nonpositive.
pub fn refract(v: Vector3D, n: Vector3D, ni_over_nt: i64, refracted: &mut Vector3D) -> (r: bool)
    requires
        vec_in(v, LEN_LIMIT as int),
        sdot(v, v) >= 1,
        vec_in(n, 4 * SCALE),
        0 < ni_over_nt <= 16 * SCALE,
    ensures
        r == (srefract_disc(v, n, ni_over_nt as int) > 0),
        r ==> *final(refracted) == srefract_dir(v, n, ni_over_nt as int),
        r ==> vec_in(*final(refracted), 4000 * SCALE),
        !r ==> *final(refracted) == *old(refracted),
{
    proof {
        lemma_unit_input_ok(v);
    }
    let uv = unit_vector(&v);
    proof {
        crate::vector3d::lemma_sdot_bound(uv, n, 131072, 262144);
    }
    let dt = uv.dot(&n);
    proof {
        lemma_fp_mul_le(dt as int, dt as int, 1572864, 1572864);
    }
    let dtdt = mul_fp(dt, dt);
    proof {
        lemma_fp_mul_le(ni_over_nt as int, ni_over_nt as int, 1048576, 1048576);
    }
    let ee = mul_fp(ni_over_nt, ni_over_nt);
    proof {
        lemma_fp_mul_le(ee as int, SCALE - dtdt, 16777216, 37814272);
    }
    let inner = mul_fp(ee, SCALE - dtdt);
    let disc = SCALE - inner;
    if disc > 0 {
        let sq = sqrt_fp(disc);
        proof {
            crate::fixed::lemma_isqrt((disc * SCALE) as nat);
            assert(sq as int <= 26214400) by (nonlinear_arith)
                requires
                    sq >= 0,
                    (sq as int) * (sq as int) <= disc * SCALE,
                    0 < disc <= 9680519168,
                    SCALE == 65536,
            ;
            lemma_fp_mul_le(n.x as int, dt as int, 262144, 1572864);
            lemma_fp_mul_le(n.y as int, dt as int, 262144, 1572864);
            lemma_fp_mul_le(n.z as int, dt as int, 262144, 1572864);
        }
        let ndt = n.mul_scalar(dt);
        let diff = uv.sub(&ndt);
        proof {
            lemma_fp_mul_le(diff.x as int, ni_over_nt as int, 6488064, 1048576);
            lemma_fp_mul_le(diff.y as int, ni_over_nt as int, 6488064, 1048576);
            lemma_fp_mul_le(diff.z as int, ni_over_nt as int, 6488064, 1048576);
            lemma_fp_mul_le(n.x as int, sq as int, 262144, 26214400);
            lemma_fp_mul_le(n.y as int, sq as int, 262144, 26214400);
            lemma_fp_mul_le(n.z as int, sq as int, 262144, 26214400);
        }
        let scaled = diff.mul_scalar(ni_over_nt);
        let nsq = n.mul_scalar(sq);
        *refracted = scaled.sub(&nsq);
        true
    } else {
        false
    }
}

/// Schlick's reflectance approximation for a dielectric, as a function of
/// the cosine of the viewing angle and the refractive index.
pub fn schlick(cosine: i64, ref_idx: &i64) -> (r: i64)
    requires
        iabs(cosine as int) <= 2 * SCALE,
        SCALE / 16 <= *ref_idx <= 16 * SCALE,
    ensures
        r == sschlick(cosine as int, *ref_idx as int),
{
    proof {
        lemma_fp_div_abs(SCALE - ref_idx as int, SCALE + ref_idx as int);
        crate::fixed::lemma_mul_div_bound(
            iabs(fp_div(SCALE - ref_idx as int, SCALE + ref_idx as int)),
            SCALE + ref_idx as int,
            69632,
            64424509440,
        );
    }
    let r0a = div_fp(SCALE - *ref_idx, SCALE + *ref_idx);
    proof {
        assert(iabs(r0a as int) <= 983040);
        lemma_fp_mul_le(r0a as int, r0a as int, 983040, 983040);
        lemma_fp_mul_abs(r0a as int, r0a as int);
    }
    let r0 = mul_fp(r0a, r0a);
    let p = SCALE - cosine;
    proof {
        lemma_fp_mul_le(p as int, p as int, 196608, 196608);
    }
    let p2 = mul_fp(p, p);
    proof {
        lemma_fp_mul_le(p2 as int, p2 as int, 589824, 589824);
    }
    let p4 = mul_fp(p2, p2);
    proof {
        lemma_fp_mul_le(p4 as int, p as int, 5308416, 196608);
    }
    let p5 = mul_fp(p4, p);
    proof {
        lemma_fp_mul_le(SCALE - r0 as int, p5 as int, 14680064, 15925248);
    }
    let tail = mul_fp(SCALE - r0, p5);
    r0 + tail
}

/// A vector whose fixed-point dot with itself is at least one raw unit has
/// positive fixed-point length.
proof fn lemma_unit_input_ok(v: Vector3D)
    requires
        sdot(v, v) >= 1,
    ensures
        slength(v) >= 1,
{
    lemma_isqrt_pos((sdot(v, v) * SCALE) as nat);
}

impl Material {
    /// The scattering law for this material; see the module description.
    /// Returns whether the ray scatters (false means absorbed); on a
    /// scatter, `attenuation` and `scattered` are set. The placeholder
    /// variant leaves both untouched.
    pub fn scatter(
        &self,
        r_in: &Ray,
        rec: &HitRecord,
        attenuation: &mut Vector3D,
        scattered: &mut Ray,
        s: &mut Sampler,
    ) -> (res: bool)
        requires
            material_wf(*self),
            hit_record_wf(*rec),
            vec_in(r_in.b, DIR_LIMIT as int),
            sdot(r_in.b, r_in.b) >= 1,
        ensures
            self matches Material::DummyMat { .. } ==> res && *final(attenuation) == *old(
                attenuation,
            ) && *final(scattered) == *old(scattered),
            self matches Material::Lambertian { albedo } ==> res && *final(attenuation) == albedo
                && final(scattered).a == rec.p && (exists|q: Vector3D|
                #![auto]
                sdot(q, q) < SCALE && vec_in(q, SCALE as int) && final(scattered).b == svadd(
                    rec.normal,
                    q,
                )),
            self matches Material::Metal { albedo, fuzziness } ==> *final(attenuation) == albedo
                && final(scattered).a == rec.p && res == (sdot(final(scattered).b, rec.normal) > 0)
                && (exists|q: Vector3D|
                #![auto]
                sdot(q, q) < SCALE && vec_in(q, SCALE as int) && final(scattered).b == svadd(
                    sreflect(sunit(r_in.b), rec.normal),
                    svscale(q, fuzziness as int),
                )),
            self matches Material::Dialectric { ref_ind } ==> res && *final(attenuation) == (
            Vector3D { x: SCALE, y: SCALE, z: SCALE }) && final(scattered).a == rec.p && (
            final(scattered).b == sreflect(sunit(r_in.b), rec.normal) || (srefract_disc(
                r_in.b,
                sout_normal(r_in.b, rec.normal),
                sout_eta(r_in.b, rec.normal, ref_ind as int),
            ) > 0 && final(scattered).b == srefract_dir(
                r_in.b,
                sout_normal(r_in.b, rec.normal),
                sout_eta(r_in.b, rec.normal, ref_ind as int),
            ))),
            res ==> (vec_in(final(scattered).b, DIR_LIMIT as int) && vec_in(
                final(scattered).a,
                ORIGIN_LIMIT as int,
            ) && color_wf(*final(attenuation))) || (*final(scattered) == *old(scattered)
                && *final(attenuation) == *old(attenuation)),
    {
        match self {
            Material::DummyMat { albedo: _ } => true,
            Material::Lambertian { albedo } => {
                let ball = random_in_unit_sphere(s);
                let dir = rec.normal.add(&ball);
                *scattered = Ray::new(rec.p, dir);
                *attenuation = *albedo;
                proof {
                    assert(sdot(ball, ball) < SCALE && vec_in(ball, SCALE as int) && scattered.b
                        == svadd(rec.normal, ball));
                }
                true
            },
            Material::Metal { albedo, fuzziness } => {
                proof {
                    lemma_unit_input_ok(r_in.b);
                }
                let u = unit_vector(&r_in.b);
                let reflected = reflect(&u, rec.normal);
                let ball = random_in_unit_sphere(s);
                proof {
                    lemma_fp_mul_le(ball.x as int, *fuzziness as int, 65536, 65536);
                    lemma_fp_mul_le(ball.y as int, *fuzziness as int, 65536, 65536);
                    lemma_fp_mul_le(ball.z as int, *fuzziness as int, 65536, 65536);
                }
                let fuzzed = ball.mul_scalar(*fuzziness);
                let dir = reflected.add(&fuzzed);
                *scattered = Ray::new(rec.p, dir);
                *attenuation = *albedo;
                proof {
                    assert(sdot(ball, ball) < SCALE && vec_in(ball, SCALE as int) && scattered.b
                        == svadd(sreflect(sunit(r_in.b), rec.normal), svscale(
                        ball,
                        *fuzziness as int,
                    )));
                    crate::vector3d::lemma_sdot_bound(scattered.b, rec.normal, 68719476736, 131072);
                }
                let d = scattered.direction().dot(&rec.normal);
                d > 0
            },
            Material::Dialectric { ref_ind } => {
                proof {
                    lemma_unit_input_ok(r_in.b);
                }
                let uv = unit_vector(&r_in.b);
                let reflected = reflect(&uv, rec.normal);
                *attenuation = Vector3D { x: SCALE, y: SCALE, z: SCALE };
                proof {
                    crate::vector3d::lemma_sdot_bound(r_in.b, rec.normal, 68719476736, 131072);
                    lemma_unit_input_ok(r_in.b);
                }
                let din = r_in.b.dot(&rec.normal);
                let len = r_in.b.length();
                let outward: Vector3D;
                let eta: i64;
                let cosine: i64;
                if din > 0 {
                    proof {
                        lemma_fp_mul_le(*ref_ind as int, din as int, 1048576, 412316860416);
                        lemma_fp_div_abs(fp_mul(*ref_ind as int, din as int), len as int);
                        lemma_div_le_num(
                            iabs(fp_div(fp_mul(*ref_ind as int, din as int), len as int)),
                            len as int,
                            iabs(fp_mul(*ref_ind as int, din as int)) * SCALE,
                        );
                    }
                    let c0 = mul_fp(*ref_ind, din);
                    let c1 = div_fp(c0, len);
                    outward = rec.normal.neg();
                    eta = *ref_ind;
                    cosine = clamp_i64(c1, -2 * SCALE, 2 * SCALE);
                } else {
                    proof {
                        lemma_fp_div_abs(SCALE as int, *ref_ind as int);
                        crate::fixed::lemma_mul_div_bound(
                            iabs(fp_div(SCALE as int, *ref_ind as int)),
                            *ref_ind as int,
                            4096,
                            4294967296,
                        );
                        lemma_eta_lower(*ref_ind as int);
                        lemma_fp_div_abs((-din) as int, len as int);
                        lemma_div_le_num(
                            iabs(fp_div((-din) as int, len as int)),
                            len as int,
                            iabs((-din) as int) * SCALE,
                        );
                    }
                    let e = div_fp(SCALE, *ref_ind);
                    let c1 = div_fp(-din, len);
                    outward = rec.normal;
                    eta = e;
                    cosine = clamp_i64(c1, -2 * SCALE, 2 * SCALE);
                }
                let mut refracted = Vector3D { x: 0, y: 0, z: 0 };
                let has_refract = refract(r_in.b, outward, eta, &mut refracted);
                let reflect_prob: i64 = if has_refract {
                    schlick(cosine, ref_ind)
                } else {
                    SCALE
                };
                let draw = s.next_unit();
                if draw < reflect_prob {
                    *scattered = Ray::new(rec.p, reflected);
                } else {
                    *scattered = Ray::new(rec.p, refracted);
                }
                true
            },
        }
    }
}

/// The inverted index ratio 1/n is at least one raw unit for indices in
/// the well-formed range.
proof fn lemma_eta_lower(ref_ind: int)
    requires
        SCALE / 16 <= ref_ind <= 16 * SCALE,
    ensures
        fp_div(SCALE as int, ref_ind) >= 1,
{
    let n = (SCALE as int) * (SCALE as int);
    assert(n == 0x1_0000_0000);
    vstd::arithmetic::div_mod::lemma_div_by_self(ref_ind);
    vstd::arithmetic::div_mod::lemma_div_is_ordered(ref_ind, n, ref_ind);
}

/// At head-on incidence (cosine exactly 1) the Schlick reflectance equals
/// the base reflectance r0 = ((1 - n)/(1 + n))^2.
pub proof fn lemma_schlick_head_on(ref_idx: int)
    requires
        SCALE / 16 <= ref_idx <= 16 * SCALE,
    ensures
        sschlick(SCALE as int, ref_idx) == fp_mul(
            fp_div(SCALE - ref_idx, SCALE + ref_idx),
            fp_div(SCALE - ref_idx, SCALE + ref_idx),
        ),
{
    let r0a = fp_div(SCALE - ref_idx, SCALE + ref_idx);
    let r0 = fp_mul(r0a, r0a);
    assert(fp_mul(0, 0) == 0);
    assert(fp_mul(SCALE - r0, 0) == 0) by {
        assert((SCALE - r0) * 0 == 0) by (nonlinear_arith);
    }
}

/// A normal is axis-aligned and unit: exactly one component is +-1.
pub open spec fn axis_unit(n: Vector3D) -> bool {
    ||| (iabs(n.x as int) == SCALE && n.y == 0 && n.z == 0)
    ||| (n.x == 0 && iabs(n.y as int) == SCALE && n.z == 0)
    ||| (n.x == 0 && n.y == 0 && iabs(n.z as int) == SCALE)
}

/// Reflecting twice, the second time about the negated normal, returns the
/// original vector. Fixed-point rounding makes this exact only where the
/// component products are: here it is stated for axis-aligned unit
/// normals, for which every product in the reflection formula is exact.
pub proof fn lemma_reflect_involution(v: Vector3D, n: Vector3D)
    requires
        axis_unit(n),
        vec_in(v, 0x1000_0000_0000_0000),
    ensures
        sreflect(sreflect(v, n), svneg(n)) == v,
{
    lemma_reflect_axis_terms(v.x as int, n.x as int);
    lemma_reflect_axis_terms(v.y as int, n.y as int);
    lemma_reflect_axis_terms(v.z as int, n.z as int);
    let d = sdot(v, n);
    lemma_reflect_axis_terms(2 * d, n.x as int);
    lemma_reflect_axis_terms(2 * d, n.y as int);
    lemma_reflect_axis_terms(2 * d, n.z as int);
    let r = sreflect(v, n);
    let m = svneg(n);
    lemma_reflect_axis_terms(r.x as int, m.x as int);
    lemma_reflect_axis_terms(r.y as int, m.y as int);
    lemma_reflect_axis_terms(r.z as int, m.z as int);
    let d2 = sdot(r, m);
    lemma_reflect_axis_terms(2 * d2, m.x as int);
    lemma_reflect_axis_terms(2 * d2, m.y as int);
    lemma_reflect_axis_terms(2 * d2, m.z as int);
}

/// Products against an axis component (0 or +-1) are exact.
proof fn lemma_reflect_axis_terms(x: int, c: int)
    requires
        c == 0 || iabs(c) == SCALE,
    ensures
        c == 0 ==> fp_mul(x, c) == 0 && fp_mul(c, x) == 0,
        c == SCALE ==> fp_mul(x, c) == x && fp_mul(c, x) == x,
        c == -SCALE ==> fp_mul(x, c) == -x && fp_mul(c, x) == -x,
{
    crate::fixed::lemma_fp_mul_one(x);
    crate::fixed::lemma_fp_mul_neg(x, SCALE as int);
    crate::fixed::lemma_fp_mul_neg(SCALE as int, x);
    assert(x * 0 == 0) by (nonlinear_arith);
    assert(0 * x == 0) by (nonlinear_arith);
    assert(fp_mul(x, 0) == 0);
    assert(fp_mul(0, x) == 0);
}

} // verus!
