//! Three-component vectors over fixed-point scalars, used both for points
//! and directions in space and for colors (x,y,z read as r,g,b).
//!
//! Every executable operation is pinned to a spec-level mirror (`svadd`,
//! `sdot`, ...) of the same fixed-point arithmetic. Normalization divides
//! each component by the fixed-point length and clamps the result to
//! [-2.0, 2.0]; for genuinely unit-scale inputs the clamp never binds, and
//! it keeps every downstream magnitude bound provable.

use vstd::prelude::*;

use crate::fixed::{
    clamp, fp_div, fp_mul, fp_sqrt, iabs, lemma_fp_div_abs, lemma_fp_mul_abs, lemma_mul_le,
    clamp_i64, div_fp, mul_fp, sqrt_fp, SCALE,
};

verus! {

/// Largest component magnitude for which `length`, `squared_length` and
/// normalization are free of 64-bit overflow (a value of about 4.4e6).
pub const LEN_LIMIT: i64 = 0x40_0000_0000;

/// Components of a normalized vector are clamped to this magnitude (2.0).
pub const UNIT_CLAMP: i64 = 131072;

#[derive(Clone, Copy, Debug, PartialEq, Eq, Structural)]
pub struct Vector3D {
    pub x: i64,
    pub y: i64,
    pub z: i64,
}

/// All three components have magnitude at most `m`.
pub open spec fn vec_in(v: Vector3D, m: int) -> bool {
    iabs(v.x as int) <= m && iabs(v.y as int) <= m && iabs(v.z as int) <= m
}

/// Componentwise sum.
pub open spec fn svadd(a: Vector3D, b: Vector3D) -> Vector3D {
    Vector3D { x: (a.x + b.x) as i64, y: (a.y + b.y) as i64, z: (a.z + b.z) as i64 }
}

/// Componentwise difference.
pub open spec fn svsub(a: Vector3D, b: Vector3D) -> Vector3D {
    Vector3D { x: (a.x - b.x) as i64, y: (a.y - b.y) as i64, z: (a.z - b.z) as i64 }
}

/// Componentwise fixed-point product.
pub open spec fn svmul(a: Vector3D, b: Vector3D) -> Vector3D {
    Vector3D {
        x: fp_mul(a.x as int, b.x as int) as i64,
        y: fp_mul(a.y as int, b.y as int) as i64,
        z: fp_mul(a.z as int, b.z as int) as i64,
    }
}

/// Componentwise fixed-point quotient.
pub open spec fn svdiv(a: Vector3D, b: Vector3D) -> Vector3D {
    Vector3D {
        x: fp_div(a.x as int, b.x as int) as i64,
        y: fp_div(a.y as int, b.y as int) as i64,
        z: fp_div(a.z as int, b.z as int) as i64,
    }
}

/// Scaling by a fixed-point scalar.
pub open spec fn svscale(a: Vector3D, k: int) -> Vector3D {
    Vector3D {
        x: fp_mul(a.x as int, k) as i64,
        y: fp_mul(a.y as int, k) as i64,
        z: fp_mul(a.z as int, k) as i64,
    }
}

/// Division by a fixed-point scalar.
pub open spec fn svdiv_scalar(a: Vector3D, k: int) -> Vector3D {
    Vector3D {
        x: fp_div(a.x as int, k) as i64,
        y: fp_div(a.y as int, k) as i64,
        z: fp_div(a.z as int, k) as i64,
    }
}

/// Componentwise negation.
pub open spec fn svneg(a: Vector3D) -> Vector3D {
    Vector3D { x: (-a.x) as i64, y: (-a.y) as i64, z: (-a.z) as i64 }
}

/// Dot product: the sum of the componentwise fixed-point products.
pub open spec fn sdot(a: Vector3D, b: Vector3D) -> int {
    fp_mul(a.x as int, b.x as int) + fp_mul(a.y as int, b.y as int) + fp_mul(
        a.z as int,
        b.z as int,
    )
}

/// Cross product.
pub open spec fn scross(a: Vector3D, b: Vector3D) -> Vector3D {
    Vector3D {
        x: (fp_mul(a.y as int, b.z as int) - fp_mul(a.z as int, b.y as int)) as i64,
        y: (-(fp_mul(a.x as int, b.z as int) - fp_mul(a.z as int, b.x as int))) as i64,
        z: (fp_mul(a.x as int, b.y as int) - fp_mul(a.y as int, b.x as int)) as i64,
    }
}

/// Euclidean length: the fixed-point square root of the dot of a vector
/// with itself.
pub open spec fn slength(v: Vector3D) -> int {
    fp_sqrt(sdot(v, v))
}

/// Normalization: each component divided by the length, clamped to
/// [-2.0, 2.0] against rounding blow-up on near-degenerate inputs.
pub open spec fn sunit(v: Vector3D) -> Vector3D {
    let len = slength(v);
    Vector3D {
        x: clamp(fp_div(v.x as int, len), -UNIT_CLAMP as int, UNIT_CLAMP as int) as i64,
        y: clamp(fp_div(v.y as int, len), -UNIT_CLAMP as int, UNIT_CLAMP as int) as i64,
        z: clamp(fp_div(v.z as int, len), -UNIT_CLAMP as int, UNIT_CLAMP as int) as i64,
    }
}

/// The dot of a vector with itself is nonnegative.
pub proof fn lemma_sdot_self_nonneg(v: Vector3D)
    ensures
        sdot(v, v) >= 0,
{
    lemma_fp_mul_abs(v.x as int, v.x as int);
    lemma_fp_mul_abs(v.y as int, v.y as int);
    lemma_fp_mul_abs(v.z as int, v.z as int);
}

/// For vectors within `LEN_LIMIT`, the dot of a vector with itself fits
/// comfortably in 64 bits.
pub proof fn lemma_sdot_self_bound(v: Vector3D)
    requires
        vec_in(v, LEN_LIMIT as int),
    ensures
        0 <= sdot(v, v) <= 0x3000_0000_0000_0000,
{
    lemma_sdot_self_nonneg(v);
    lemma_fp_mul_le(v.x as int, v.x as int, LEN_LIMIT as int, LEN_LIMIT as int);
    lemma_fp_mul_le(v.y as int, v.y as int, LEN_LIMIT as int, LEN_LIMIT as int);
    lemma_fp_mul_le(v.z as int, v.z as int, LEN_LIMIT as int, LEN_LIMIT as int);
}

/// Dot products of vectors within the given bounds fit: each term is at
/// most `ba * bb / SCALE`.
pub proof fn lemma_sdot_bound(a: Vector3D, b: Vector3D, ba: int, bb: int)
    requires
        vec_in(a, ba),
        vec_in(b, bb),
    ensures
        iabs(sdot(a, b)) * SCALE <= 3 * ba * bb,
{
    lemma_fp_mul_le(a.x as int, b.x as int, ba, bb);
    lemma_fp_mul_le(a.y as int, b.y as int, ba, bb);
    lemma_fp_mul_le(a.z as int, b.z as int, ba, bb);
    assert(3 * ba * bb == ba * bb + ba * bb + ba * bb) by (nonlinear_arith);
}

impl Vector3D {
    pub fn new(x: i64, y: i64, z: i64) -> (r: Vector3D)
        ensures
            r == (Vector3D { x, y, z }),
    {
        Vector3D { x, y, z }
    }

    pub fn x(&self) -> (r: i64)
        ensures
            r == self.x,
    {
        self.x
    }

    pub fn y(&self) -> (r: i64)
        ensures
            r == self.y,
    {
        self.y
    }

    pub fn z(&self) -> (r: i64)
        ensures
            r == self.z,
    {
        self.z
    }

    pub fn r(&self) -> (r: i64)
        ensures
            r == self.x,
    {
        self.x
    }

    pub fn g(&self) -> (r: i64)
        ensures
            r == self.y,
    {
        self.y
    }

    pub fn b(&self) -> (r: i64)
        ensures
            r == self.z,
    {
        self.z
    }

    pub fn add(&self, o: &Vector3D) -> (r: Vector3D)
        requires
            iabs(self.x + o.x) <= i64::MAX,
            iabs(self.y + o.y) <= i64::MAX,
            iabs(self.z + o.z) <= i64::MAX,
        ensures
            r == svadd(*self, *o),
    {
        Vector3D { x: self.x + o.x, y: self.y + o.y, z: self.z + o.z }
    }

    pub fn sub(&self, o: &Vector3D) -> (r: Vector3D)
        requires
            iabs(self.x - o.x) <= i64::MAX,
            iabs(self.y - o.y) <= i64::MAX,
            iabs(self.z - o.z) <= i64::MAX,
        ensures
            r == svsub(*self, *o),
    {
        Vector3D { x: self.x - o.x, y: self.y - o.y, z: self.z - o.z }
    }

    pub fn mul(&self, o: &Vector3D) -> (r: Vector3D)
        requires
            iabs(fp_mul(self.x as int, o.x as int)) <= i64::MAX,
            iabs(fp_mul(self.y as int, o.y as int)) <= i64::MAX,
            iabs(fp_mul(self.z as int, o.z as int)) <= i64::MAX,
        ensures
            r == svmul(*self, *o),
    {
        Vector3D {
            x: mul_fp(self.x, o.x),
            y: mul_fp(self.y, o.y),
            z: mul_fp(self.z, o.z),
        }
    }

    pub fn div(&self, o: &Vector3D) -> (r: Vector3D)
        requires
            o.x != 0,
            o.y != 0,
            o.z != 0,
            iabs(fp_div(self.x as int, o.x as int)) <= i64::MAX,
            iabs(fp_div(self.y as int, o.y as int)) <= i64::MAX,
            iabs(fp_div(self.z as int, o.z as int)) <= i64::MAX,
        ensures
            r == svdiv(*self, *o),
    {
        Vector3D {
            x: div_fp(self.x, o.x),
            y: div_fp(self.y, o.y),
            z: div_fp(self.z, o.z),
        }
    }

    pub fn mul_scalar(&self, k: i64) -> (r: Vector3D)
        requires
            iabs(fp_mul(self.x as int, k as int)) <= i64::MAX,
            iabs(fp_mul(self.y as int, k as int)) <= i64::MAX,
            iabs(fp_mul(self.z as int, k as int)) <= i64::MAX,
        ensures
            r == svscale(*self, k as int),
    {
        Vector3D { x: mul_fp(self.x, k), y: mul_fp(self.y, k), z: mul_fp(self.z, k) }
    }

    pub fn div_scalar(&self, k: i64) -> (r: Vector3D)
        requires
            k != 0,
            iabs(fp_div(self.x as int, k as int)) <= i64::MAX,
            iabs(fp_div(self.y as int, k as int)) <= i64::MAX,
            iabs(fp_div(self.z as int, k as int)) <= i64::MAX,
        ensures
            r == svdiv_scalar(*self, k as int),
    {
        Vector3D { x: div_fp(self.x, k), y: div_fp(self.y, k), z: div_fp(self.z, k) }
    }

    pub fn neg(&self) -> (r: Vector3D)
        requires
            self.x > i64::MIN,
            self.y > i64::MIN,
            self.z > i64::MIN,
        ensures
            r == svneg(*self),
    {
        Vector3D { x: -self.x, y: -self.y, z: -self.z }
    }

    pub fn add_assign(&mut self, o: &Vector3D)
        requires
            iabs(old(self).x + o.x) <= i64::MAX,
            iabs(old(self).y + o.y) <= i64::MAX,
            iabs(old(self).z + o.z) <= i64::MAX,
        ensures
            *final(self) == svadd(*old(self), *o),
    {
        self.x = self.x + o.x;
        self.y = self.y + o.y;
        self.z = self.z + o.z;
    }

    pub fn sub_assign(&mut self, o: &Vector3D)
        requires
            iabs(old(self).x - o.x) <= i64::MAX,
            iabs(old(self).y - o.y) <= i64::MAX,
            iabs(old(self).z - o.z) <= i64::MAX,
        ensures
            *final(self) == svsub(*old(self), *o),
    {
        self.x = self.x - o.x;
        self.y = self.y - o.y;
        self.z = self.z - o.z;
    }

    pub fn mul_assign(&mut self, o: &Vector3D)
        requires
            iabs(fp_mul(old(self).x as int, o.x as int)) <= i64::MAX,
            iabs(fp_mul(old(self).y as int, o.y as int)) <= i64::MAX,
            iabs(fp_mul(old(self).z as int, o.z as int)) <= i64::MAX,
        ensures
            *final(self) == svmul(*old(self), *o),
    {
        self.x = mul_fp(self.x, o.x);
        self.y = mul_fp(self.y, o.y);
        self.z = mul_fp(self.z, o.z);
    }

    pub fn div_assign(&mut self, o: &Vector3D)
        requires
            o.x != 0,
            o.y != 0,
            o.z != 0,
            iabs(fp_div(old(self).x as int, o.x as int)) <= i64::MAX,
            iabs(fp_div(old(self).y as int, o.y as int)) <= i64::MAX,
            iabs(fp_div(old(self).z as int, o.z as int)) <= i64::MAX,
        ensures
            *final(self) == svdiv(*old(self), *o),
    {
        self.x = div_fp(self.x, o.x);
        self.y = div_fp(self.y, o.y);
        self.z = div_fp(self.z, o.z);
    }

    pub fn dot(&self, o: &Vector3D) -> (r: i64)
        requires
            vec_in(*self, LEN_LIMIT as int),
            vec_in(*o, LEN_LIMIT as int),
        ensures
            r == sdot(*self, *o),
    {
        proof {
            lemma_sdot_bound(*self, *o, LEN_LIMIT as int, LEN_LIMIT as int);
            lemma_fp_mul_le(self.x as int, o.x as int, LEN_LIMIT as int, LEN_LIMIT as int);
            lemma_fp_mul_le(self.y as int, o.y as int, LEN_LIMIT as int, LEN_LIMIT as int);
            lemma_fp_mul_le(self.z as int, o.z as int, LEN_LIMIT as int, LEN_LIMIT as int);
        }
        let px = mul_fp(self.x, o.x);
        let py = mul_fp(self.y, o.y);
        let pz = mul_fp(self.z, o.z);
        px + py + pz
    }

    pub fn cross(&self, o: &Vector3D) -> (r: Vector3D)
        requires
            vec_in(*self, LEN_LIMIT as int),
            vec_in(*o, LEN_LIMIT as int),
        ensures
            r == scross(*self, *o),
    {
        proof {
            lemma_fp_mul_le(self.x as int, o.x as int, LEN_LIMIT as int, LEN_LIMIT as int);
            lemma_fp_mul_le(self.x as int, o.y as int, LEN_LIMIT as int, LEN_LIMIT as int);
            lemma_fp_mul_le(self.x as int, o.z as int, LEN_LIMIT as int, LEN_LIMIT as int);
            lemma_fp_mul_le(self.y as int, o.x as int, LEN_LIMIT as int, LEN_LIMIT as int);
            lemma_fp_mul_le(self.y as int, o.y as int, LEN_LIMIT as int, LEN_LIMIT as int);
            lemma_fp_mul_le(self.y as int, o.z as int, LEN_LIMIT as int, LEN_LIMIT as int);
            lemma_fp_mul_le(self.z as int, o.x as int, LEN_LIMIT as int, LEN_LIMIT as int);
            lemma_fp_mul_le(self.z as int, o.y as int, LEN_LIMIT as int, LEN_LIMIT as int);
            lemma_fp_mul_le(self.z as int, o.z as int, LEN_LIMIT as int, LEN_LIMIT as int);
        }
        Vector3D {
            x: mul_fp(self.y, o.z) - mul_fp(self.z, o.y),
            y: -(mul_fp(self.x, o.z) - mul_fp(self.z, o.x)),
            z: mul_fp(self.x, o.y) - mul_fp(self.y, o.x),
        }
    }

    pub fn squared_length(&self) -> (r: i64)
        requires
            vec_in(*self, LEN_LIMIT as int),
        ensures
            r == sdot(*self, *self),
            r >= 0,
    {
        proof {
            lemma_sdot_self_bound(*self);
        }
        self.dot(self)
    }

    pub fn length(&self) -> (r: i64)
        requires
            vec_in(*self, LEN_LIMIT as int),
        ensures
            r == slength(*self),
            r >= 0,
    {
        let sq = self.squared_length();
        sqrt_fp(sq)
    }

    pub fn make_unit_vector(&mut self)
        requires
            vec_in(*old(self), LEN_LIMIT as int),
            slength(*old(self)) > 0,
        ensures
            *final(self) == sunit(*old(self)),
    {
        let len = self.length();
        proof {
            lemma_fp_div_abs(self.x as int, len as int);
            lemma_fp_div_abs(self.y as int, len as int);
            lemma_fp_div_abs(self.z as int, len as int);
        }
        let ux = clamp_i64(div_fp(self.x, len), -UNIT_CLAMP, UNIT_CLAMP);
        let uy = clamp_i64(div_fp(self.y, len), -UNIT_CLAMP, UNIT_CLAMP);
        let uz = clamp_i64(div_fp(self.z, len), -UNIT_CLAMP, UNIT_CLAMP);
        self.x = ux;
        self.y = uy;
        self.z = uz;
    }
}

/// The normalized copy of a vector; see `sunit` for the rounding clamp.
pub fn unit_vector(v: &Vector3D) -> (r: Vector3D)
    requires
        vec_in(*v, LEN_LIMIT as int),
        slength(*v) > 0,
    ensures
        r == sunit(*v),
        vec_in(r, UNIT_CLAMP as int),
{
    let mut u = *v;
    u.make_unit_vector();
    u
}

/// Magnitude bound for fixed-point products, in a form linear for callers:
/// the product times SCALE is at most the product of the bounds.
pub proof fn lemma_fp_mul_le(a: int, b: int, bound_a: int, bound_b: int)
    requires
        iabs(a) <= bound_a,
        iabs(b) <= bound_b,
    ensures
        iabs(fp_mul(a, b)) * SCALE <= bound_a * bound_b,
{
    lemma_fp_mul_abs(a, b);
    lemma_mul_le(iabs(a), iabs(b), bound_a, bound_b);
}

/// Componentwise magnitude bound for the cross product: each component is
/// a difference of two fixed-point products of the factors' components.
pub proof fn lemma_cross_bound(a: Vector3D, b: Vector3D, ba: int, bb: int, m: int)
    requires
        vec_in(a, ba),
        vec_in(b, bb),
        0 <= ba,
        0 <= bb,
        2 * (ba * bb) <= m * SCALE,
        m <= i64::MAX,
    ensures
        vec_in(scross(a, b), m),
{
    lemma_fp_mul_le(a.x as int, b.x as int, ba, bb);
    lemma_fp_mul_le(a.x as int, b.y as int, ba, bb);
    lemma_fp_mul_le(a.x as int, b.z as int, ba, bb);
    lemma_fp_mul_le(a.y as int, b.x as int, ba, bb);
    lemma_fp_mul_le(a.y as int, b.y as int, ba, bb);
    lemma_fp_mul_le(a.y as int, b.z as int, ba, bb);
    lemma_fp_mul_le(a.z as int, b.x as int, ba, bb);
    lemma_fp_mul_le(a.z as int, b.y as int, ba, bb);
    lemma_fp_mul_le(a.z as int, b.z as int, ba, bb);
}

/// Vector addition commutes.
pub proof fn lemma_add_commutative(u: Vector3D, v: Vector3D)
    ensures
        svadd(u, v) == svadd(v, u),
{
}

/// Vector addition associates, whenever the partial sums stay in range.
pub proof fn lemma_add_associative(u: Vector3D, v: Vector3D, w: Vector3D)
    requires
        vec_in(u, 0x1fff_ffff_ffff_ffff),
        vec_in(v, 0x1fff_ffff_ffff_ffff),
        vec_in(w, 0x1fff_ffff_ffff_ffff),
    ensures
        svadd(svadd(u, v), w) == svadd(u, svadd(v, w)),
{
}

/// The dot of a vector with itself is the squared length: the fixed-point
/// length is exactly the floor square root of `dot(u,u) * SCALE`.
pub proof fn lemma_dot_self_is_squared_length(u: Vector3D)
    requires
        vec_in(u, LEN_LIMIT as int),
    ensures
        slength(u) * slength(u) <= sdot(u, u) * SCALE,
        sdot(u, u) * SCALE < (slength(u) + 1) * (slength(u) + 1),
{
    lemma_sdot_self_bound(u);
    let n = (sdot(u, u) * SCALE) as nat;
    crate::fixed::lemma_isqrt(n);
}

/// The cross product is antisymmetric: u x v == -(v x u).
pub proof fn lemma_cross_antisymmetric(u: Vector3D, v: Vector3D)
    requires
        vec_in(u, LEN_LIMIT as int),
        vec_in(v, LEN_LIMIT as int),
    ensures
        scross(u, v) == svneg(scross(v, u)),
{
    let lim = LEN_LIMIT as int;
    crate::fixed::lemma_fp_mul_comm(u.x as int, v.y as int);
    crate::fixed::lemma_fp_mul_comm(u.x as int, v.z as int);
    crate::fixed::lemma_fp_mul_comm(u.y as int, v.x as int);
    crate::fixed::lemma_fp_mul_comm(u.y as int, v.z as int);
    crate::fixed::lemma_fp_mul_comm(u.z as int, v.x as int);
    crate::fixed::lemma_fp_mul_comm(u.z as int, v.y as int);
    lemma_fp_mul_le(u.x as int, v.y as int, lim, lim);
    lemma_fp_mul_le(u.x as int, v.z as int, lim, lim);
    lemma_fp_mul_le(u.y as int, v.x as int, lim, lim);
    lemma_fp_mul_le(u.y as int, v.z as int, lim, lim);
    lemma_fp_mul_le(u.z as int, v.x as int, lim, lim);
    lemma_fp_mul_le(u.z as int, v.y as int, lim, lim);
    let cx = fp_mul(u.y as int, v.z as int) - fp_mul(u.z as int, v.y as int);
    let cy = -(fp_mul(u.x as int, v.z as int) - fp_mul(u.z as int, v.x as int));
    let cz = fp_mul(u.x as int, v.y as int) - fp_mul(u.y as int, v.x as int);
    assert(iabs(cx) <= 0x2000_0000_0000_0000);
    assert(iabs(cy) <= 0x2000_0000_0000_0000);
    assert(iabs(cz) <= 0x2000_0000_0000_0000);
    assert(scross(u, v).x == cx as i64);
    assert(scross(v, u).x == (-cx) as i64);
    assert(scross(u, v).y == cy as i64);
    assert(scross(v, u).y == (-cy) as i64);
    assert(scross(u, v).z == cz as i64);
    assert(scross(v, u).z == (-cz) as i64);
}

} // verus!
