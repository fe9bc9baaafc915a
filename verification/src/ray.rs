//! Rays: an origin and a (not necessarily unit) direction, with
//! parameterized point evaluation `origin + direction * t`.

use vstd::prelude::*;

use crate::fixed::{fp_mul, iabs};
use crate::vector3d::{svadd, svscale, vec_in, Vector3D, LEN_LIMIT};

verus! {

#[derive(Clone, Copy, Debug, PartialEq, Eq, Structural)]
pub struct Ray {
    pub a: Vector3D,
    pub b: Vector3D,
}

/// The point the ray reaches at parameter `t`: origin + direction * t.
pub open spec fn spoint_at(r: Ray, t: int) -> Vector3D {
    svadd(r.a, svscale(r.b, t))
}

impl Ray {
    pub fn new(a: Vector3D, b: Vector3D) -> (r: Ray)
        ensures
            r == (Ray { a, b }),
    {
        Ray { a, b }
    }

    pub fn origin(&self) -> (r: Vector3D)
        ensures
            r == self.a,
    {
        self.a
    }

    pub fn direction(&self) -> (r: Vector3D)
        ensures
            r == self.b,
    {
        self.b
    }

    pub fn point_at_parameter(&self, t: i64) -> (r: Vector3D)
        requires
            vec_in(self.a, 0x3000_0000_0000_0000),
            vec_in(self.b, LEN_LIMIT as int),
            iabs(t as int) <= LEN_LIMIT,
        ensures
            r == spoint_at(*self, t as int),
    {
        proof {
            crate::vector3d::lemma_fp_mul_le(
                self.b.x as int,
                t as int,
                LEN_LIMIT as int,
                LEN_LIMIT as int,
            );
            crate::vector3d::lemma_fp_mul_le(
                self.b.y as int,
                t as int,
                LEN_LIMIT as int,
                LEN_LIMIT as int,
            );
            crate::vector3d::lemma_fp_mul_le(
                self.b.z as int,
                t as int,
                LEN_LIMIT as int,
                LEN_LIMIT as int,
            );
        }
        let scaled = self.b.mul_scalar(t);
        self.a.add(&scaled)
    }
}

} // verus!
