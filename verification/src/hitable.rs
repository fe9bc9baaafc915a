//! Hit records and the aggregate surface list.
//!
//! A `HitRecord` is the transient result of one intersection query:
//! parametric distance, hit point, outward normal and the material at the
//! point. A `HitableList` owns the scene's spheres and answers the
//! nearest-hit query by a linear scan that shrinks the upper search bound
//! to the best hit found so far; `shit_list` is the spec-level mirror of
//! that scan.

use vstd::prelude::*;

use crate::material::{material_wf, Material};
use crate::ray::Ray;
use crate::sphere::{shit_sphere, sphere_wf, Sphere, ORIGIN_LIMIT, T_FAR};
use crate::vector3d::{vec_in, Vector3D, UNIT_CLAMP};

verus! {

#[derive(Clone, Copy, Debug, PartialEq, Eq, Structural)]
pub struct HitRecord {
    pub t: i64,
    pub p: Vector3D,
    pub normal: Vector3D,
    pub material: Material,
}

/// Bounds on a hit record that every intersection query guarantees: the
/// point stays inside the world box, the normal inside the unit clamp.
pub open spec fn hit_record_wf(h: HitRecord) -> bool {
    &&& 0 <= h.t <= T_FAR
    &&& vec_in(h.p, ORIGIN_LIMIT as int)
    &&& vec_in(h.normal, UNIT_CLAMP as int)
    &&& material_wf(h.material)
}

impl HitRecord {
    pub fn new(m: Material) -> (r: HitRecord)
        ensures
            r.t == 0,
            r.p == (Vector3D { x: 0, y: 0, z: 0 }),
            r.normal == (Vector3D { x: 0, y: 0, z: 0 }),
            r.material == m,
    {
        HitRecord {
            t: 0,
            p: Vector3D { x: 0, y: 0, z: 0 },
            normal: Vector3D { x: 0, y: 0, z: 0 },
            material: m,
        }
    }
}

pub struct HitableList {
    pub list: Vec<Sphere>,
}

/// Every sphere of the scene is well-formed.
pub open spec fn world_wf(w: HitableList) -> bool {
    forall|i: int| 0 <= i < w.list@.len() ==> sphere_wf(#[trigger] w.list@[i])
}

/// The state of the nearest-hit scan after the first `i` spheres: `best`
/// is the closest hit so far and `closest` the shrunken upper bound.
/// Running it from index 0 with no hit yet gives the query's result.
pub open spec fn shit_list_from(
    list: Seq<Sphere>,
    i: int,
    r: Ray,
    t_min: int,
    closest: int,
    best: Option<HitRecord>,
) -> Option<HitRecord>
    decreases list.len() - i,
{
    if i < 0 || i >= list.len() {
        best
    } else {
        match shit_sphere(list[i], r, t_min, closest) {
            Some(h) => shit_list_from(list, i + 1, r, t_min, h.t as int, Some(h)),
            None => shit_list_from(list, i + 1, r, t_min, closest, best),
        }
    }
}

/// The nearest hit of the ray against the whole list, in (t_min, t_max).
pub open spec fn shit_list(list: Seq<Sphere>, r: Ray, t_min: int, t_max: int) -> Option<
    HitRecord,
> {
    shit_list_from(list, 0, r, t_min, t_max, None)
}

/// Shrinking the search window preserves a miss.
proof fn lemma_sphere_window_shrink(s: Sphere, r: Ray, tm: int, w1: int, w2: int)
    requires
        w2 <= w1,
        shit_sphere(s, r, tm, w1) is None,
    ensures
        shit_sphere(s, r, tm, w2) is None,
{
}

/// A sphere that reports a hit has no root below it: the query misses in
/// any window capped at the reported distance.
proof fn lemma_sphere_no_hit_below(s: Sphere, r: Ray, tm: int, w: int, cap: int)
    requires
        0 <= tm,
        w <= T_FAR,
        shit_sphere(s, r, tm, w) matches Some(hi) && cap <= hi.t,
    ensures
        shit_sphere(s, r, tm, cap) is None,
{
    let oc = crate::vector3d::svsub(r.a, s.center);
    let a = crate::vector3d::sdot(r.b, r.b);
    let b = crate::vector3d::sdot(oc, r.b);
    let disc = crate::sphere::sp_disc(s, r);
    let sq = crate::fixed::isqrt(disc as nat) as int;
    let t1 = crate::fixed::tdiv((-b - sq) * crate::fixed::SCALE, a);
    let t2 = crate::fixed::tdiv((-b + sq) * crate::fixed::SCALE, a);
    assert(a > 0);
    crate::fixed::lemma_tdiv_mono(
        (-b - sq) * crate::fixed::SCALE,
        (-b + sq) * crate::fixed::SCALE,
        a,
    );
    assert(t1 <= t2) by {
        assert((-b - sq) * crate::fixed::SCALE <= (-b + sq) * crate::fixed::SCALE)
            by (nonlinear_arith)
            requires
                sq >= 0,
                crate::fixed::SCALE == 65536,
        ;
    }
    if tm < t1 && t1 < w {
        assert(shit_sphere(s, r, tm, w) == Some(crate::sphere::sp_record(s, r, t1)));
    } else {
        assert(shit_sphere(s, r, tm, w) == Some(crate::sphere::sp_record(s, r, t2)));
    }
}

/// The invariant of the scan, by induction over the remaining spheres:
/// whatever it returns, no remaining sphere hits strictly below it.
proof fn lemma_scan_nearest(
    list: Seq<Sphere>,
    i: int,
    r: Ray,
    tm: int,
    closest: int,
    best: Option<HitRecord>,
)
    requires
        0 <= i,
        0 <= tm,
        closest <= T_FAR,
        best matches Some(b) ==> closest == b.t,
    ensures
        match shit_list_from(list, i, r, tm, closest, best) {
            Some(h) => h.t <= closest && forall|j: int|
                i <= j < list.len() ==> #[trigger] shit_sphere(list[j], r, tm, h.t as int)
                    is None,
            None => forall|j: int|
                i <= j < list.len() ==> #[trigger] shit_sphere(list[j], r, tm, closest) is None,
        },
    decreases list.len() - i,
{
    if i < 0 || i >= list.len() {
    } else {
        let res = shit_list_from(list, i, r, tm, closest, best);
        match shit_sphere(list[i], r, tm, closest) {
            Some(hi) => {
                assert(hi.t < closest);
                lemma_scan_nearest(list, i + 1, r, tm, hi.t as int, Some(hi));
                lemma_scan_some_stays(list, i + 1, r, tm, hi.t as int, hi);
                assert(res == shit_list_from(list, i + 1, r, tm, hi.t as int, Some(hi)));
                match res {
                    Some(h) => {
                        lemma_sphere_no_hit_below(list[i], r, tm, closest, h.t as int);
                        assert forall|j: int| i <= j < list.len() implies #[trigger] shit_sphere(
                            list[j],
                            r,
                            tm,
                            h.t as int,
                        ) is None by {
                            if j > i {
                                assert(shit_sphere(list[j], r, tm, h.t as int) is None);
                            }
                        }
                    },
                    None => {},
                }
            },
            None => {
                lemma_scan_nearest(list, i + 1, r, tm, closest, best);
                assert(res == shit_list_from(list, i + 1, r, tm, closest, best));
                match res {
                    Some(h) => {
                        lemma_sphere_window_shrink(list[i], r, tm, closest, h.t as int);
                        assert forall|j: int| i <= j < list.len() implies #[trigger] shit_sphere(
                            list[j],
                            r,
                            tm,
                            h.t as int,
                        ) is None by {
                            if j > i {
                                assert(shit_sphere(list[j], r, tm, h.t as int) is None);
                            }
                        }
                    },
                    None => {
                        assert forall|j: int| i <= j < list.len() implies #[trigger] shit_sphere(
                            list[j],
                            r,
                            tm,
                            closest,
                        ) is None by {
                            if j > i {
                                assert(shit_sphere(list[j], r, tm, closest) is None);
                            }
                        }
                    },
                }
            },
        }
    }
}

/// Once the scan holds a hit, it reports one.
proof fn lemma_scan_some_stays(
    list: Seq<Sphere>,
    i: int,
    r: Ray,
    tm: int,
    closest: int,
    b: HitRecord,
)
    ensures
        shit_list_from(list, i, r, tm, closest, Some(b)) is Some,
    decreases list.len() - i,
{
    if i < 0 || i >= list.len() {
    } else {
        match shit_sphere(list[i], r, tm, closest) {
            Some(hi) => {
                lemma_scan_some_stays(list, i + 1, r, tm, hi.t as int, hi);
            },
            None => {
                lemma_scan_some_stays(list, i + 1, r, tm, closest, b);
            },
        }
    }
}

/// The aggregate query returns the nearest hit: no sphere of the scene
/// has an accepted root strictly closer than the reported one, and on a
/// miss no sphere has an accepted root at all.
pub proof fn lemma_list_hit_is_nearest(list: Seq<Sphere>, r: Ray, tm: int, tmax: int)
    requires
        0 <= tm,
        tmax <= T_FAR,
    ensures
        shit_list(list, r, tm, tmax) matches Some(h) ==> forall|j: int|
            0 <= j < list.len() ==> #[trigger] shit_sphere(list[j], r, tm, h.t as int) is None,
        shit_list(list, r, tm, tmax) is None ==> forall|j: int|
            0 <= j < list.len() ==> #[trigger] shit_sphere(list[j], r, tm, tmax) is None,
{
    lemma_scan_nearest(list, 0, r, tm, tmax, None);
}

impl HitableList {
    pub fn new(hitable: Vec<Sphere>) -> (r: HitableList)
        ensures
            r.list == hitable,
    {
        HitableList { list: hitable }
    }

    /// The nearest hit in (t_min, t_max), scanning the spheres in order
    /// and shrinking the upper bound to each accepted hit.
    pub fn hit(&self, r: &Ray, t_min: i64, t_max: i64) -> (res: Option<HitRecord>)
        requires
            world_wf(*self),
            vec_in(r.a, ORIGIN_LIMIT as int),
            vec_in(r.b, crate::sphere::DIR_LIMIT as int),
            0 <= t_min,
            t_max <= T_FAR,
        ensures
            res == shit_list(self.list@, *r, t_min as int, t_max as int),
            res matches Some(h) ==> t_min < h.t < t_max && hit_record_wf(h),
    {
        let ghost orig_t_max = t_max as int;
        let mut best: Option<HitRecord> = None;
        let mut closest: i64 = t_max;
        let n = self.list.len();
        let mut i: usize = 0;
        while i < n
            invariant
                n == self.list@.len(),
                0 <= i <= n,
                world_wf(*self),
                vec_in(r.a, ORIGIN_LIMIT as int),
                vec_in(r.b, crate::sphere::DIR_LIMIT as int),
                0 <= t_min,
                t_max <= T_FAR,
                closest <= t_max,
                best matches Some(bh) ==> t_min < bh.t < t_max && closest == bh.t
                    && hit_record_wf(bh),
                best is None ==> closest == t_max,
                shit_list(self.list@, *r, t_min as int, t_max as int) == shit_list_from(
                    self.list@,
                    i as int,
                    *r,
                    t_min as int,
                    closest as int,
                    best,
                ),
            decreases n - i,
        {
            let s = &self.list[i];
            match s.hit(r, t_min, closest) {
                Some(h) => {
                    closest = h.t;
                    best = Some(h);
                },
                None => {},
            }
            i = i + 1;
        }
        best
    }
}

} // verus!
