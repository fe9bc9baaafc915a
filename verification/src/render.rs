//! The radiance estimator and the render scheduler.
//!
//! `color` evaluates one ray against the scene: on a miss it returns the
//! vertical sky gradient, on a hit it scatters (up to a path depth of 50)
//! and multiplies the attenuations of the bounces. It is written as a
//! loop carrying the accumulated attenuation, so the call stack stays
//! flat; at the depth bound it performs exactly one scene query and
//! returns black on a hit, which its contract states. Every channel of
//! the result stays in [0, 1].
//!
//! `render` partitions the image into rows, renders them concurrently
//! (each row is an independent task with its own seeded random stream),
//! and emits the pixel buffer row-major, top row first, columns left to
//! right. Each pixel averages its samples, applies gamma correction by
//! square root, and quantizes each channel to an integer below the
//! maximum color value.

use vstd::prelude::*;

use rayon::iter::{IntoParallelIterator, ParallelIterator};

use crate::camera::{camera_wf, Camera};
use crate::fixed::{div_trunc_pos, fp_mul, fp_sqrt, tdiv, SCALE};
use crate::hitable::{shit_list, world_wf, HitableList};
use crate::material::color_wf;
use crate::ray::Ray;
use crate::sampler::Sampler;
use crate::sphere::{DIR_LIMIT, ORIGIN_LIMIT, T_FAR};
use crate::vector3d::{sdot, sunit, vec_in, Vector3D};

verus! {

/// Lower search bound for every scene query (about 0.001): hits closer
/// than this are ignored, which avoids shadow acne.
pub const T_EPS: i64 = 66;

/// Path depth at which the estimator stops scattering.
pub const MAX_DEPTH: i32 = 50;

/// The sky gradient for a ray direction: a blend from white to sky blue
/// keyed by the normalized direction's height, the blend factor clamped
/// into [0, 1] against normalization rounding.
pub open spec fn ssky(dir: Vector3D) -> Vector3D {
    let uy = sunit(dir).y as int;
    let t = crate::fixed::clamp(tdiv(uy + SCALE, 2), 0, SCALE as int);
    Vector3D {
        x: (SCALE - t + fp_mul(t, 32768)) as i64,
        y: (SCALE - t + fp_mul(t, 45875)) as i64,
        z: (SCALE - t + fp_mul(t, 65536)) as i64,
    }
}

/// What the estimator returns when the depth budget is exhausted: one
/// scene query; black on a hit (or for a direction below fixed-point
/// resolution), the sky gradient on a miss.
pub open spec fn scolor_terminal(r: Ray, list: Seq<crate::sphere::Sphere>) -> Vector3D {
    if sdot(r.b, r.b) < 1 {
        Vector3D { x: 0, y: 0, z: 0 }
    } else {
        match shit_list(list, r, T_EPS as int, T_FAR as int) {
            Some(_) => Vector3D { x: 0, y: 0, z: 0 },
            None => ssky(r.b),
        }
    }
}

/// Gamma-corrected quantization of one channel: floor(sqrt(c) * max),
/// capped at max - 1.
pub open spec fn squantize(c: int, max: int) -> int {
    let q = tdiv(fp_sqrt(c) * max, SCALE as int);
    if q > max - 1 {
        max - 1
    } else {
        q
    }
}

/// The sky gradient for a ray direction.
pub fn sky(dir: &Vector3D) -> (c: Vector3D)
    requires
        vec_in(*dir, DIR_LIMIT as int),
        sdot(*dir, *dir) >= 1,
    ensures
        c == ssky(*dir),
        color_wf(c),
{
    proof {
        crate::fixed::lemma_isqrt_pos((sdot(*dir, *dir) * SCALE) as nat);
    }
    let u = crate::vector3d::unit_vector(dir);
    let s0 = u.y + SCALE;
    let t: i64;
    if s0 <= 0 {
        proof {
            crate::fixed::lemma_tdiv_abs(s0 as int, 2);
        }
        t = 0;
    } else {
        let h = div_trunc_pos(s0, 2);
        if h > SCALE {
            t = SCALE;
        } else {
            t = h;
        }
    }
    proof {
        crate::fixed::lemma_fp_mul_unit(t as int, 32768);
        crate::fixed::lemma_fp_mul_unit(t as int, 45875);
        crate::fixed::lemma_fp_mul_unit(t as int, 65536);
    }
    let cx = SCALE - t + crate::fixed::mul_fp(t, 32768);
    let cy = SCALE - t + crate::fixed::mul_fp(t, 45875);
    let cz = SCALE - t + crate::fixed::mul_fp(t, 65536);
    Vector3D { x: cx, y: cy, z: cz }
}

/// The radiance carried back along a ray: sky on a miss, the attenuated
/// radiance of the scattered path on a hit, black on absorption or at the
/// depth bound. `depth` counts the scattering events already undergone.
pub fn color(r: &Ray, world: &HitableList, depth: i32, s: &mut Sampler) -> (c: Vector3D)
    requires
        world_wf(*world),
        vec_in(r.a, ORIGIN_LIMIT as int),
        vec_in(r.b, DIR_LIMIT as int),
        0 <= depth,
    ensures
        color_wf(c),
        depth >= MAX_DEPTH ==> c == scolor_terminal(*r, world.list@),
        sdot(r.b, r.b) < 1 ==> c == (Vector3D { x: 0, y: 0, z: 0 }),
        sdot(r.b, r.b) >= 1 && shit_list(world.list@, *r, T_EPS as int, T_FAR as int) is None
            ==> c == ssky(r.b),
{
    let black = Vector3D { x: 0, y: 0, z: 0 };
    if depth >= MAX_DEPTH {
        if r.b.dot(&r.b) < 1 {
            return black;
        }
        match world.hit(r, T_EPS, T_FAR) {
            Some(_) => {
                return black;
            },
            None => {
                return sky(&r.b);
            },
        }
    }
    let mut acc = Vector3D { x: SCALE, y: SCALE, z: SCALE };
    let mut cur = *r;
    let mut budget: i32 = MAX_DEPTH - depth;
    loop
        invariant
            world_wf(*world),
            vec_in(cur.a, ORIGIN_LIMIT as int),
            vec_in(cur.b, DIR_LIMIT as int),
            color_wf(acc),
            0 <= budget <= MAX_DEPTH,
            depth < MAX_DEPTH,
            sdot(r.b, r.b) < 1 ==> cur == *r,
            shit_list(world.list@, *r, T_EPS as int, T_FAR as int) is None ==> cur == *r && acc
                == (Vector3D { x: SCALE, y: SCALE, z: SCALE }),
        decreases budget,
    {
        if cur.b.dot(&cur.b) < 1 {
            return Vector3D { x: 0, y: 0, z: 0 };
        }
        match world.hit(&cur, T_EPS, T_FAR) {
            None => {
                let skyc = sky(&cur.b);
                proof {
                    crate::fixed::lemma_fp_mul_unit(acc.x as int, skyc.x as int);
                    crate::fixed::lemma_fp_mul_unit(acc.y as int, skyc.y as int);
                    crate::fixed::lemma_fp_mul_unit(acc.z as int, skyc.z as int);
                    if shit_list(world.list@, *r, T_EPS as int, T_FAR as int) is None {
                        crate::fixed::lemma_fp_mul_one(skyc.x as int);
                        crate::fixed::lemma_fp_mul_one(skyc.y as int);
                        crate::fixed::lemma_fp_mul_one(skyc.z as int);
                    }
                }
                return acc.mul(&skyc);
            },
            Some(rec) => {
                if budget == 0 {
                    return Vector3D { x: 0, y: 0, z: 0 };
                }
                let mut attenuation = Vector3D { x: 0, y: 0, z: 0 };
                let zerov = Vector3D { x: 0, y: 0, z: 0 };
                let mut scattered = Ray::new(zerov, zerov);
                let ok = rec.material.scatter(&cur, &rec, &mut attenuation, &mut scattered, s);
                if !ok {
                    return Vector3D { x: 0, y: 0, z: 0 };
                }
                proof {
                    crate::fixed::lemma_fp_mul_unit(acc.x as int, attenuation.x as int);
                    crate::fixed::lemma_fp_mul_unit(acc.y as int, attenuation.y as int);
                    crate::fixed::lemma_fp_mul_unit(acc.z as int, attenuation.z as int);
                }
                acc = acc.mul(&attenuation);
                cur = scattered;
                budget = budget - 1;
            },
        }
    }
}

/// Gamma-corrected quantization of one radiance channel to an integer in
/// [0, max_color).
pub fn quantize_channel(c: i64, max_color: u32) -> (q: u32)
    requires
        0 <= c <= SCALE,
        1 <= max_color <= 65536,
    ensures
        q == squantize(c as int, max_color as int),
        q < max_color,
{
    let g = crate::fixed::sqrt_fp(c);
    proof {
        crate::fixed::lemma_isqrt((c * SCALE) as nat);
        assert(g <= 65536) by (nonlinear_arith)
            requires
                g >= 0,
                (g as int) * (g as int) <= (c as int) * (SCALE as int),
                c <= 65536,
                SCALE == 65536,
        ;
    }
    proof {
        assert(g * (max_color as int) <= 4294967296) by (nonlinear_arith)
            requires
                0 <= g <= 65536,
                0 <= max_color <= 65536,
        ;
    }
    let prod = g * (max_color as i64);
    let q = div_trunc_pos(prod, SCALE);
    if q > (max_color as i64) - 1 {
        max_color - 1
    } else {
        q as u32
    }
}

/// One pixel: `ns` jittered samples through the camera, averaged,
/// gamma-corrected and quantized with a maximum color value of 256. The
/// result is the quantization of some radiance average with channels in
/// [0, 1]; which one depends on the random stream.
pub fn calculate_pixel(
    ns: u32,
    cam: &Camera,
    world: &HitableList,
    i: u32,
    j: u32,
    nx: u32,
    ny: u32,
    s: &mut Sampler,
) -> (px: (u8, u8, u8))
    requires
        camera_wf(*cam),
        world_wf(*world),
        i < nx,
        j < ny,
        nx <= 16384,
        ny <= 16384,
        1 <= ns <= 65536,
    ensures
        exists|avg: Vector3D|
            #![auto]
            color_wf(avg) && px.0 == squantize(avg.x as int, 256) && px.1 == squantize(
                avg.y as int,
                256,
            ) && px.2 == squantize(avg.z as int, 256),
{
    let mut cx: i64 = 0;
    let mut cy: i64 = 0;
    let mut cz: i64 = 0;
    let mut k: u32 = 0;
    while k < ns
        invariant
            camera_wf(*cam),
            world_wf(*world),
            i < nx,
            j < ny,
            nx <= 16384,
            ny <= 16384,
            1 <= ns <= 65536,
            k <= ns,
            0 <= cx <= k * 65536,
            0 <= cy <= k * 65536,
            0 <= cz <= k * 65536,
        decreases ns - k,
    {
        let ju = s.next_unit();
        let jv = s.next_unit();
        let u_num = (i as i64) * 65536 + ju;
        let v_num = (j as i64) * 65536 + jv;
        let u = div_trunc_pos(u_num, nx as i64);
        let v = div_trunc_pos(v_num, ny as i64);
        proof {
            assert(u <= 65536) by (nonlinear_arith)
                requires
                    u >= 0,
                    u * (nx as int) <= u_num as int,
                    u_num < (nx as int) * 65536,
                    nx >= 1,
            ;
            assert(v <= 65536) by (nonlinear_arith)
                requires
                    v >= 0,
                    v * (ny as int) <= v_num as int,
                    v_num < (ny as int) * 65536,
                    ny >= 1,
            ;
        }
        let ray = cam.get_ray(u, v, s);
        let c = color(&ray, world, 0, s);
        cx = cx + c.x;
        cy = cy + c.y;
        cz = cz + c.z;
        k = k + 1;
    }
    let ax = div_trunc_pos(cx, ns as i64);
    let ay = div_trunc_pos(cy, ns as i64);
    let az = div_trunc_pos(cz, ns as i64);
    proof {
        assert(ax <= 65536 && ay <= 65536 && az <= 65536) by (nonlinear_arith)
            requires
                ax >= 0 && ay >= 0 && az >= 0,
                ax * (ns as int) <= cx as int,
                ay * (ns as int) <= cy as int,
                az * (ns as int) <= cz as int,
                cx <= (ns as int) * 65536,
                cy <= (ns as int) * 65536,
                cz <= (ns as int) * 65536,
                ns >= 1,
        ;
    }
    let qx = quantize_channel(ax, 256);
    let qy = quantize_channel(ay, 256);
    let qz = quantize_channel(az, 256);
    proof {
        let avg = Vector3D { x: ax, y: ay, z: az };
        assert(color_wf(avg) && qx == squantize(avg.x as int, 256) && qy == squantize(
            avg.y as int,
            256,
        ) && qz == squantize(avg.z as int, 256));
    }
    (qx as u8, qy as u8, qz as u8)
}

/// One image row has three channel bytes per pixel.
pub open spec fn row_ok(row: Seq<u8>, nx: int) -> bool {
    row.len() == 3 * nx
}

/// The pixels of image row `jj` counted from the top, left to right, with
/// a random stream seeded from the base seed and the row index.
pub fn render_row(
    cam: &Camera,
    world: &HitableList,
    nx: u32,
    ny: u32,
    ns: u32,
    seed: u64,
    jj: u32,
) -> (row: Vec<u8>)
    requires
        camera_wf(*cam),
        world_wf(*world),
        jj < ny,
        1 <= nx <= 16384,
        ny <= 16384,
        1 <= ns <= 65536,
    ensures
        row_ok(row@, nx as int),
{
    let j = ny - 1 - jj;
    let mut s = Sampler::from_seed(seed.wrapping_add(jj as u64));
    let mut row: Vec<u8> = Vec::new();
    let mut i: u32 = 0;
    while i < nx
        invariant
            camera_wf(*cam),
            world_wf(*world),
            j < ny,
            i <= nx,
            1 <= nx <= 16384,
            ny <= 16384,
            1 <= ns <= 65536,
            row@.len() == 3 * i,
        decreases nx - i,
    {
        let px = calculate_pixel(ns, cam, world, i, j, nx, ny, &mut s);
        row.push(px.0);
        row.push(px.1);
        row.push(px.2);
        i = i + 1;
    }
    row
}

/// Relies on rayon's `into_par_iter().map(..).collect()` over a range:
/// the collected Vec has one element per index, in index order, each the
/// result of the closure, which only calls the verified `render_row`.
/// Each row therefore satisfies `render_row`'s postcondition.
#[verifier::external_body]
fn render_rows_parallel(
    cam: &Camera,
    world: &HitableList,
    nx: u32,
    ny: u32,
    ns: u32,
    seed: u64,
) -> (rows: Vec<Vec<u8>>)
    requires
        camera_wf(*cam),
        world_wf(*world),
        1 <= nx <= 16384,
        1 <= ny <= 16384,
        1 <= ns <= 65536,
    ensures
        rows@.len() == ny as int,
        forall|k: int| 0 <= k < ny as int ==> row_ok(#[trigger] rows@[k]@, nx as int),
{
    (0..ny).into_par_iter().map(|jj| render_row(cam, world, nx, ny, ns, seed, jj)).collect()
}

/// Renders the whole image: rows are distributed over a worker pool, each
/// with its own random stream, and concatenated top row first, columns
/// left to right, three channel bytes per pixel.
pub fn render(cam: Camera, world: HitableList, nx: u32, ny: u32, ns: u32, seed: u64) -> (pixels:
    Vec<u8>)
    requires
        camera_wf(cam),
        world_wf(world),
        1 <= nx <= 16384,
        1 <= ny <= 16384,
        1 <= ns <= 65536,
    ensures
        pixels@.len() == 3 * (nx as int) * (ny as int),
{
    let rows = render_rows_parallel(&cam, &world, nx, ny, ns, seed);
    let mut pixels: Vec<u8> = Vec::new();
    let mut r: usize = 0;
    while r < rows.len()
        invariant
            rows@.len() == ny as int,
            forall|k: int| 0 <= k < ny as int ==> row_ok(#[trigger] rows@[k]@, nx as int),
            r <= ny,
            nx <= 16384,
            ny <= 16384,
            pixels@.len() == 3 * (nx as int) * (r as int),
        decreases rows@.len() - r,
    {
        let row = &rows[r];
        let mut k: usize = 0;
        while k < row.len()
            invariant
                row@.len() == 3 * (nx as int),
                k <= row@.len(),
                nx <= 16384,
                r < ny,
                ny <= 16384,
                pixels@.len() == 3 * (nx as int) * (r as int) + k,
            decreases row@.len() - k,
        {
            pixels.push(row[k]);
            k = k + 1;
        }
        r = r + 1;
        proof {
            assert(3 * (nx as int) * ((r - 1) as int + 1) == 3 * (nx as int) * ((r - 1) as int) + 3
                * (nx as int)) by (nonlinear_arith);
        }
    }
    pixels
}

} // verus!
