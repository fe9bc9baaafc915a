//! The camera, the sampler, tone mapping and the full render.

use raytrace::camera::Camera;
use raytrace::hitable::HitableList;
use raytrace::material::Material;
use raytrace::ray::Ray;
use raytrace::render::{calculate_pixel, color, quantize_channel, render, sky, T_EPS};
use raytrace::sampler::Sampler;
use raytrace::sphere::{random_in_unit_sphere, Sphere, T_FAR};
use raytrace::vector3d::Vector3D;

const S: i64 = 65536;

fn lambertian(r: i64, g: i64, b: i64) -> Material {
    Material::Lambertian { albedo: Vector3D::new(r, g, b) }
}

/// The two-sphere scene: a ground sphere of radius 100 at (0,-100.5,-1)
/// and a small sphere of radius 0.5 at (0,0,-1), both diffuse.
fn two_sphere_world() -> HitableList {
    HitableList::new(vec![
        Sphere::new(Vector3D::new(0, 0, -S), S / 2, lambertian(4 * S / 5, 3 * S / 10, 3 * S / 10)),
        Sphere::new(
            Vector3D::new(0, -100 * S - S / 2, -S),
            100 * S,
            lambertian(4 * S / 5, 4 * S / 5, 0),
        ),
    ])
}

fn simple_camera() -> Camera {
    Camera::new(
        Vector3D::new(0, 0, 0),
        Vector3D::new(0, 0, -S),
        Vector3D::new(0, S, 0),
        90 * S,
        2 * S,
        0,
        S,
    )
}

#[test]
fn quantize_half_with_gamma_is_181() {
    // sqrt(0.5) * 256 = 181.02, truncated.
    assert_eq!(quantize_channel(S / 2, 256), 181);
}

#[test]
fn quantize_extremes() {
    assert_eq!(quantize_channel(0, 256), 0);
    assert_eq!(quantize_channel(S, 256), 255);
}

#[test]
fn sampler_streams_are_deterministic_per_seed() {
    let mut a = Sampler::from_seed(42);
    let mut b = Sampler::from_seed(42);
    let mut differs_from_other_seed = false;
    let mut c = Sampler::from_seed(43);
    for _ in 0..32 {
        let x = a.next_unit();
        assert_eq!(x, b.next_unit());
        assert!(0 <= x && x < S);
        let y = a.next_symmetric();
        assert_eq!(y, b.next_symmetric());
        assert!(-S <= y && y < S);
        if c.next_unit() != x {
            differs_from_other_seed = true;
        }
        let _ = c.next_symmetric();
    }
    assert!(differs_from_other_seed);
}

#[test]
fn unit_sphere_samples_stay_inside() {
    let mut s = Sampler::from_seed(9);
    for _ in 0..64 {
        let p = random_in_unit_sphere(&mut s);
        assert!(p.dot(&p) < S);
    }
}

#[test]
fn zero_aperture_ray_ignores_lens_sample() {
    let cam = simple_camera();
    let mut s = Sampler::from_seed(1);
    let with_sample = cam.get_ray(S / 2, S / 2, &mut s);
    let exact = cam.get_ray_with_offset(S / 2, S / 2, 0, 0);
    assert_eq!(with_sample, exact);
}

#[test]
fn simple_camera_spans_classic_viewport() {
    // vfov 90, aspect 2, focus 1: the image plane runs from (-2,-1,-1) to
    // (2,1,-1), up to the tangent series' rounding.
    let cam = simple_camera();
    let tol = 64;
    assert!((cam.lower_left_corner.x + 2 * S).abs() <= 2 * tol);
    assert!((cam.lower_left_corner.y + S).abs() <= tol);
    assert!((cam.lower_left_corner.z + S).abs() <= tol);
    assert!((cam.horizontal.x - 4 * S).abs() <= 4 * tol);
    assert!((cam.vertical.y - 2 * S).abs() <= 2 * tol);
    assert_eq!(cam.lens_radius, 0);
}

#[test]
fn center_ray_hits_small_sphere() {
    // The exact head-on query: hit at t = 0.5 with outward normal +z.
    let world = two_sphere_world();
    let ray = Ray::new(Vector3D::new(0, 0, 0), Vector3D::new(0, 0, -S));
    let hit = world.hit(&ray, T_EPS, T_FAR).expect("center ray must hit");
    assert_eq!(hit.t, S / 2);
    assert_eq!(hit.normal, Vector3D::new(0, 0, S));
    assert_eq!(hit.material, lambertian(4 * S / 5, 3 * S / 10, 3 * S / 10));
    // The camera's center ray hits the same sphere.
    let cam = simple_camera();
    let cray = cam.get_ray_with_offset(S / 2, S / 2, 0, 0);
    let chit = world.hit(&cray, T_EPS, T_FAR).expect("camera center ray must hit");
    assert_eq!(chit.material, lambertian(4 * S / 5, 3 * S / 10, 3 * S / 10));
}

#[test]
fn top_row_ray_sees_only_sky() {
    let world = two_sphere_world();
    let cam = simple_camera();
    let ray = cam.get_ray_with_offset(S / 2, S, 0, 0);
    assert!(world.hit(&ray, T_EPS, T_FAR).is_none());
    let mut s = Sampler::from_seed(0);
    let c = color(&ray, &world, 0, &mut s);
    assert_eq!(c, sky(&ray.direction()));
}

#[test]
fn single_pixel_quantizes_an_average() {
    let world = HitableList::new(vec![]);
    let cam = simple_camera();
    let mut s = Sampler::from_seed(2);
    let (r, g, b) = calculate_pixel(1, &cam, &world, 0, 0, 1, 1, &mut s);
    // An empty scene shows the sky gradient, which has a full blue channel.
    assert_eq!(b, 255);
    assert!(r >= 128 && g >= 128);
}

#[test]
fn render_emits_row_major_buffer() {
    let world = two_sphere_world();
    let cam = simple_camera();
    let nx = 4u32;
    let ny = 2u32;
    let pixels = render(cam, world, nx, ny, 1, 7);
    assert_eq!(pixels.len(), (nx * ny * 3) as usize);
}

#[test]
fn render_is_deterministic_for_a_seed() {
    let a = render(simple_camera(), two_sphere_world(), 4, 2, 2, 99);
    let b = render(simple_camera(), two_sphere_world(), 4, 2, 2, 99);
    assert_eq!(a, b);
}
