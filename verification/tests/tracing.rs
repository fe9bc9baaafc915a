//! Intersection, scattering and the radiance estimator.

use raytrace::hitable::{HitableList, HitRecord};
use raytrace::material::{reflect, refract, schlick, Material};
use raytrace::ray::Ray;
use raytrace::render::{color, sky, T_EPS};
use raytrace::sampler::Sampler;
use raytrace::sphere::{Sphere, T_FAR};
use raytrace::vector3d::Vector3D;

const S: i64 = 65536;

fn gray() -> Material {
    Material::Lambertian { albedo: Vector3D::new(S / 2, S / 2, S / 2) }
}

#[test]
fn sphere_hit_head_on_at_distance_minus_radius() {
    // A ray aimed at the center from distance 4 hits a unit sphere at t = 3.
    let sphere = Sphere::new(Vector3D::new(0, 0, -4 * S), S, gray());
    let ray = Ray::new(Vector3D::new(0, 0, 0), Vector3D::new(0, 0, -S));
    let hit = sphere.hit(&ray, T_EPS, T_FAR).expect("head-on ray must hit");
    assert_eq!(hit.t, 3 * S);
    assert_eq!(hit.normal, Vector3D::new(0, 0, S));
}

#[test]
fn sphere_miss_reports_none() {
    let sphere = Sphere::new(Vector3D::new(0, 10 * S, 0), S, gray());
    let ray = Ray::new(Vector3D::new(0, 0, 0), Vector3D::new(0, 0, -S));
    assert!(sphere.hit(&ray, T_EPS, T_FAR).is_none());
}

#[test]
fn sphere_origin_inside_reports_far_root() {
    // From the center both roots are -1 and +1; t_min excludes the near one.
    let sphere = Sphere::new(Vector3D::new(0, 0, -4 * S), S, gray());
    let ray = Ray::new(Vector3D::new(0, 0, -4 * S), Vector3D::new(0, 0, -S));
    let hit = sphere.hit(&ray, T_EPS, T_FAR).expect("ray from inside must hit");
    assert_eq!(hit.t, S);
}

#[test]
fn nonpositive_radius_never_hits() {
    let sphere = Sphere::new(Vector3D::new(0, 0, -4 * S), 0, gray());
    let ray = Ray::new(Vector3D::new(0, 0, 0), Vector3D::new(0, 0, -S));
    assert!(sphere.hit(&ray, T_EPS, T_FAR).is_none());
}

#[test]
fn list_hit_keeps_nearest_in_either_order() {
    let near = Sphere::new(Vector3D::new(0, 0, -2 * S), S, gray());
    let far = Sphere::new(Vector3D::new(0, 0, -6 * S), S, gray());
    let ray = Ray::new(Vector3D::new(0, 0, 0), Vector3D::new(0, 0, -S));
    let w1 = HitableList::new(vec![
        Sphere::new(near.center, near.radius, near.material),
        Sphere::new(far.center, far.radius, far.material),
    ]);
    let w2 = HitableList::new(vec![far, near]);
    let t1 = w1.hit(&ray, T_EPS, T_FAR).expect("must hit").t;
    let t2 = w2.hit(&ray, T_EPS, T_FAR).expect("must hit").t;
    assert_eq!(t1, S);
    assert_eq!(t2, S);
}

#[test]
fn reflect_axis_normal_flips_one_component() {
    let v = Vector3D::new(S, -S, 0);
    let n = Vector3D::new(0, S, 0);
    assert_eq!(reflect(&v, n), Vector3D::new(S, S, 0));
}

#[test]
fn reflect_twice_with_negated_normal_returns_input() {
    let v = Vector3D::new(3 * S, -5 * S, 2 * S);
    let n = Vector3D::new(0, S, 0);
    let once = reflect(&v, n);
    assert_eq!(once, Vector3D::new(3 * S, 5 * S, 2 * S));
    let again = reflect(&once, n.neg());
    assert_eq!(again, v);
}

#[test]
fn schlick_at_head_on_equals_base_reflectance() {
    // r0 = ((1 - 1.5)/(1 + 1.5))^2 = 0.04, truncated in fixed point.
    let ref_idx: i64 = 98304;
    assert_eq!(schlick(S, &ref_idx), 2621);
}

#[test]
fn refract_reports_total_internal_reflection() {
    // 45 degrees incidence with ratio 1.5: the discriminant is negative.
    let before = Vector3D::new(7, 7, 7);
    let mut refracted = before;
    let ok = refract(Vector3D::new(S, -S, 0), Vector3D::new(0, S, 0), 98304, &mut refracted);
    assert!(!ok);
    assert_eq!(refracted, before);
}

#[test]
fn refract_bends_when_discriminant_positive() {
    let mut refracted = Vector3D::new(0, 0, 0);
    let ok = refract(Vector3D::new(S, -S, 0), Vector3D::new(0, S, 0), 43690, &mut refracted);
    assert!(ok);
    assert_eq!(refracted, Vector3D::new(30893, -57797, 0));
}

#[test]
fn lambertian_scatters_with_albedo_attenuation() {
    let albedo = Vector3D::new(S / 2, 3 * S / 10, 3 * S / 10);
    let m = Material::Lambertian { albedo };
    let rec = HitRecord {
        t: S / 2,
        p: Vector3D::new(0, 0, -S / 2),
        normal: Vector3D::new(0, 0, S),
        material: m,
    };
    let r_in = Ray::new(Vector3D::new(0, 0, 0), Vector3D::new(0, 0, -S));
    let mut attenuation = Vector3D::new(0, 0, 0);
    let mut scattered = Ray::new(Vector3D::new(0, 0, 0), Vector3D::new(0, 0, 0));
    let mut s = Sampler::from_seed(11);
    let ok = m.scatter(&r_in, &rec, &mut attenuation, &mut scattered, &mut s);
    assert!(ok);
    assert_eq!(attenuation, albedo);
    assert_eq!(scattered.origin(), rec.p);
}

#[test]
fn metal_with_zero_fuzz_reflects_exactly() {
    let albedo = Vector3D::new(4 * S / 5, 3 * S / 5, S / 5);
    let m = Material::Metal { albedo, fuzziness: 0 };
    let rec = HitRecord {
        t: S,
        p: Vector3D::new(S, 0, 0),
        normal: Vector3D::new(0, S, 0),
        material: m,
    };
    let r_in = Ray::new(Vector3D::new(0, S, 0), Vector3D::new(S, -S, 0));
    let mut attenuation = Vector3D::new(0, 0, 0);
    let mut scattered = Ray::new(Vector3D::new(0, 0, 0), Vector3D::new(0, 0, 0));
    let mut s = Sampler::from_seed(5);
    let ok = m.scatter(&r_in, &rec, &mut attenuation, &mut scattered, &mut s);
    assert!(ok);
    assert_eq!(attenuation, albedo);
    assert_eq!(scattered.origin(), rec.p);
    // unit incident is (0.7071.., -0.7071.., 0); its reflection flips y.
    assert_eq!(scattered.direction(), Vector3D::new(46341, 46341, 0));
}

#[test]
fn dielectric_scatters_white_reflect_or_refract() {
    let m = Material::Dialectric { ref_ind: 98304 };
    let rec = HitRecord {
        t: S / 2,
        p: Vector3D::new(0, 0, -S / 2),
        normal: Vector3D::new(0, 0, S),
        material: m,
    };
    let r_in = Ray::new(Vector3D::new(0, 0, 0), Vector3D::new(0, 0, -S));
    for seed in 0..8u64 {
        let mut attenuation = Vector3D::new(0, 0, 0);
        let mut scattered = Ray::new(Vector3D::new(0, 0, 0), Vector3D::new(0, 0, 0));
        let mut s = Sampler::from_seed(seed);
        let ok = m.scatter(&r_in, &rec, &mut attenuation, &mut scattered, &mut s);
        assert!(ok);
        assert_eq!(attenuation, Vector3D::new(S, S, S));
        assert_eq!(scattered.origin(), rec.p);
        // Head-on: either the reflection (straight back) or the straight
        // refraction, depending on the drawn reflectance sample.
        let d = scattered.direction();
        assert!(d == Vector3D::new(0, 0, S) || d == Vector3D::new(0, 0, -S));
    }
}

#[test]
fn color_at_depth_bound_is_black_on_hit() {
    let world = HitableList::new(vec![Sphere::new(Vector3D::new(0, 0, -4 * S), S, gray())]);
    let ray = Ray::new(Vector3D::new(0, 0, 0), Vector3D::new(0, 0, -S));
    let mut s = Sampler::from_seed(3);
    let c = color(&ray, &world, 50, &mut s);
    assert_eq!(c, Vector3D::new(0, 0, 0));
}

#[test]
fn color_at_depth_bound_is_sky_on_miss() {
    let world = HitableList::new(vec![Sphere::new(Vector3D::new(0, 10 * S, 0), S, gray())]);
    let ray = Ray::new(Vector3D::new(0, 0, 0), Vector3D::new(0, 0, -S));
    let mut s = Sampler::from_seed(3);
    let c = color(&ray, &world, 50, &mut s);
    assert_eq!(c, Vector3D::new(49152, 55705, 65536));
    assert_eq!(c, sky(&Vector3D::new(0, 0, -S)));
}

#[test]
fn diffuse_sphere_radiance_stays_bounded() {
    // Bounded energy: every channel of the estimate stays within [0, 1].
    let world = HitableList::new(vec![Sphere::new(Vector3D::new(0, 0, -S), S / 2, gray())]);
    let ray = Ray::new(Vector3D::new(0, 0, 0), Vector3D::new(0, 0, -S));
    let mut sum = Vector3D::new(0, 0, 0);
    let n = 50;
    for seed in 0..n {
        let mut s = Sampler::from_seed(seed);
        let c = color(&ray, &world, 0, &mut s);
        assert!(0 <= c.x && c.x <= S);
        assert!(0 <= c.y && c.y <= S);
        assert!(0 <= c.z && c.z <= S);
        sum = Vector3D::new(sum.x + c.x, sum.y + c.y, sum.z + c.z);
    }
    assert!(sum.x <= n as i64 * S && sum.y <= n as i64 * S && sum.z <= n as i64 * S);
}
