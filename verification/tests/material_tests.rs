use ray_tracer::color::Color;
use ray_tracer::hittable::HitRecord;
use ray_tracer::material::{
    Dialectric, Lambertian, Material, MaterialEnum, Metal, UniformScatter,
};
use ray_tracer::point3::Point3;
use ray_tracer::ray::Ray;
use ray_tracer::scalar::Scalar;
use ray_tracer::texture::{CheckerBoard, TextureEnum};
use ray_tracer::vec3::Vec3;
use std::sync::Arc;

fn number(x: f64) -> Scalar {
    Scalar::from_bits(x.to_bits())
}

fn float(s: Scalar) -> f64 {
    f64::from_bits(s.bits())
}

fn point(x: f64, y: f64, z: f64) -> Point3 {
    Point3::new(number(x), number(y), number(z))
}

fn vector(x: f64, y: f64, z: f64) -> Vec3 {
    Vec3::new(number(x), number(y), number(z))
}

fn color(r: f64, g: f64, b: f64) -> Color {
    Color::new(number(r), number(g), number(b))
}

fn close(a: f64, b: f64, tolerance: f64) -> bool {
    (a - b).abs() <= tolerance
}

fn close_vector(v: Vec3, x: f64, y: f64, z: f64, tolerance: f64) -> bool {
    close(float(v.x()), x, tolerance)
        && close(float(v.y()), y, tolerance)
        && close(float(v.z()), z, tolerance)
}

fn hit_on_floor<'a>(material: &'a MaterialEnum, on_front_face: bool) -> HitRecord<'a> {
    HitRecord {
        point: point(1.0, 0.0, -2.0),
        normal: vector(0.0, 1.0, 0.0),
        t: number(3.0),
        u: number(0.25),
        v: number(0.75),
        on_front_face,
        material,
    }
}

fn placeholder() -> MaterialEnum {
    MaterialEnum::from(UniformScatter::new(Color::black()))
}

fn falling_ray() -> Ray {
    Ray::new(point(0.0, 1.0, -2.0), vector(1.0, -1.0, 0.0), Some(number(0.5)))
}

#[test]
fn lambertian_scatters_along_normal_plus_sample() {
    let albedo = color(0.8, 0.3, 0.1);
    let material = Lambertian::new(albedo);
    let holder = placeholder();
    let hit = hit_on_floor(&holder, true);
    let s = material.scatter_with(&falling_ray(), &hit, vector(0.0, 0.0, 1.0));
    assert_eq!(s.ray.direction(), vector(0.0, 1.0, 1.0));
    assert_eq!(s.ray.origin(), hit.point);
    assert_eq!(s.ray.time().bits(), number(0.5).bits());
    assert_eq!(s.attenuation, albedo);
}

#[test]
fn lambertian_falls_back_to_the_normal() {
    let material = Lambertian::new(color(0.8, 0.3, 0.1));
    let holder = placeholder();
    let hit = hit_on_floor(&holder, true);
    let s = material.scatter_with(&falling_ray(), &hit, vector(0.0, -1.0, 0.0));
    assert_eq!(s.ray.direction(), vector(0.0, 1.0, 0.0));
    let nearly = Vec3::new(number(9e-9), number(-1.0), number(-9e-9));
    let s = material.scatter_with(&falling_ray(), &hit, nearly);
    assert_eq!(s.ray.direction(), vector(0.0, 1.0, 0.0));
    let barely = Vec3::new(number(1e-8), number(-1.0), number(0.0));
    let s = material.scatter_with(&falling_ray(), &hit, barely);
    assert_eq!(s.ray.direction(), Vec3::new(number(1e-8), number(0.0), number(0.0)));
}

#[test]
fn lambertian_attenuates_by_its_texture() {
    let (even, odd) = (color(1.0, 1.0, 1.0), color(0.1, 0.2, 0.3));
    let board = Arc::new(TextureEnum::from(CheckerBoard::from_colors(even, odd)));
    let material = Lambertian::from_texture(board);
    let holder = placeholder();
    let mut hit = hit_on_floor(&holder, true);
    hit.point = point(0.1, 0.1, 0.1);
    let s = material.scatter_with(&falling_ray(), &hit, vector(0.0, 0.0, 1.0));
    assert_eq!(s.attenuation, even);
    hit.point = point(-0.1, 0.1, 0.1);
    let s = material.scatter_with(&falling_ray(), &hit, vector(0.0, 0.0, 1.0));
    assert_eq!(s.attenuation, odd);
}

#[test]
fn lambertian_always_scatters() {
    let albedo = color(0.8, 0.3, 0.1);
    let material = MaterialEnum::from(Lambertian::new(albedo));
    let hit = hit_on_floor(&material, true);
    for _ in 0..100 {
        let s = material.scatter(&falling_ray(), &hit).unwrap();
        assert_eq!(s.attenuation, albedo);
        assert_eq!(s.ray.origin(), hit.point);
        assert_eq!(s.ray.time().bits(), number(0.5).bits());
        assert!(!s.ray.direction().is_near_zero());
        assert!(Vec3::dot(s.ray.direction(), hit.normal).ge(number(-1e-9)));
    }
}

#[test]
fn uniform_scatter_follows_the_sample() {
    let albedo = color(0.2, 0.4, 0.6);
    let material = UniformScatter::new(albedo);
    let holder = placeholder();
    let hit = hit_on_floor(&holder, true);
    let s = material.scatter_with(&falling_ray(), &hit, vector(0.3, 0.4, -0.5));
    assert_eq!(s.ray.direction(), vector(0.3, 0.4, -0.5));
    assert_eq!(s.ray.origin(), hit.point);
    assert_eq!(s.ray.time().bits(), number(0.5).bits());
    assert_eq!(s.attenuation, albedo);
    let s = material.scatter_with(&falling_ray(), &hit, vector(0.0, 0.0, 0.0));
    assert_eq!(s.ray.direction(), vector(0.0, 1.0, 0.0));
}

#[test]
fn uniform_scatter_always_scatters_into_the_hemisphere() {
    let albedo = color(0.2, 0.4, 0.6);
    let material = UniformScatter::new(albedo);
    let holder = placeholder();
    let hit = hit_on_floor(&holder, true);
    for _ in 0..100 {
        let s = material.scatter(&falling_ray(), &hit).unwrap();
        assert_eq!(s.attenuation, albedo);
        assert!(Vec3::dot(s.ray.direction(), hit.normal).ge(Scalar::zero()));
        assert!(s.attenuation.red().le(Scalar::one()));
        assert!(s.attenuation.green().le(Scalar::one()));
        assert!(s.attenuation.blue().le(Scalar::one()));
    }
}

#[test]
fn metal_reflects_and_blurs() {
    let albedo = color(0.9, 0.9, 0.7);
    let material = Metal::new(albedo, number(0.5));
    let holder = placeholder();
    let hit = hit_on_floor(&holder, true);
    let s = material.scatter_with(&falling_ray(), &hit, vector(0.25, -0.5, 0.5)).unwrap();
    assert_eq!(s.ray.direction(), vector(1.125, 0.75, 0.25));
    assert_eq!(s.ray.origin(), hit.point);
    assert_eq!(s.attenuation, albedo);
}

#[test]
fn metal_casts_its_ray_at_time_zero() {
    let material = Metal::new(color(0.9, 0.9, 0.7), number(0.0));
    let holder = placeholder();
    let hit = hit_on_floor(&holder, true);
    let incoming = falling_ray();
    assert_eq!(incoming.time().bits(), number(0.5).bits());
    let s = material.scatter_with(&incoming, &hit, vector(0.0, 0.0, 0.0)).unwrap();
    assert_eq!(s.ray.time().bits(), 0);
    assert_eq!(s.ray.direction(), vector(1.0, 1.0, 0.0));
}

#[test]
fn metal_absorbs_what_would_enter_the_surface() {
    let material = Metal::new(color(0.9, 0.9, 0.7), number(1.0));
    let holder = placeholder();
    let hit = hit_on_floor(&holder, true);
    let shallow = Ray::new(point(0.0, 1.0, -2.0), vector(1.0, -0.5, 0.0), None);
    assert!(material.scatter_with(&shallow, &hit, vector(0.0, -0.9, 0.0)).is_none());
    assert!(material.scatter_with(&shallow, &hit, vector(0.0, -0.5, 0.0)).is_none());
    assert!(material.scatter_with(&shallow, &hit, vector(0.0, -0.4, 0.0)).is_some());
}

#[test]
fn metal_limits_its_fuzziness_to_one() {
    let material = Metal::new(color(0.9, 0.9, 0.7), number(5.0));
    let holder = placeholder();
    let hit = hit_on_floor(&holder, true);
    let s = material.scatter_with(&falling_ray(), &hit, vector(0.2, -0.4, 0.6)).unwrap();
    assert_eq!(s.ray.direction(), vector(1.2, 0.6, 0.6));
    let sharp = Metal::new(color(0.9, 0.9, 0.7), number(-1.0));
    let s = sharp.scatter_with(&falling_ray(), &hit, vector(0.2, -0.4, 0.6)).unwrap();
    assert_eq!(s.ray.direction(), vector(1.0, 1.0, 0.0));
}

#[test]
fn metal_never_amplifies() {
    let albedo = color(1.0, 0.5, 0.0);
    let material = MaterialEnum::from(Metal::new(albedo, number(0.8)));
    let hit = hit_on_floor(&material, true);
    let mut scattered = 0;
    for _ in 0..200 {
        if let Some(s) = material.scatter(&falling_ray(), &hit) {
            scattered += 1;
            assert_eq!(s.attenuation, albedo);
            assert!(s.attenuation.red().le(Scalar::one()));
            assert!(s.attenuation.green().le(Scalar::one()));
            assert!(s.attenuation.blue().le(Scalar::one()));
            assert!(Vec3::dot(s.ray.direction(), hit.normal).gt(Scalar::zero()));
        }
    }
    assert!(scattered > 0);
}

#[test]
fn reflectance_follows_schlick() {
    assert!(close(float(Dialectric::reflectance(number(1.0), number(1.5))), 0.04, 1e-8));
    assert!(close(float(Dialectric::reflectance(number(0.0), number(1.5))), 1.0, 1e-8));
    let expected = 0.04 + 0.96 * 0.5_f64.powi(5);
    assert!(close(float(Dialectric::reflectance(number(0.5), number(1.5))), expected, 1e-8));
    assert!(close(float(Dialectric::reflectance(number(0.3), number(1.0))), 0.7_f64.powi(5), 1e-8));
    assert_eq!(Dialectric::reflectance(number(1.0), number(1.0)).bits(), 0);
}

#[test]
fn dielectric_refracts_or_reflects_by_the_draw() {
    let material = Dialectric::new(number(1.5));
    let holder = placeholder();
    let hit = hit_on_floor(&holder, true);
    let down = Ray::new(point(1.0, 1.0, -2.0), vector(0.0, -2.0, 0.0), Some(number(0.25)));
    let refracted = material.scatter_with(&down, &hit, number(0.5));
    assert!(close_vector(refracted.ray.direction(), 0.0, -1.0, 0.0, 1e-8));
    assert_eq!(refracted.attenuation, Color::white());
    assert_eq!(refracted.ray.time().bits(), number(0.25).bits());
    assert_eq!(refracted.ray.origin(), hit.point);
    let reflected = material.scatter_with(&down, &hit, number(0.01));
    assert!(close_vector(reflected.ray.direction(), 0.0, 1.0, 0.0, 1e-8));
    assert_eq!(reflected.attenuation, Color::white());
    let at_the_edge = material.scatter_with(&down, &hit, number(0.04001));
    assert!(close_vector(at_the_edge.ray.direction(), 0.0, -1.0, 0.0, 1e-8));
}

#[test]
fn dielectric_bends_toward_the_normal_on_entry() {
    let material = Dialectric::new(number(1.5));
    let holder = placeholder();
    let hit = hit_on_floor(&holder, true);
    let s = material.scatter_with(&falling_ray(), &hit, number(0.99));
    let sine = f64::sqrt(0.5) / 1.5;
    let cosine = f64::sqrt(1.0 - sine * sine);
    assert!(close_vector(s.ray.direction(), sine, -cosine, 0.0, 1e-7));
}

#[test]
fn dielectric_reflects_totally_from_inside() {
    let material = Dialectric::new(number(1.5));
    let holder = placeholder();
    let hit = hit_on_floor(&holder, false);
    let grazing = Ray::new(point(0.0, 1.0, -2.0), vector(1.0, -0.1, 0.0), None);
    let s = material.scatter_with(&grazing, &hit, number(0.9999999999999999));
    let length = f64::sqrt(1.01);
    assert!(close_vector(s.ray.direction(), 1.0 / length, 0.1 / length, 0.0, 1e-7));
    assert_eq!(s.attenuation, Color::white());
}

#[test]
fn dielectric_always_scatters_white() {
    let material = MaterialEnum::from(Dialectric::new(number(1.5)));
    let hit = hit_on_floor(&material, true);
    for _ in 0..100 {
        let s = material.scatter(&falling_ray(), &hit).unwrap();
        assert_eq!(s.attenuation, Color::white());
        assert_eq!(s.ray.time().bits(), number(0.5).bits());
        assert!(close(float(s.ray.direction().length()), 1.0, 1e-6));
    }
}

#[test]
fn materials_dispatch_by_variant() {
    let holder = placeholder();
    let hit = hit_on_floor(&holder, true);
    let uniform = MaterialEnum::from(UniformScatter::new(color(0.1, 0.2, 0.3)));
    assert!(matches!(uniform, MaterialEnum::UniformScatter(_)));
    assert_eq!(uniform.scatter(&falling_ray(), &hit).unwrap().attenuation, color(0.1, 0.2, 0.3));
    let metal = MaterialEnum::from(Metal::new(color(0.3, 0.2, 0.1), number(0.0)));
    assert!(matches!(metal, MaterialEnum::Metal(_)));
    let s = metal.scatter(&falling_ray(), &hit).unwrap();
    assert_eq!(s.attenuation, color(0.3, 0.2, 0.1));
    assert_eq!(s.ray.direction(), vector(1.0, 1.0, 0.0));
    let glass = MaterialEnum::from(Dialectric::new(number(1.5)));
    assert!(matches!(glass, MaterialEnum::Dialectric(_)));
    let matte = MaterialEnum::from(Lambertian::new(color(0.5, 0.5, 0.5)));
    assert!(matches!(matte, MaterialEnum::Lambertian(_)));
}

#[test]
fn metal_keeps_its_fuzziness_between_zero_and_one() {
    let holder = placeholder();
    let hit = hit_on_floor(&holder, true);
    let sample = vector(0.25, 0.5, -0.5);
    for (given, kept) in [(-3.0, 0.0), (-0.0, 0.0), (0.0, 0.0), (0.25, 0.25), (1.0, 1.0), (7.5, 1.0), (f64::INFINITY, 1.0), (f64::NAN, 0.0)] {
        let material = Metal::new(color(0.9, 0.9, 0.7), number(given));
        let s = material.scatter_with(&falling_ray(), &hit, sample).unwrap();
        assert_eq!(s.ray.direction(), vector(1.0 + 0.25 * kept, 1.0 + 0.5 * kept, -0.5 * kept));
    }
}

#[test]
fn dielectric_reflects_totally_at_a_shallow_angle() {
    let material = Dialectric::new(number(1.5));
    let holder = placeholder();
    let hit = HitRecord {
        point: point(0.0, 0.0, 0.0),
        normal: vector(0.0, 1.0, 0.0),
        t: number(1.0),
        u: number(0.0),
        v: number(0.0),
        on_front_face: false,
        material: &holder,
    };
    let ray = Ray::new(point(-0.8, 0.6, 0.0), vector(0.8, -0.6, 0.0), Some(number(0.25)));
    for draw in [0.0, 0.3, 0.9999999] {
        let s = material.scatter_with(&ray, &hit, number(draw));
        assert!(close_vector(s.ray.direction(), 0.8, 0.6, 0.0, 1e-12));
        assert_eq!(s.ray.origin(), point(0.0, 0.0, 0.0));
        assert_eq!(s.ray.time(), number(0.25));
        assert_eq!(s.attenuation, Color::white());
    }
}

#[test]
fn dielectric_directions_have_unit_length_at_every_scale() {
    let material = Dialectric::new(number(1.5));
    let holder = placeholder();
    for front in [true, false] {
        let hit = hit_on_floor(&holder, front);
        for scale in [1e-150, 1e-9, 1.0, 1e9, 1e150] {
            let ray = Ray::new(point(0.0, 1.0, -2.0), vector(scale, -scale, 0.0), None);
            for draw in [0.0, 0.5, 0.9999] {
                let s = material.scatter_with(&ray, &hit, number(draw));
                assert!(close(float(s.ray.direction().length()), 1.0, 1e-9));
            }
        }
    }
}

#[test]
fn reflectance_at_normal_incidence_is_exact_to_rounding() {
    assert!(close(float(Dialectric::reflectance(number(1.0), number(1.5))), 0.04, 1e-12));
    let (cosine, ratio) = (0.37_f64, 1.5_f64);
    let r0 = ((1.0 - ratio) / (1.0 + ratio)) * ((1.0 - ratio) / (1.0 + ratio));
    let expected = r0 + (1.0 - r0) * (1.0 - cosine).powi(5);
    assert!(close(float(Dialectric::reflectance(number(cosine), number(ratio))), expected, 1e-15));
}

#[test]
fn two_scatters_compose_their_attenuations() {
    let first = MaterialEnum::from(Metal::new(color(0.8, 0.6, 0.2), number(0.0)));
    let second = MaterialEnum::from(Metal::new(color(0.5, 0.5, 0.5), number(0.0)));
    let hit_a = HitRecord {
        point: point(0.0, 0.0, 0.0),
        normal: vector(0.0, 1.0, 0.0),
        t: number(1.0),
        u: number(0.0),
        v: number(0.0),
        on_front_face: true,
        material: &first,
    };
    let hit_b = HitRecord {
        point: point(1.0, 1.0, 0.0),
        normal: vector(0.0, -1.0, 0.0),
        t: number(1.0),
        u: number(0.0),
        v: number(0.0),
        on_front_face: true,
        material: &second,
    };
    let ray = Ray::new(point(-1.0, 1.0, 0.0), vector(1.0, -1.0, 0.0), None);
    let a = first.scatter(&ray, &hit_a).unwrap();
    let b = second.scatter(&a.ray, &hit_b).unwrap();
    assert_eq!(b.attenuation, color(0.5, 0.5, 0.5));
    assert_eq!(b.ray.direction(), vector(1.0, -1.0, 0.0));
    let total = a.attenuation.attenuate(b.attenuation.attenuate(Color::white()));
    assert!(close(float(total.red()), 0.4, 1e-12));
    assert!(close(float(total.green()), 0.3, 1e-12));
    assert!(close(float(total.blue()), 0.1, 1e-12));
}
