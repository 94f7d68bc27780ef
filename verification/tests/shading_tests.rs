use ray_tracer::color::Color;
use ray_tracer::hittable_list::HittableList;
use ray_tracer::material::{Dialectric, Lambertian, MaterialEnum, Metal, Scatter, UniformScatter};
use ray_tracer::point3::Point3;
use ray_tracer::ray::Ray;
use ray_tracer::scalar::Scalar;
use ray_tracer::shading::{average, ray_color, shaded};
use ray_tracer::sphere::Sphere;
use ray_tracer::texture::{CheckerBoard, Marble, TextureEnum};
use ray_tracer::vec3::Vec3;
use std::sync::Arc;

fn number(x: f64) -> Scalar {
    Scalar::from_bits(x.to_bits())
}

fn float(s: Scalar) -> f64 {
    f64::from_bits(s.bits())
}

fn point(x: f64, y: f64, z: f64) -> Point3 {
    Point3::new(number(x), number(y), number(z))
}

fn vector(x: f64, y: f64, z: f64) -> Vec3 {
    Vec3::new(number(x), number(y), number(z))
}

fn color(r: f64, g: f64, b: f64) -> Color {
    Color::new(number(r), number(g), number(b))
}

fn close(a: f64, b: f64, tolerance: f64) -> bool {
    (a - b).abs() <= tolerance
}

fn close_color(c: Color, r: f64, g: f64, b: f64, tolerance: f64) -> bool {
    close(float(c.red()), r, tolerance)
        && close(float(c.green()), g, tolerance)
        && close(float(c.blue()), b, tolerance)
}

/// White at the horizon below, blue above, by the height of the direction.
fn sky(ray: &Ray) -> Color {
    let unit = ray.direction().normalized();
    let a = number(0.5).times(unit.y().plus(Scalar::one()));
    Color::white().times(Scalar::one().minus(a)).plus(color(0.5, 0.7, 1.0).times(a))
}

fn brightness(c: Color) -> f64 {
    float(c.red()) + float(c.green()) + float(c.blue())
}

fn single_sphere() -> HittableList {
    let gray = Arc::new(MaterialEnum::from(Lambertian::new(color(0.5, 0.5, 0.5))));
    let mut world = HittableList::new();
    world.add(Sphere::new(point(0.0, 0.0, -3.0), number(1.0), gray));
    world
}

/// Two mirrors: a ray along -z from the origin is turned upward by the
/// first and toward +z by the second.
fn two_mirrors(first: Color, second: Color) -> HittableList {
    let h = f64::sqrt(0.5);
    let mut world = HittableList::new();
    world.add(Sphere::new(
        point(0.0, -h, -5.0 - h),
        number(1.0),
        Arc::new(MaterialEnum::from(Metal::new(first, number(0.0)))),
    ));
    world.add(Sphere::new(
        point(0.0, 5.0 + h, -5.0 - h),
        number(1.0),
        Arc::new(MaterialEnum::from(Metal::new(second, number(0.0)))),
    ));
    world
}

#[test]
fn exhausted_depth_is_black() {
    let forward = Ray::new(point(0.0, 0.0, 0.0), vector(0.0, 0.0, -1.0), None);
    let aside = Ray::new(point(0.0, 0.0, 0.0), vector(0.0, 1.0, 0.0), None);
    for world in [HittableList::new(), single_sphere(), two_mirrors(Color::white(), Color::white())] {
        assert_eq!(ray_color(&forward, &world, &sky, 0), Color::black());
        assert_eq!(ray_color(&aside, &world, &sky, 0), Color::black());
    }
}

#[test]
fn ray_that_hits_nothing_takes_the_background() {
    let world = single_sphere();
    let up = Ray::new(point(0.0, 0.0, 0.0), vector(0.0, 1.0, 0.0), None);
    assert_eq!(ray_color(&up, &world, &sky, 5), sky(&up));
    assert_eq!(ray_color(&up, &world, &sky, 5), color(0.5, 0.7, 1.0));
    let pink = |_: &Ray| Color::new(number(1.0), number(0.5), number(0.5));
    assert_eq!(ray_color(&up, &HittableList::new(), &pink, 1), color(1.0, 0.5, 0.5));
}

#[test]
fn absorbed_light_is_black() {
    assert_eq!(shaded(&None, color(1.0, 1.0, 1.0)), Color::black());
    let s = Scatter {
        ray: Ray::new(point(0.0, 0.0, 0.0), vector(0.0, 1.0, 0.0), None),
        attenuation: color(0.5, 0.25, 1.0),
    };
    assert_eq!(shaded(&Some(s), color(0.5, 0.5, 0.5)), color(0.25, 0.125, 0.5));
}

#[test]
fn two_bounces_multiply_both_attenuations() {
    let (a, b, back) = ((0.9, 0.6, 0.3), (0.5, 0.8, 0.25), (0.4, 1.0, 0.7));
    let world = two_mirrors(color(a.0, a.1, a.2), color(b.0, b.1, b.2));
    let flat = |_: &Ray| Color::new(number(0.4), number(1.0), number(0.7));
    let ray = Ray::new(point(0.0, 0.0, 0.0), vector(0.0, 0.0, -1.0), None);
    let c = ray_color(&ray, &world, &flat, 10);
    assert!(close_color(c, a.0 * b.0 * back.0, a.1 * b.1 * back.1, a.2 * b.2 * back.2, 1e-8));
    let exact = color(a.0, a.1, a.2).attenuate(color(b.0, b.1, b.2).attenuate(flat(&ray)));
    assert_eq!(c, exact);
    assert_eq!(ray_color(&ray, &world, &flat, 3), exact);
}

#[test]
fn bounces_beyond_the_depth_are_black() {
    let world = two_mirrors(color(0.9, 0.6, 0.3), color(0.5, 0.8, 0.25));
    let flat = |_: &Ray| Color::new(number(0.4), number(1.0), number(0.7));
    let ray = Ray::new(point(0.0, 0.0, 0.0), vector(0.0, 0.0, -1.0), None);
    assert_eq!(ray_color(&ray, &world, &flat, 2), Color::black());
    assert_eq!(ray_color(&ray, &world, &flat, 1), Color::black());
}

#[test]
fn one_bounce_attenuates_the_background_once() {
    let mut world = HittableList::new();
    let h = f64::sqrt(0.5);
    world.add(Sphere::new(
        point(0.0, -h, -5.0 - h),
        number(1.0),
        Arc::new(MaterialEnum::from(Metal::new(color(0.9, 0.6, 0.3), number(0.0)))),
    ));
    let ray = Ray::new(point(0.0, 0.0, 0.0), vector(0.0, 0.0, -1.0), None);
    let c = ray_color(&ray, &world, &sky, 4);
    assert!(close_color(c, 0.9 * 0.5, 0.6 * 0.7, 0.3 * 1.0, 1e-6));
}

#[test]
fn sphere_is_darker_than_the_sky_around_it() {
    let world = single_sphere();
    let samples = 16;
    let mut center = Vec::new();
    for _ in 0..samples {
        let ray = Ray::new(point(0.0, 0.0, 0.0), vector(0.0, 0.0, -1.0), None);
        center.push(ray_color(&ray, &world, &sky, 10));
    }
    let center = average(&center);
    for (x, y) in [(-1.5, 1.0), (1.5, 1.0), (-1.5, -1.0), (1.5, -1.0)] {
        let ray = Ray::new(point(0.0, 0.0, 0.0), vector(x, y, -1.0), None);
        let corner = ray_color(&ray, &world, &sky, 10);
        assert_eq!(corner, sky(&ray));
        assert!(brightness(center) < brightness(corner));
        assert!(center.red().lt(corner.red()));
        assert!(center.green().lt(corner.green()));
        assert!(center.blue().lt(corner.blue()));
    }
}

#[test]
fn average_is_the_mean_of_the_samples() {
    let samples = vec![color(1.0, 0.0, 0.5), color(0.0, 0.5, 0.5), color(0.5, 1.0, 0.5), color(0.5, 0.5, 0.5)];
    assert_eq!(average(&samples), color(0.5, 0.5, 0.5));
    assert_eq!(average(&vec![color(0.25, 0.5, 0.75)]), color(0.25, 0.5, 0.75));
    let none = average(&Vec::new());
    assert!(none.red().is_nan() && none.green().is_nan() && none.blue().is_nan());
}

#[test]
fn light_is_never_amplified() {
    let board = Arc::new(TextureEnum::from(CheckerBoard::new(
        Arc::new(TextureEnum::from(Marble::new(number(4.0)))),
        Arc::new(TextureEnum::from(CheckerBoard::from_colors(
            color(1.0, 1.0, 1.0),
            color(0.2, 0.3, 0.1),
        ))),
    )));
    let mut world = HittableList::new();
    world.add(Sphere::new(
        point(0.0, -100.5, -1.0),
        number(100.0),
        Arc::new(MaterialEnum::from(Lambertian::from_texture(board))),
    ));
    world.add(Sphere::new(
        point(0.0, 0.0, -1.2),
        number(0.5),
        Arc::new(MaterialEnum::from(UniformScatter::new(color(1.0, 0.2, 0.5)))),
    ));
    world.add(Sphere::new(
        point(-1.0, 0.0, -1.0),
        number(0.5),
        Arc::new(MaterialEnum::from(Dialectric::new(number(1.5)))),
    ));
    world.add(Sphere::new(
        point(1.0, 0.0, -1.0),
        number(0.5),
        Arc::new(MaterialEnum::from(Metal::new(color(1.0, 1.0, 1.0), number(0.3)))),
    ));
    let one = Scalar::one();
    let zero = Scalar::zero();
    for i in 0..12 {
        for j in 0..8 {
            let x = -2.0 + 4.0 * (i as f64) / 11.0;
            let y = -1.0 + 2.0 * (j as f64) / 7.0;
            let ray = Ray::new(point(0.0, 0.0, 0.0), vector(x, y, -1.0), None);
            let c = ray_color(&ray, &world, &sky, 8);
            for channel in [c.red(), c.green(), c.blue()] {
                assert!(channel.ge(zero) && channel.le(one));
            }
        }
    }
}
