use ray_tracer::color::Color;
use ray_tracer::hittable::Hittable;
use ray_tracer::hittable_list::HittableList;
use ray_tracer::material::{Lambertian, MaterialEnum, Metal};
use ray_tracer::point3::Point3;
use ray_tracer::ray::Ray;
use ray_tracer::scalar::Scalar;
use ray_tracer::sphere::Sphere;
use ray_tracer::vec3::Vec3;
use std::sync::Arc;

fn number(x: f64) -> Scalar {
    Scalar::from_bits(x.to_bits())
}

fn float(s: Scalar) -> f64 {
    f64::from_bits(s.bits())
}

fn point(x: f64, y: f64, z: f64) -> Point3 {
    Point3::new(number(x), number(y), number(z))
}

fn vector(x: f64, y: f64, z: f64) -> Vec3 {
    Vec3::new(number(x), number(y), number(z))
}

fn close(a: f64, b: f64, tolerance: f64) -> bool {
    (a - b).abs() <= tolerance
}

fn close_point(p: Point3, x: f64, y: f64, z: f64, tolerance: f64) -> bool {
    close(float(p.x()), x, tolerance)
        && close(float(p.y()), y, tolerance)
        && close(float(p.z()), z, tolerance)
}

fn gray() -> Arc<MaterialEnum> {
    Arc::new(MaterialEnum::from(Lambertian::new(Color::new(number(0.5), number(0.5), number(0.5)))))
}

fn far() -> Scalar {
    Scalar::from_bits(f64::INFINITY.to_bits())
}

#[test]
fn ray_through_a_surface_point_hits_it() {
    let sphere = Sphere::new(point(1.0, 2.0, -5.0), number(2.0), gray());
    let target = (1.0 + 2.0 * 0.6, 2.0, -5.0 + 2.0 * 0.8);
    let ray = Ray::new(point(0.0, 0.0, 0.0), vector(target.0, target.1, target.2), None);
    let hit = sphere.intersect(&ray, number(0.001), far()).unwrap();
    assert!(close(float(hit.t), 1.0, 1e-7));
    assert!(close_point(hit.point, target.0, target.1, target.2, 1e-6));
    assert!(close(float(hit.normal.length()), 1.0, 1e-7));
    assert!(close(float(hit.normal.x()), 0.6, 1e-6));
    assert!(close(float(hit.normal.y()), 0.0, 1e-6));
    assert!(close(float(hit.normal.z()), 0.8, 1e-6));
    assert!(hit.on_front_face);
    assert_eq!(hit.point, ray.at(hit.t));
}

#[test]
fn ray_from_outside_strikes_the_front_face() {
    let sphere = Sphere::new(point(0.0, 0.0, -3.0), number(1.0), gray());
    for origin in [(0.0, 0.0, 0.0), (4.0, 1.0, -3.0), (-2.0, -5.0, -10.0)] {
        let direction = vector(0.0 - origin.0, 0.0 - origin.1, -3.0 - origin.2);
        let ray = Ray::new(point(origin.0, origin.1, origin.2), direction, None);
        let hit = sphere.intersect(&ray, number(0.001), far()).unwrap();
        assert!(hit.on_front_face);
        assert!(Vec3::dot(ray.direction(), hit.normal).lt(Scalar::zero()));
        let outward = hit.point.minus(point(0.0, 0.0, -3.0));
        assert!(Vec3::dot(outward, hit.normal).gt(Scalar::zero()));
    }
}

#[test]
fn ray_from_inside_strikes_the_back_face() {
    let sphere = Sphere::new(point(0.0, 0.0, -3.0), number(1.0), gray());
    for direction in [(0.0, 0.0, -1.0), (1.0, 0.5, 0.25), (-0.3, 0.9, 0.1)] {
        let ray = Ray::new(
            point(0.1, -0.2, -3.1),
            vector(direction.0, direction.1, direction.2),
            None,
        );
        let hit = sphere.intersect(&ray, number(0.001), far()).unwrap();
        assert!(!hit.on_front_face);
        assert!(Vec3::dot(ray.direction(), hit.normal).lt(Scalar::zero()));
        let outward = hit.point.minus(point(0.0, 0.0, -3.0));
        assert!(Vec3::dot(outward, hit.normal).lt(Scalar::zero()));
        assert!(close(float(hit.normal.length()), 1.0, 1e-7));
    }
}

#[test]
fn ray_beside_the_sphere_misses() {
    let sphere = Sphere::new(point(0.0, 0.0, -3.0), number(1.0), gray());
    let ray = Ray::new(point(0.0, 0.0, 0.0), vector(0.0, 1.0, -1.0), None);
    assert!(sphere.intersect(&ray, number(0.001), far()).is_none());
    let away = Ray::new(point(0.0, 0.0, 0.0), vector(0.0, 0.0, 1.0), None);
    assert!(sphere.intersect(&away, number(0.001), far()).is_none());
}

#[test]
fn roots_outside_the_interval_are_rejected() {
    let sphere = Sphere::new(point(0.0, 0.0, -3.0), number(1.0), gray());
    let ray = Ray::new(point(0.0, 0.0, 0.0), vector(0.0, 0.0, -1.0), None);
    let near = sphere.intersect(&ray, number(0.001), far()).unwrap();
    assert_eq!(near.t.bits(), number(2.0).bits());
    let inner = sphere.intersect(&ray, number(2.5), far()).unwrap();
    assert_eq!(inner.t.bits(), number(4.0).bits());
    assert!(!inner.on_front_face);
    assert!(sphere.intersect(&ray, number(0.001), number(1.5)).is_none());
    assert!(sphere.intersect(&ray, number(2.5), number(3.5)).is_none());
    assert!(sphere.intersect(&ray, number(4.5), far()).is_none());
    assert!(sphere.intersect(&ray, number(2.0), number(4.0)).is_none());
    assert!(sphere.intersect(&ray, number(0.001), number(2.0)).is_none());
}

#[test]
fn surface_coordinates_follow_the_angles() {
    let sphere = Sphere::new(point(0.0, 0.0, 0.0), number(1.0), gray());
    let cases = [
        ((0.0, 5.0, 0.0), 0.5, 1.0),
        ((5.0, 0.0, 0.0), 0.5, 0.5),
        ((0.0, 0.0, 5.0), 0.25, 0.5),
        ((0.0, 0.0, -5.0), 0.75, 0.5),
        ((0.0, -5.0, 0.0), 0.5, 0.0),
    ];
    for (origin, u, v) in cases {
        let ray = Ray::new(
            point(origin.0, origin.1, origin.2),
            vector(-origin.0, -origin.1, -origin.2),
            None,
        );
        let hit = sphere.intersect(&ray, number(0.001), far()).unwrap();
        assert!(close(float(hit.u), u, 1e-4), "u = {}", float(hit.u));
        assert!(close(float(hit.v), v, 1e-4), "v = {}", float(hit.v));
    }
}

#[test]
fn hit_carries_the_material_of_the_sphere() {
    let material = gray();
    let sphere = Sphere::new(point(0.0, 0.0, -3.0), number(1.0), material.clone());
    let ray = Ray::new(point(0.0, 0.0, 0.0), vector(0.0, 0.0, -1.0), None);
    let hit = sphere.intersect(&ray, number(0.001), far()).unwrap();
    assert!(std::ptr::eq(hit.material, &*material));
}

#[test]
fn empty_scene_is_never_hit() {
    let world = HittableList::new();
    assert_eq!(world.len(), 0);
    let ray = Ray::new(point(0.0, 0.0, 0.0), vector(0.0, 0.0, -1.0), None);
    assert!(world.intersect(&ray, number(0.001), far()).is_none());
}

#[test]
fn scene_returns_the_nearest_hit() {
    let (first, second, third) = (gray(), gray(), gray());
    let ray = Ray::new(point(0.0, 0.0, 0.0), vector(0.0, 0.0, -1.0), None);
    let orders = [[0, 1, 2], [2, 1, 0], [1, 2, 0], [1, 0, 2]];
    for order in orders {
        let mut world = HittableList::new();
        for k in order {
            match k {
                0 => world.add(Sphere::new(point(0.0, 0.0, -10.0), number(1.0), first.clone())),
                1 => world.add(Sphere::new(point(0.0, 0.0, -4.0), number(1.0), second.clone())),
                _ => world.add(Sphere::new(point(0.0, 3.0, -2.0), number(1.0), third.clone())),
            }
        }
        assert_eq!(world.len(), 3);
        let hit = world.intersect(&ray, number(0.001), far()).unwrap();
        assert_eq!(hit.t.bits(), number(3.0).bits());
        assert!(std::ptr::eq(hit.material, &*second));
        let behind = world.intersect(&ray, number(6.0), far()).unwrap();
        assert_eq!(behind.t.bits(), number(9.0).bits());
        assert!(std::ptr::eq(behind.material, &*first));
        assert!(world.intersect(&ray, number(0.001), number(2.5)).is_none());
    }
}

#[test]
fn scene_prefers_the_first_of_two_equal_hits() {
    let (first, second) = (
        gray(),
        Arc::new(MaterialEnum::from(Metal::new(Color::white(), number(0.0)))),
    );
    let mut world = HittableList::new();
    world.add(Sphere::new(point(0.0, 0.0, -4.0), number(1.0), first.clone()));
    world.add(Sphere::new(point(0.0, 0.0, -4.0), number(1.0), second.clone()));
    let ray = Ray::new(point(0.0, 0.0, 0.0), vector(0.0, 0.0, -1.0), None);
    let hit = world.intersect(&ray, number(0.001), far()).unwrap();
    assert!(std::ptr::eq(hit.material, &*first));
}

#[test]
fn scene_misses_where_every_sphere_misses() {
    let mut world = HittableList::new();
    world.add(Sphere::new(point(0.0, 0.0, -4.0), number(1.0), gray()));
    world.add(Sphere::new(point(5.0, 0.0, -4.0), number(1.0), gray()));
    let ray = Ray::new(point(0.0, 0.0, 0.0), vector(0.0, 1.0, 0.0), None);
    assert!(world.intersect(&ray, number(0.001), far()).is_none());
}

#[test]
fn surface_coordinates_lie_in_the_unit_square() {
    let sphere = Sphere::new(point(0.5, -0.25, -4.0), number(1.5), gray());
    let one = Scalar::one();
    let zero = Scalar::zero();
    let mut hits = 0;
    for i in 0..20 {
        for j in 0..20 {
            let x = -1.0 + 2.0 * (i as f64) / 19.0;
            let y = -1.0 + 2.0 * (j as f64) / 19.0;
            let ray = Ray::new(point(0.0, 0.0, 0.0), vector(x, y, -2.0), None);
            if let Some(hit) = sphere.intersect(&ray, number(0.001), far()) {
                hits += 1;
                assert!(hit.u.ge(zero) && hit.u.le(one));
                assert!(hit.v.ge(zero) && hit.v.le(one));
                assert!(hit.t.gt(number(0.001)));
                assert!(Vec3::dot(ray.direction(), hit.normal).le(zero));
                assert!(close(float(hit.normal.length()), 1.0, 1e-6));
                let from_center = hit.point.minus(point(0.5, -0.25, -4.0));
                assert!(close(float(from_center.length()), 1.5, 1e-6));
            }
        }
    }
    assert!(hits > 50);
}

#[test]
fn normals_have_unit_length_and_oppose_the_ray() {
    let sphere = Sphere::new(point(0.5, -0.25, -4.0), number(1.5), gray());
    for origin in [(0.0, 0.0, 0.0), (0.4, -0.3, -4.2), (9.0, 3.0, -1.0)] {
        for direction in [(0.0, 0.0, -1.0), (0.1, -0.05, -1.0), (-0.5, 0.2, -0.3), (-8.5, -3.2, -3.0)] {
            let ray = Ray::new(
                point(origin.0, origin.1, origin.2),
                vector(direction.0, direction.1, direction.2),
                None,
            );
            if let Some(hit) = sphere.intersect(&ray, number(0.001), far()) {
                assert!(close(float(hit.normal.length()), 1.0, 1e-12));
                assert!(Vec3::dot(ray.direction(), hit.normal).le(Scalar::zero()));
                assert!(float(hit.t) > 0.001);
                let from_center = hit.point.minus(point(0.5, -0.25, -4.0));
                assert!(close(float(from_center.length()), 1.5, 1e-12));
                assert_eq!(sphere.hit(&ray, number(0.001), far()).unwrap().t, hit.t);
            }
        }
    }
}
