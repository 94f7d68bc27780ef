//! Spheres.
use crate::hittable::{geometry, HitModel, HitRecord, Hittable};
use crate::material::MaterialEnum;
use crate::point3::Point3;
use crate::ray::{position, Ray, RayModel};
use crate::scalar::{
    at_most, below, difference, greater, lemma_zero_and_one, lesser, negation, product, ratio,
    root, sum, Scalar, ZERO,
};
use crate::trig::{angle, arccosine, PI, TWO_PI};
use crate::triple::{divided, dot, lemma_dot_negated, minus, negated, norm_squared, Triple};
use crate::vec3::Vec3;
use std::sync::Arc;
use vstd::prelude::*;

verus! {

/// The mathematical model of the shape of a sphere.
pub struct Ball {
    pub center: Triple,
    pub radius: u64,
}

/// Half the linear coefficient of the quadratic `|O + t D - C|^2 = r^2`.
pub open spec fn half_b(ball: Ball, ray: RayModel) -> u64 {
    dot(minus(ray.origin, ball.center), ray.direction)
}

/// A quarter of the discriminant of the quadratic.
pub open spec fn discriminant(ball: Ball, ray: RayModel) -> u64 {
    let oc = minus(ray.origin, ball.center);
    let a = norm_squared(ray.direction);
    let c = difference(norm_squared(oc), product(ball.radius, ball.radius));
    difference(product(half_b(ball, ray), half_b(ball, ray)), product(a, c))
}

/// The root of the quadratic with the root of the discriminant subtracted.
pub open spec fn near_root(ball: Ball, ray: RayModel) -> u64 {
    ratio(
        difference(negation(half_b(ball, ray)), root(discriminant(ball, ray))),
        norm_squared(ray.direction),
    )
}

/// The root of the quadratic with the root of the discriminant added.
pub open spec fn far_root(ball: Ball, ray: RayModel) -> u64 {
    ratio(
        sum(negation(half_b(ball, ray)), root(discriminant(ball, ray))),
        norm_squared(ray.direction),
    )
}

/// `t` lies strictly between `t_min` and `t_max`.
pub open spec fn inside(t: u64, t_min: u64, t_max: u64) -> bool {
    below(t_min, t) && below(t, t_max)
}

/// The smaller of the two roots.
pub open spec fn first_root(ball: Ball, ray: RayModel) -> u64 {
    lesser(near_root(ball, ray), far_root(ball, ray))
}

/// The larger of the two roots.
pub open spec fn second_root(ball: Ball, ray: RayModel) -> u64 {
    greater(near_root(ball, ray), far_root(ball, ray))
}

/// The parameter at which the ray strikes the sphere strictly between
/// `t_min` and `t_max`: the smaller root of the quadratic if it lies there,
/// else the larger root if that one does.
pub open spec fn struck_at(ball: Ball, ray: RayModel, t_min: u64, t_max: u64) -> Option<u64> {
    if below(discriminant(ball, ray), ZERO) {
        None
    } else if inside(first_root(ball, ray), t_min, t_max) {
        Some(first_root(ball, ray))
    } else if inside(second_root(ball, ray), t_min, t_max) {
        Some(second_root(ball, ray))
    } else {
        None
    }
}

/// The normal that points away from the center, at the point of the ray
/// with parameter `t`: `(P - C) / r`.
pub open spec fn outward_normal(ball: Ball, ray: RayModel, t: u64) -> Triple {
    divided(minus(position(ray, t), ball.center), ball.radius)
}

/// Azimuth of a point of the unit sphere, scaled to `[0, 1]`:
/// `(atan2(-z, x) + π) / 2π`.
pub open spec fn surface_u(n: Triple) -> u64 {
    ratio(sum(angle(negation(n.z), n.x), PI), TWO_PI)
}

/// Polar angle of a point of the unit sphere, scaled to `[0, 1]`:
/// `acos(-y) / π`.
pub open spec fn surface_v(n: Triple) -> u64 {
    ratio(arccosine(negation(n.y)), PI)
}

/// The hit at the point of the ray with parameter `t`.
pub open spec fn hit_at(ball: Ball, ray: RayModel, t: u64) -> HitModel {
    let outward = outward_normal(ball, ray, t);
    let front = below(dot(ray.direction, outward), ZERO);
    HitModel {
        point: position(ray, t),
        normal: if front {
            outward
        } else {
            negated(outward)
        },
        t,
        u: surface_u(outward),
        v: surface_v(outward),
        on_front_face: front,
    }
}

/// The hit of a ray on a sphere at a parameter strictly between `t_min` and
/// `t_max`, if there is one.
#[verifier::opaque]
pub open spec fn sphere_hit(ball: Ball, ray: RayModel, t_min: u64, t_max: u64) -> Option<
    HitModel,
> {
    match struck_at(ball, ray, t_min, t_max) {
        Some(t) => Some(hit_at(ball, ray, t)),
        None => None,
    }
}

/// A hit lies strictly inside the interval, at the point of the ray with
/// the parameter of the hit; the side that was struck is told by the sign
/// of the dot product of the direction with the outward normal; and the
/// normal of the hit opposes the ray: their dot product is not positive.
pub proof fn lemma_hit_is_sound(ball: Ball, ray: RayModel, t_min: u64, t_max: u64)
    ensures
        sphere_hit(ball, ray, t_min, t_max) matches Some(h) ==> {
            &&& inside(h.t, t_min, t_max)
            &&& h.point == position(ray, h.t)
            &&& h.on_front_face == below(
                dot(ray.direction, outward_normal(ball, ray, h.t)),
                ZERO,
            )
            &&& h.normal == if h.on_front_face {
                outward_normal(ball, ray, h.t)
            } else {
                negated(outward_normal(ball, ray, h.t))
            }
            &&& !below(ZERO, dot(ray.direction, h.normal))
        },
{
    reveal(sphere_hit);
    lemma_zero_and_one();
    if let Some(t) = struck_at(ball, ray, t_min, t_max) {
        lemma_dot_negated(ray.direction, outward_normal(ball, ray, t));
    }
}

/// Lowering the upper end of the interval to `cut` keeps a hit that lies
/// below `cut` and loses any other.
pub proof fn lemma_hit_below(ball: Ball, ray: RayModel, t_min: u64, t_max: u64, cut: u64)
    requires
        cut == t_max || at_most(cut, t_max),
    ensures
        sphere_hit(ball, ray, t_min, cut) == match sphere_hit(ball, ray, t_min, t_max) {
            Some(h) => if below(h.t, cut) {
                Some(h)
            } else {
                None
            },
            None => None,
        },
{
    reveal(sphere_hit);
}

pub struct Sphere {
    center: Point3,
    radius: Scalar,
    material: Arc<MaterialEnum>,
}

impl Sphere {
    /// The shape of the sphere.
    pub closed spec fn ball(self) -> Ball {
        Ball { center: self.center@, radius: self.radius@ }
    }

    /// The material of the sphere.
    pub closed spec fn material(self) -> MaterialEnum {
        *self.material
    }

    pub fn new(center: Point3, radius: Scalar, material: Arc<MaterialEnum>) -> (r: Sphere)
        ensures
            r.ball() == (Ball { center: center@, radius: radius@ }),
            r.material() == *material,
    {
        Sphere { center, radius, material }
    }

    /// Surface coordinates of a point of the unit sphere, given as the
    /// vector from the center.
    fn surface_coordinates(n: Vec3) -> (r: (Scalar, Scalar))
        ensures
            r.0@ == surface_u(n@),
            r.1@ == surface_v(n@),
    {
        let pi: Scalar = Scalar::pi();
        let theta: Scalar = n.y().opposite().acos();
        let phi: Scalar = n.z().opposite().atan2(n.x()).plus(pi);
        (phi.over(Scalar::from_bits(TWO_PI)), theta.over(pi))
    }
}

impl Hittable for Sphere {
    open spec fn hit_spec(&self, ray: RayModel, t_min: u64, t_max: u64) -> Option<HitModel> {
        sphere_hit(self.ball(), ray, t_min, t_max)
    }

    open spec fn material_spec(&self, ray: RayModel, t_min: u64, t_max: u64) -> MaterialEnum {
        self.material()
    }

    fn intersect(&self, ray: &Ray, t_min: Scalar, t_max: Scalar) -> (hit: Option<HitRecord<'_>>)
        ensures
            hit matches Some(h) ==> {
                &&& inside(h.t@, t_min@, t_max@)
                &&& h.point@ == position(ray@, h.t@)
                &&& !below(ZERO, dot(ray@.direction, h.normal@))
            },
    {
        proof {
            assert(self.hit_spec(ray@, t_min@, t_max@) == sphere_hit(
                self.ball(),
                ray@,
                t_min@,
                t_max@,
            ));
            assert(self.material_spec(ray@, t_min@, t_max@) == self.material());
        }
        self.hit(ray, t_min, t_max)
    }
}

impl Sphere {
    /// The hit of the ray on the sphere at a parameter strictly between
    /// `t_min` and `t_max`, if there is one.
    pub fn hit(&self, ray: &Ray, t_min: Scalar, t_max: Scalar) -> (hit: Option<HitRecord<'_>>)
        ensures
            geometry(hit) == sphere_hit(self.ball(), ray@, t_min@, t_max@),
            hit matches Some(h) ==> {
                &&& *h.material == self.material()
                &&& inside(h.t@, t_min@, t_max@)
                &&& h.point@ == position(ray@, h.t@)
                &&& !below(ZERO, dot(ray@.direction, h.normal@))
            },
    {
        proof {
            lemma_hit_is_sound(self.ball(), ray@, t_min@, t_max@);
            reveal(sphere_hit);
        }
        let oc: Vec3 = ray.origin().minus(self.center);
        let a: Scalar = ray.direction().length_squared();
        let half_b: Scalar = Vec3::dot(oc, ray.direction());
        let c: Scalar = oc.length_squared().minus(self.radius.times(self.radius));
        let discriminant: Scalar = half_b.times(half_b).minus(a.times(c));
        if discriminant.lt(Scalar::zero()) {
            return None;
        }
        let sqrtd: Scalar = discriminant.sqrt();
        let near: Scalar = half_b.opposite().minus(sqrtd).over(a);
        let far: Scalar = half_b.opposite().plus(sqrtd).over(a);
        let mut root: Scalar = near.min(far);
        if !(t_min.lt(root) && root.lt(t_max)) {
            root = near.max(far);
            if !(t_min.lt(root) && root.lt(t_max)) {
                return None;
            }
        }
        let point: Point3 = ray.at(root);
        let outward_normal: Vec3 = point.minus(self.center).over(self.radius);
        let on_front_face: bool = Vec3::dot(ray.direction(), outward_normal).lt(Scalar::zero());
        let normal: Vec3 = if on_front_face {
            outward_normal
        } else {
            outward_normal.opposite()
        };
        let (u, v) = Sphere::surface_coordinates(outward_normal);
        Some(HitRecord { point, normal, t: root, u, v, on_front_face, material: &self.material })
    }
}

} // verus!
