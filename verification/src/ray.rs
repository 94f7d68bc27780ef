//! Rays: half-lines with the instant at which they were cast.
use crate::point3::Point3;
use crate::scalar::{Scalar, ZERO};
use crate::triple::{plus, scaled, Triple};
use crate::vec3::Vec3;
use vstd::prelude::*;

verus! {

/// The mathematical model of a ray.
pub struct RayModel {
    pub origin: Triple,
    pub direction: Triple,
    pub time: u64,
}

/// The position on a ray at parameter `t`.
pub open spec fn position(ray: RayModel, t: u64) -> Triple {
    plus(ray.origin, scaled(ray.direction, t))
}

#[derive(Clone, Copy, Debug)]
pub struct Ray {
    origin: Point3,
    direction: Vec3,
    time: Scalar,
}

impl View for Ray {
    type V = RayModel;

    closed spec fn view(&self) -> RayModel {
        RayModel { origin: self.origin@, direction: self.direction@, time: self.time@ }
    }
}

impl Ray {
    /// A ray from `origin` along `direction`, cast at `time`, or at time
    /// zero where none is given.
    pub fn new(origin: Point3, direction: Vec3, time: Option<Scalar>) -> (r: Ray)
        ensures
            r@.origin == origin@,
            r@.direction == direction@,
            r@.time == match time {
                Some(t) => t@,
                None => ZERO,
            },
    {
        let time: Scalar = match time {
            Some(t) => t,
            None => Scalar::zero(),
        };
        Ray { origin, direction, time }
    }

    pub fn origin(&self) -> (r: Point3)
        ensures
            r@ == self@.origin,
    {
        self.origin
    }

    pub fn direction(&self) -> (r: Vec3)
        ensures
            r@ == self@.direction,
    {
        self.direction
    }

    pub fn time(&self) -> (r: Scalar)
        ensures
            r@ == self@.time,
    {
        self.time
    }

    /// The position on the ray at parameter `t`.
    pub fn at(&self, t: Scalar) -> (r: Point3)
        ensures
            r@ == position(self@, t@),
    {
        self.origin.plus(self.direction.times(t))
    }
}

} // verus!
