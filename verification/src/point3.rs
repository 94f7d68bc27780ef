//! Positions in space.
use crate::scalar::Scalar;
use crate::triple::{minus, plus, Triple};
use crate::vec3::Vec3;
use vstd::prelude::*;
use vstd::std_specs::convert::FromSpecImpl;

verus! {

/// A position, held as the vector that leads to it from the origin.
#[derive(Clone, Copy, Debug, PartialEq)]
pub struct Point3(pub Vec3);

impl View for Point3 {
    type V = Triple;

    open spec fn view(&self) -> Triple {
        self.0@
    }
}

impl Point3 {
    pub fn new(x: Scalar, y: Scalar, z: Scalar) -> (r: Point3)
        ensures
            r@ == (Triple { x: x@, y: y@, z: z@ }),
    {
        Point3(Vec3::new(x, y, z))
    }

    pub fn x(&self) -> (r: Scalar)
        ensures
            r@ == self@.x,
    {
        self.0.x()
    }

    pub fn y(&self) -> (r: Scalar)
        ensures
            r@ == self@.y,
    {
        self.0.y()
    }

    pub fn z(&self) -> (r: Scalar)
        ensures
            r@ == self@.z,
    {
        self.0.z()
    }

    /// The position reached from this one by the displacement `rhs`.
    pub fn plus(self, rhs: Vec3) -> (r: Point3)
        ensures
            r@ == plus(self@, rhs@),
    {
        Point3(self.0.plus(rhs))
    }

    /// The displacement that leads from `rhs` to this position.
    pub fn minus(self, rhs: Point3) -> (r: Vec3)
        ensures
            r@ == minus(self@, rhs@),
    {
        self.0.minus(rhs.0)
    }
}

impl From<Vec3> for Point3 {
    fn from(value: Vec3) -> (r: Point3) {
        Point3(value)
    }
}

impl FromSpecImpl<Vec3> for Point3 {
    open spec fn obeys_from_spec() -> bool {
        true
    }

    open spec fn from_spec(value: Vec3) -> Point3 {
        Point3(value)
    }
}

impl From<Point3> for Vec3 {
    fn from(value: Point3) -> (r: Vec3) {
        value.0
    }
}

impl FromSpecImpl<Point3> for Vec3 {
    open spec fn obeys_from_spec() -> bool {
        true
    }

    open spec fn from_spec(value: Point3) -> Vec3 {
        value.0
    }
}

} // verus!
