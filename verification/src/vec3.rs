//! Vectors of three components.
use crate::random::{random_scalar, random_scalar_range, ATTEMPTS};
use crate::scalar::{
    at_most, below, difference, is_infinite, lemma_zero_and_one, negation, Scalar, ONE, TWO, ZERO,
};
use crate::triple::{
    cross, divided, dot, lemma_dot_negated, lemma_norm_of_negated, minus, negated, norm,
    norm_squared, plus, reflection, refraction, scaled, unit, within, Triple,
};
use vstd::prelude::*;
use vstd::std_specs::ops::{AddSpecImpl, DivSpecImpl, MulSpecImpl, NegSpecImpl, SubSpecImpl};

verus! {

/// The pattern of `1e-8`: a component counts as zero below this magnitude.
pub const NEAR_ZERO: u64 = 0x3e45_798e_e230_8c3a;

/// The zero vector.
pub open spec fn origin() -> Triple {
    Triple { x: ZERO, y: ZERO, z: ZERO }
}

/// `v` lies strictly inside the unit sphere.
pub open spec fn in_unit_sphere(v: Triple) -> bool {
    below(norm_squared(v), ONE)
}

/// `v` lies in the closed unit disk of the plane `z = 0`, and in the square
/// `[-1, 1)^2`.
pub open spec fn in_unit_disk(v: Triple) -> bool {
    &&& v.z == ZERO
    &&& at_most(norm_squared(v), ONE)
    &&& at_most(negation(ONE), v.x) && below(v.x, ONE)
    &&& at_most(negation(ONE), v.y) && below(v.y, ONE)
}

/// `v` lies in the cube `[-1, 1)^3`.
pub open spec fn in_cube(v: Triple) -> bool {
    &&& at_most(negation(ONE), v.x) && below(v.x, ONE)
    &&& at_most(negation(ONE), v.y) && below(v.y, ONE)
    &&& at_most(negation(ONE), v.z) && below(v.z, ONE)
}

/// `v` if it points to the side of `normal`, else its opposite.
pub open spec fn turned_toward(v: Triple, normal: Triple) -> Triple {
    if below(ZERO, dot(v, normal)) {
        v
    } else {
        negated(v)
    }
}

#[derive(Clone, Copy, Debug, PartialEq)]
pub struct Vec3 {
    x: Scalar,
    y: Scalar,
    z: Scalar,
}

impl View for Vec3 {
    type V = Triple;

    closed spec fn view(&self) -> Triple {
        Triple { x: self.x@, y: self.y@, z: self.z@ }
    }
}

impl Default for Vec3 {
    /// The zero vector.
    fn default() -> (r: Vec3)
        ensures
            r@ == origin(),
    {
        let zero: Scalar = Scalar::zero();
        Vec3::new(zero, zero, zero)
    }
}

impl Vec3 {
    /// The vector with the given components.
    pub closed spec fn of(v: Triple) -> Vec3 {
        Vec3 { x: Scalar { bits: v.x }, y: Scalar { bits: v.y }, z: Scalar { bits: v.z } }
    }

    pub fn new(x: Scalar, y: Scalar, z: Scalar) -> (r: Vec3)
        ensures
            r@ == (Triple { x: x@, y: y@, z: z@ }),
    {
        Vec3 { x, y, z }
    }

    pub fn x(&self) -> (r: Scalar)
        ensures
            r@ == self@.x,
    {
        self.x
    }

    pub fn y(&self) -> (r: Scalar)
        ensures
            r@ == self@.y,
    {
        self.y
    }

    pub fn z(&self) -> (r: Scalar)
        ensures
            r@ == self@.z,
    {
        self.z
    }

    /// The component of the given dimension: 0 for x, 1 for y, 2 for z.
    pub fn get(&self, dimension: usize) -> (r: Scalar)
        requires
            dimension < 3,
        ensures
            dimension == 0 ==> r@ == self@.x,
            dimension == 1 ==> r@ == self@.y,
            dimension == 2 ==> r@ == self@.z,
    {
        if dimension == 0 {
            self.x
        } else if dimension == 1 {
            self.y
        } else {
            self.z
        }
    }

    pub fn length(&self) -> (r: Scalar)
        ensures
            r@ == norm(self@),
    {
        self.length_squared().sqrt()
    }

    pub fn length_squared(&self) -> (r: Scalar)
        ensures
            r@ == norm_squared(self@),
    {
        self.x.times(self.x).plus(self.y.times(self.y)).plus(self.z.times(self.z))
    }

    /// The vector divided by its length. The zero vector has no direction:
    /// its components come out as no numbers.
    pub fn normalized(&self) -> (r: Vec3)
        ensures
            r@ == unit(self@),
    {
        self.over(self.length())
    }

    /// Whether every component is closer to zero than `1e-8`.
    pub fn is_near_zero(&self) -> (r: bool)
        ensures
            r == within(self@, NEAR_ZERO),
    {
        let s: Scalar = Scalar::from_bits(NEAR_ZERO);
        self.x.abs().lt(s) && self.y.abs().lt(s) && self.z.abs().lt(s)
    }

    pub fn dot(v1: Vec3, v2: Vec3) -> (r: Scalar)
        ensures
            r@ == dot(v1@, v2@),
    {
        v1.x.times(v2.x).plus(v1.y.times(v2.y)).plus(v1.z.times(v2.z))
    }

    pub fn cross(v1: Vec3, v2: Vec3) -> (r: Vec3)
        ensures
            r@ == cross(v1@, v2@),
    {
        Vec3::new(
            v1.y.times(v2.z).minus(v1.z.times(v2.y)),
            v1.z.times(v2.x).minus(v1.x.times(v2.z)),
            v1.x.times(v2.y).minus(v1.y.times(v2.x)),
        )
    }

    /// `self + rhs`, component by component.
    pub fn plus(self, rhs: Vec3) -> (r: Vec3)
        ensures
            r@ == plus(self@, rhs@),
    {
        Vec3::new(self.x.plus(rhs.x), self.y.plus(rhs.y), self.z.plus(rhs.z))
    }

    /// `-self`, component by component.
    pub fn opposite(self) -> (r: Vec3)
        ensures
            r@ == negated(self@),
    {
        Vec3::new(self.x.opposite(), self.y.opposite(), self.z.opposite())
    }

    /// `self - rhs`, as `self + (-rhs)`.
    pub fn minus(self, rhs: Vec3) -> (r: Vec3)
        ensures
            r@ == minus(self@, rhs@),
    {
        self.plus(rhs.opposite())
    }

    /// The vector with every component multiplied by `rhs`.
    pub fn times(self, rhs: Scalar) -> (r: Vec3)
        ensures
            r@ == scaled(self@, rhs@),
    {
        Vec3::new(self.x.times(rhs), self.y.times(rhs), self.z.times(rhs))
    }

    /// The vector with every component divided by `rhs`, as a product with
    /// `1 / rhs`.
    pub fn over(self, rhs: Scalar) -> (r: Vec3)
        ensures
            r@ == divided(self@, rhs@),
    {
        self.times(Scalar::one().over(rhs))
    }

    /// A vector whose components are uniform in `[0, 1)`.
    pub fn random() -> (r: Vec3)
        ensures
            at_most(ZERO, r@.x) && below(r@.x, ONE),
            at_most(ZERO, r@.y) && below(r@.y, ONE),
            at_most(ZERO, r@.z) && below(r@.z, ONE),
    {
        Vec3::new(random_scalar(), random_scalar(), random_scalar())
    }

    /// A vector whose components are uniform in `[min, max)`. The range is
    /// not empty and its width is finite.
    pub fn random_range(min: Scalar, max: Scalar) -> (r: Vec3)
        requires
            below(min@, max@),
            !is_infinite(difference(max@, min@)),
        ensures
            at_most(min@, r@.x) && below(r@.x, max@),
            at_most(min@, r@.y) && below(r@.y, max@),
            at_most(min@, r@.z) && below(r@.z, max@),
    {
        Vec3::new(
            random_scalar_range(min, max),
            random_scalar_range(min, max),
            random_scalar_range(min, max),
        )
    }

    /// Whether the vector lies strictly inside the unit sphere.
    pub fn is_in_unit_sphere(&self) -> (r: bool)
        ensures
            r == in_unit_sphere(self@),
    {
        self.length_squared().lt(Scalar::one())
    }

    /// A random point strictly inside the unit sphere, found by drawing
    /// candidates from the cube `[-1, 1)^3` until one is inside. After
    /// [`ATTEMPTS`] rejected candidates the center is returned.
    pub fn random_in_unit_sphere() -> (r: Vec3)
        ensures
            in_unit_sphere(r@),
            in_cube(r@),
    {
        let one: Scalar = Scalar::one();
        proof {
            lemma_zero_and_one();
        }
        let mut attempts: u64 = 0;
        while attempts < ATTEMPTS
            invariant
                one@ == ONE,
                below(negation(ONE), ONE),
                !is_infinite(difference(ONE, negation(ONE))),
            decreases ATTEMPTS - attempts,
        {
            let point: Vec3 = Vec3::random_range(one.opposite(), one);
            if point.is_in_unit_sphere() {
                return point;
            }
            attempts = attempts + 1;
        }
        let zero: Scalar = Scalar::zero();
        Vec3::new(zero, zero, zero)
    }

    /// A random direction: a random point inside the unit sphere, divided by
    /// its length.
    pub fn random_unit_vector() -> (r: Vec3)
        ensures
            exists|v: Triple| in_unit_sphere(v) && in_cube(v) && r@ == unit(v),
    {
        let point: Vec3 = Vec3::random_in_unit_sphere();
        point.normalized()
    }

    /// The vector itself if it points to the side of `normal`, else its
    /// opposite.
    pub fn toward(self, normal: Vec3) -> (r: Vec3)
        ensures
            r@ == turned_toward(self@, normal@),
            !below(dot(r@, normal@), ZERO),
            in_unit_sphere(r@) == in_unit_sphere(self@),
    {
        proof {
            lemma_dot_negated(self@, normal@);
            lemma_norm_of_negated(self@);
            lemma_zero_and_one();
        }
        if Vec3::dot(self, normal).gt(Scalar::zero()) {
            self
        } else {
            self.opposite()
        }
    }

    /// A random point inside the unit sphere on the side of `normal`.
    pub fn random_in_hemisphere(normal: Vec3) -> (r: Vec3)
        ensures
            exists|v: Triple|
                in_unit_sphere(v) && in_cube(v) && r@ == #[trigger] turned_toward(v, normal@),
            in_unit_sphere(r@),
            !below(dot(r@, normal@), ZERO),
    {
        let in_unit_sphere: Vec3 = Vec3::random_in_unit_sphere();
        in_unit_sphere.toward(normal)
    }

    /// A random point of the unit disk in the plane `z = 0`, found by
    /// drawing candidates from the square `[-1, 1)^2` until one is inside.
    /// After [`ATTEMPTS`] rejected candidates the center is returned.
    pub fn random_in_unit_disk() -> (r: Vec3)
        ensures
            in_unit_disk(r@),
    {
        let one: Scalar = Scalar::one();
        let zero: Scalar = Scalar::zero();
        proof {
            lemma_zero_and_one();
        }
        let mut attempts: u64 = 0;
        while attempts < ATTEMPTS
            invariant
                one@ == ONE,
                zero@ == ZERO,
                below(negation(ONE), ONE),
                !is_infinite(difference(ONE, negation(ONE))),
            decreases ATTEMPTS - attempts,
        {
            let vec: Vec3 = Vec3::new(
                random_scalar_range(one.opposite(), one),
                random_scalar_range(one.opposite(), one),
                zero,
            );
            if vec.length_squared().le(one) {
                return vec;
            }
            attempts = attempts + 1;
        }
        Vec3::new(zero, zero, zero)
    }

    /// Mirror image of `vector` at the plane with the given normal.
    pub fn reflect(vector: Vec3, normal: Vec3) -> (r: Vec3)
        ensures
            r@ == reflection(vector@, normal@),
    {
        let two: Scalar = Scalar::from_bits(TWO);
        vector.minus(normal.times(two.times(Vec3::dot(vector, normal))))
    }

    /// Direction of the unit vector `uv` after it crosses a surface with
    /// unit normal `normal`, where `etai_over_etat` is the ratio of the
    /// refractive indices of the two sides.
    pub fn refract(uv: Vec3, normal: Vec3, etai_over_etat: Scalar) -> (r: Vec3)
        ensures
            r@ == refraction(uv@, normal@, etai_over_etat@),
    {
        let cos_theta: Scalar = Scalar::one().min(Vec3::dot(uv.opposite(), normal));
        let r_out_perpendicular: Vec3 = uv.plus(normal.times(cos_theta)).times(etai_over_etat);
        let r_out_parallel: Vec3 = normal.times(
            Scalar::one().minus(r_out_perpendicular.length_squared()).abs().sqrt().opposite(),
        );
        r_out_perpendicular.plus(r_out_parallel)
    }
}

impl std::ops::Add for Vec3 {
    type Output = Vec3;

    /// `self + rhs`, component by component.
    fn add(self, rhs: Vec3) -> (r: Vec3)
        ensures
            r@ == plus(self@, rhs@),
    {
        Vec3::plus(self, rhs)
    }
}

impl AddSpecImpl for Vec3 {
    open spec fn obeys_add_spec() -> bool {
        true
    }

    open spec fn add_req(self, rhs: Vec3) -> bool {
        true
    }

    open spec fn add_spec(self, rhs: Vec3) -> Vec3 {
        Vec3::of(plus(self@, rhs@))
    }
}

impl std::ops::Sub for Vec3 {
    type Output = Vec3;

    /// `self - rhs`, component by component.
    fn sub(self, rhs: Vec3) -> (r: Vec3)
        ensures
            r@ == minus(self@, rhs@),
    {
        Vec3::minus(self, rhs)
    }
}

impl SubSpecImpl for Vec3 {
    open spec fn obeys_sub_spec() -> bool {
        true
    }

    open spec fn sub_req(self, rhs: Vec3) -> bool {
        true
    }

    open spec fn sub_spec(self, rhs: Vec3) -> Vec3 {
        Vec3::of(minus(self@, rhs@))
    }
}

impl std::ops::Mul<Scalar> for Vec3 {
    type Output = Vec3;

    /// `self * rhs`: every component multiplied by `rhs`.
    fn mul(self, rhs: Scalar) -> (r: Vec3)
        ensures
            r@ == scaled(self@, rhs@),
    {
        Vec3::times(self, rhs)
    }
}

impl MulSpecImpl<Scalar> for Vec3 {
    open spec fn obeys_mul_spec() -> bool {
        true
    }

    open spec fn mul_req(self, rhs: Scalar) -> bool {
        true
    }

    open spec fn mul_spec(self, rhs: Scalar) -> Vec3 {
        Vec3::of(scaled(self@, rhs@))
    }
}

impl std::ops::Div<Scalar> for Vec3 {
    type Output = Vec3;

    /// `self / rhs`: every component multiplied by `1 / rhs`.
    fn div(self, rhs: Scalar) -> (r: Vec3)
        ensures
            r@ == divided(self@, rhs@),
    {
        Vec3::over(self, rhs)
    }
}

impl DivSpecImpl<Scalar> for Vec3 {
    open spec fn obeys_div_spec() -> bool {
        true
    }

    open spec fn div_req(self, rhs: Scalar) -> bool {
        true
    }

    open spec fn div_spec(self, rhs: Scalar) -> Vec3 {
        Vec3::of(divided(self@, rhs@))
    }
}

impl std::ops::Neg for Vec3 {
    type Output = Vec3;

    /// `-self`, component by component.
    fn neg(self) -> (r: Vec3)
        ensures
            r@ == negated(self@),
    {
        Vec3::opposite(self)
    }
}

impl NegSpecImpl for Vec3 {
    open spec fn obeys_neg_spec() -> bool {
        true
    }

    open spec fn neg_req(self) -> bool {
        true
    }

    open spec fn neg_spec(self) -> Vec3 {
        Vec3::of(negated(self@))
    }
}

impl std::ops::Mul<Vec3> for Scalar {
    type Output = Vec3;

    /// `self * rhs`: every component of `rhs` multiplied by `self`.
    fn mul(self, rhs: Vec3) -> (r: Vec3)
        ensures
            r@ == scaled(rhs@, self@),
    {
        Vec3::times(rhs, self)
    }
}

impl MulSpecImpl<Vec3> for Scalar {
    open spec fn obeys_mul_spec() -> bool {
        true
    }

    open spec fn mul_req(self, rhs: Vec3) -> bool {
        true
    }

    open spec fn mul_spec(self, rhs: Vec3) -> Vec3 {
        Vec3::of(scaled(rhs@, self@))
    }
}

impl std::ops::Div<Vec3> for Scalar {
    type Output = Vec3;

    /// `self / rhs`: every component of `rhs` divided by `self`.
    fn div(self, rhs: Vec3) -> (r: Vec3)
        ensures
            r@ == divided(rhs@, self@),
    {
        Vec3::over(rhs, self)
    }
}

impl DivSpecImpl<Vec3> for Scalar {
    open spec fn obeys_div_spec() -> bool {
        true
    }

    open spec fn div_req(self, rhs: Vec3) -> bool {
        true
    }

    open spec fn div_spec(self, rhs: Vec3) -> Vec3 {
        Vec3::of(divided(rhs@, self@))
    }
}

impl std::ops::AddAssign for Vec3 {
    /// `self += rhs`.
    fn add_assign(&mut self, rhs: Vec3)
        ensures
            final(self)@ == plus(old(self)@, rhs@),
    {
        *self = Vec3::plus(*self, rhs);
    }
}

impl std::ops::SubAssign for Vec3 {
    /// `self -= rhs`, as `self += -rhs`.
    fn sub_assign(&mut self, rhs: Vec3)
        ensures
            final(self)@ == minus(old(self)@, rhs@),
    {
        *self = Vec3::minus(*self, rhs);
    }
}

impl std::ops::MulAssign<Scalar> for Vec3 {
    /// `self *= rhs`.
    fn mul_assign(&mut self, rhs: Scalar)
        ensures
            final(self)@ == scaled(old(self)@, rhs@),
    {
        *self = Vec3::times(*self, rhs);
    }
}

impl std::ops::DivAssign<Scalar> for Vec3 {
    /// `self /= rhs`, as `self *= 1 / rhs`.
    fn div_assign(&mut self, rhs: Scalar)
        ensures
            final(self)@ == divided(old(self)@, rhs@),
    {
        *self = Vec3::over(*self, rhs);
    }
}

} // verus!
