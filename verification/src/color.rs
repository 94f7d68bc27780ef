//! Colors: red, green and blue intensities, nominally in `[0, 1]` and not
//! clamped during computation.
use crate::scalar::{
    at_most, is_fraction, lemma_fraction_order, lemma_product_of_fractions, Scalar, ONE, ZERO,
};
use crate::triple::{hadamard, plus, scaled, Triple};
use crate::vec3::Vec3;
use vstd::prelude::*;

verus! {

/// No light.
pub open spec fn black() -> Triple {
    Triple { x: ZERO, y: ZERO, z: ZERO }
}

/// Full intensity in every channel.
pub open spec fn white() -> Triple {
    Triple { x: ONE, y: ONE, z: ONE }
}

/// No channel of `c` exceeds full intensity.
pub open spec fn at_most_white(c: Triple) -> bool {
    at_most(c.x, ONE) && at_most(c.y, ONE) && at_most(c.z, ONE)
}

/// Every channel of `c` lies between none and full intensity.
pub open spec fn is_moderate(c: Triple) -> bool {
    is_fraction(c.x) && is_fraction(c.y) && is_fraction(c.z)
}

/// No channel of a moderate color exceeds full intensity.
pub proof fn lemma_moderate_is_at_most_white(c: Triple)
    requires
        is_moderate(c),
    ensures
        at_most_white(c),
{
    lemma_fraction_order(c.x);
    lemma_fraction_order(c.y);
    lemma_fraction_order(c.z);
}

/// Attenuating a moderate color by a moderate color gives a moderate color.
pub proof fn lemma_attenuation_is_moderate(a: Triple, b: Triple)
    requires
        is_moderate(a),
        is_moderate(b),
    ensures
        is_moderate(hadamard(a, b)),
{
    lemma_product_of_fractions(a.x, b.x);
    lemma_product_of_fractions(a.y, b.y);
    lemma_product_of_fractions(a.z, b.z);
}

/// A color, held as the vector of its red, green and blue channels.
#[derive(Clone, Copy, Debug, PartialEq)]
pub struct Color(pub Vec3);

impl View for Color {
    type V = Triple;

    open spec fn view(&self) -> Triple {
        self.0@
    }
}

impl Color {
    pub fn new(red: Scalar, green: Scalar, blue: Scalar) -> (r: Color)
        ensures
            r@ == (Triple { x: red@, y: green@, z: blue@ }),
    {
        Color(Vec3::new(red, green, blue))
    }

    pub fn black() -> (r: Color)
        ensures
            r@ == black(),
    {
        let zero: Scalar = Scalar::zero();
        Color::new(zero, zero, zero)
    }

    pub fn white() -> (r: Color)
        ensures
            r@ == white(),
    {
        let one: Scalar = Scalar::one();
        Color::new(one, one, one)
    }

    pub fn red(&self) -> (r: Scalar)
        ensures
            r@ == self@.x,
    {
        self.0.x()
    }

    pub fn green(&self) -> (r: Scalar)
        ensures
            r@ == self@.y,
    {
        self.0.y()
    }

    pub fn blue(&self) -> (r: Scalar)
        ensures
            r@ == self@.z,
    {
        self.0.z()
    }

    /// Sum of two colors, channel by channel.
    pub fn plus(self, rhs: Color) -> (r: Color)
        ensures
            r@ == plus(self@, rhs@),
    {
        Color(self.0.plus(rhs.0))
    }

    /// The color with every channel multiplied by `rhs`.
    pub fn times(self, rhs: Scalar) -> (r: Color)
        ensures
            r@ == scaled(self@, rhs@),
    {
        Color(self.0.times(rhs))
    }

    /// Product of two colors, channel by channel: `self` attenuated by
    /// `rhs`.
    pub fn attenuate(self, rhs: Color) -> (r: Color)
        ensures
            r@ == hadamard(self@, rhs@),
    {
        Color::new(
            self.0.x().times(rhs.0.x()),
            self.0.y().times(rhs.0.y()),
            self.0.z().times(rhs.0.z()),
        )
    }
}

} // verus!
