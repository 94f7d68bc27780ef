//! The mathematical model of vectors, points and colors: triples of bit
//! patterns, with the arithmetic of the scalars component by component.
use crate::scalar::{
    absolute, below, difference, is_nan, lemma_commutes, lemma_negation, lemma_product_negated,
    lemma_sum_mirrors, lesser, mirrors,
    negation, order, product, ratio, root, sum, ONE, TWO,
};
use vstd::prelude::*;

verus! {

/// Three bit patterns.
pub struct Triple {
    pub x: u64,
    pub y: u64,
    pub z: u64,
}

pub open spec fn plus(a: Triple, b: Triple) -> Triple {
    Triple { x: sum(a.x, b.x), y: sum(a.y, b.y), z: sum(a.z, b.z) }
}

pub open spec fn negated(a: Triple) -> Triple {
    Triple { x: negation(a.x), y: negation(a.y), z: negation(a.z) }
}

/// `a - b`, as `a + (-b)`.
pub open spec fn minus(a: Triple, b: Triple) -> Triple {
    plus(a, negated(b))
}

/// Every component multiplied by the scalar `k`.
pub open spec fn scaled(a: Triple, k: u64) -> Triple {
    Triple { x: product(a.x, k), y: product(a.y, k), z: product(a.z, k) }
}

/// Every component divided by the scalar `k`, as a product with `1 / k`.
pub open spec fn divided(a: Triple, k: u64) -> Triple {
    scaled(a, ratio(ONE, k))
}

/// Component-wise product.
pub open spec fn hadamard(a: Triple, b: Triple) -> Triple {
    Triple { x: product(a.x, b.x), y: product(a.y, b.y), z: product(a.z, b.z) }
}

pub open spec fn dot(a: Triple, b: Triple) -> u64 {
    sum(sum(product(a.x, b.x), product(a.y, b.y)), product(a.z, b.z))
}

pub open spec fn cross(a: Triple, b: Triple) -> Triple {
    Triple {
        x: difference(product(a.y, b.z), product(a.z, b.y)),
        y: difference(product(a.z, b.x), product(a.x, b.z)),
        z: difference(product(a.x, b.y), product(a.y, b.x)),
    }
}

pub open spec fn norm_squared(a: Triple) -> u64 {
    dot(a, a)
}

pub open spec fn norm(a: Triple) -> u64 {
    root(norm_squared(a))
}

/// The vector divided by its own length.
pub open spec fn unit(a: Triple) -> Triple {
    divided(a, norm(a))
}

/// Every component is closer to zero than `bound`.
pub open spec fn within(a: Triple, bound: u64) -> bool {
    below(absolute(a.x), bound) && below(absolute(a.y), bound) && below(absolute(a.z), bound)
}

/// Mirror image of `v` at the plane with normal `n`: `v - (2 (v . n)) n`.
pub open spec fn reflection(v: Triple, n: Triple) -> Triple {
    minus(v, scaled(n, product(TWO, dot(v, n))))
}

/// Part of the refracted direction that is perpendicular to the normal.
pub open spec fn refraction_across(uv: Triple, n: Triple, eta: u64) -> Triple {
    let cos_theta = lesser(ONE, dot(negated(uv), n));
    scaled(plus(uv, scaled(n, cos_theta)), eta)
}

/// Direction of the unit vector `uv` after it crosses a surface with unit
/// normal `n` and ratio of refractive indices `eta` (Snell's law).
pub open spec fn refraction(uv: Triple, n: Triple, eta: u64) -> Triple {
    let across = refraction_across(uv, n, eta);
    let along = scaled(
        n,
        negation(root(absolute(difference(ONE, norm_squared(across))))),
    );
    plus(across, along)
}

/// The dot product with the opposite of a vector is the opposite of the dot
/// product.
pub proof fn lemma_dot_negated(a: Triple, b: Triple)
    ensures
        mirrors(dot(negated(a), b), dot(a, b)),
        mirrors(dot(a, negated(b)), dot(a, b)),
{
    lemma_product_negated(a.x, b.x);
    lemma_product_negated(a.y, b.y);
    lemma_product_negated(a.z, b.z);
    lemma_sum_mirrors(
        product(negation(a.x), b.x),
        product(a.x, b.x),
        product(negation(a.y), b.y),
        product(a.y, b.y),
    );
    lemma_sum_mirrors(
        sum(product(negation(a.x), b.x), product(negation(a.y), b.y)),
        sum(product(a.x, b.x), product(a.y, b.y)),
        product(negation(a.z), b.z),
        product(a.z, b.z),
    );
    lemma_sum_mirrors(
        product(a.x, negation(b.x)),
        product(a.x, b.x),
        product(a.y, negation(b.y)),
        product(a.y, b.y),
    );
    lemma_sum_mirrors(
        sum(product(a.x, negation(b.x)), product(a.y, negation(b.y))),
        sum(product(a.x, b.x), product(a.y, b.y)),
        product(a.z, negation(b.z)),
        product(a.z, b.z),
    );
}

/// The arguments of a dot product may change places.
pub proof fn lemma_dot_commutes(a: Triple, b: Triple)
    ensures
        dot(a, b) == dot(b, a),
{
    lemma_commutes(a.x, b.x);
    lemma_commutes(a.y, b.y);
    lemma_commutes(a.z, b.z);
}

/// Exchanging the arguments of a cross product gives the opposite vector.
pub proof fn lemma_cross_anticommutes(a: Triple, b: Triple)
    ensures
        mirrors(cross(b, a).x, cross(a, b).x),
        mirrors(cross(b, a).y, cross(a, b).y),
        mirrors(cross(b, a).z, cross(a, b).z),
{
    lemma_difference_exchanged(product(a.y, b.z), product(a.z, b.y));
    lemma_difference_exchanged(product(a.z, b.x), product(a.x, b.z));
    lemma_difference_exchanged(product(a.x, b.y), product(a.y, b.x));
    lemma_commutes(a.y, b.z);
    lemma_commutes(a.z, b.y);
    lemma_commutes(a.z, b.x);
    lemma_commutes(a.x, b.z);
    lemma_commutes(a.x, b.y);
    lemma_commutes(a.y, b.x);
}

/// `q - p` is the opposite of `p - q`.
pub proof fn lemma_difference_exchanged(p: u64, q: u64)
    ensures
        mirrors(difference(q, p), difference(p, q)),
{
    lemma_negation(p);
    lemma_negation(q);
    lemma_negation(negation(q));
    lemma_sum_mirrors(negation(p), p, q, negation(q));
    lemma_commutes(q, negation(p));
}

/// A vector and its opposite are equally long.
pub proof fn lemma_norm_of_negated(a: Triple)
    ensures
        is_nan(norm_squared(a)) == is_nan(norm_squared(negated(a))),
        !is_nan(norm_squared(a)) ==> order(norm_squared(negated(a))) == order(norm_squared(a)),
        below(norm_squared(negated(a)), ONE) == below(norm_squared(a), ONE),
{
    lemma_dot_negated(a, a);
    lemma_dot_negated(a, negated(a));
}

} // verus!
