//! Trigonometric functions.
//!
//! Each function is defined by an argument reduction followed by a power
//! series, evaluated in the arithmetic of [`Scalar`]. The specification
//! functions below are those definitions; the executable methods compute
//! exactly them.
use crate::scalar::{
    absolute, at_most, below, difference, floor, greater, is_nan, is_negative, lemma_negation,
    lemma_not_negative, lemma_signed, lemma_zero_and_one, lesser, negation, order, product,
    ratio, root, signed, sum, Scalar, NAN, ONE, ZERO,
};
use vstd::prelude::*;

verus! {

/// The pattern of π.
pub const PI: u64 = 0x4009_21fb_5444_2d18;

/// The pattern of π/2.
pub const HALF_PI: u64 = 0x3ff9_21fb_5444_2d18;

/// The pattern of 2π.
pub const TWO_PI: u64 = 0x4019_21fb_5444_2d18;

/// The pattern of 4.
pub const FOUR: u64 = 0x4010_0000_0000_0000;

/// The patterns of `1/3!`, `1/5!`, up to `1/21!`.
pub open spec fn sine_coefficient(k: int) -> u64 {
    if k == 1 {
        4595172819793696085
    } else if k == 2 {
        4575957461383581969
    } else if k == 3 {
        4551452160554016794
    } else if k == 4 {
        4523617214285662004
    } else if k == 5 {
        4493156764026750180
    } else if k == 6 {
        4460272573143870729
    } else if k == 7 {
        4425604618586929183
    } else if k == 8 {
        4389130328383466826
    } else if k == 9 {
        4351309137733304663
    } else {
        4311945469071521138
    }
}

/// The patterns of `1/3`, `1/5`, up to `1/23`.
pub open spec fn arctangent_coefficient(k: int) -> u64 {
    if k == 1 {
        4599676419421066581
    } else if k == 2 {
        4596373779694328218
    } else if k == 3 {
        4594314991293244562
    } else if k == 4 {
        4592670820000712476
    } else if k == 5 {
        4591215111030249286
    } else if k == 6 {
        4590207312512236308
    } else if k == 7 {
        4589468260265693457
    } else if k == 8 {
        4588638185040256542
    } else if k == 9 {
        4587745830934523688
    } else if k == 10 {
        4587023449039406616
    } else {
        4586426698778222948
    }
}

/// The alternating series `c(k) - w (c(k+1) - w (...))` of the sine, from
/// term `k` to term 10.
pub open spec fn sine_tail(w: u64, k: int) -> u64
    decreases 10 - k,
{
    if k >= 10 {
        sine_coefficient(10)
    } else {
        difference(sine_coefficient(k), product(w, sine_tail(w, k + 1)))
    }
}

/// The alternating series of the arctangent, from term `k` to term 11.
pub open spec fn arctangent_tail(w: u64, k: int) -> u64
    decreases 11 - k,
{
    if k >= 11 {
        arctangent_coefficient(11)
    } else {
        difference(arctangent_coefficient(k), product(w, arctangent_tail(w, k + 1)))
    }
}

/// Sine of an angle between `-π/2` and `π/2`: the power series
/// `x - x^3/3! + x^5/5! - ...` up to the power 21.
pub open spec fn sine_series(x: u64) -> u64 {
    let w = product(x, x);
    difference(x, product(product(x, w), sine_tail(w, 1)))
}

/// Sine of an angle that is not negative. The angle is reduced by whole
/// turns into `[0, 2π)`, then by symmetry into `[-π/2, π/2]`; the series of
/// the reduced angle is clamped into `[-1, 1]`.
pub open spec fn sine_of_magnitude(x: u64) -> u64 {
    let turns = floor(ratio(x, TWO_PI));
    let y = difference(x, product(TWO_PI, turns));
    let folded = if below(PI, y) {
        difference(y, TWO_PI)
    } else {
        y
    };
    let first = if below(HALF_PI, folded) {
        difference(PI, folded)
    } else if below(folded, negation(HALF_PI)) {
        difference(negation(PI), folded)
    } else {
        folded
    };
    let s = sine_series(first);
    if is_nan(s) {
        NAN
    } else {
        lesser(ONE, greater(negation(ONE), s))
    }
}

/// Sine of any angle: the sine of its magnitude, with the opposite sign for
/// a negative angle.
pub open spec fn sine(x: u64) -> u64 {
    let s = sine_of_magnitude(absolute(x));
    if is_nan(s) {
        NAN
    } else if is_negative(x) {
        negation(s)
    } else {
        s
    }
}

/// Sine lies between minus one and one, unless it is no number.
pub proof fn lemma_sine_bounds(x: u64)
    ensures
        is_nan(sine(x)) || (at_most(negation(ONE), sine(x)) && at_most(sine(x), ONE)),
{
    lemma_zero_and_one();
    let s = sine_of_magnitude(absolute(x));
    lemma_negation(s);
    lemma_negation(ONE);
}

/// The tangent of half the angle whose tangent is `z`:
/// `z / (1 + sqrt(1 + z^2))`.
pub open spec fn half_angle(z: u64) -> u64 {
    ratio(z, sum(ONE, root(sum(ONE, product(z, z)))))
}

/// Arctangent of a slope between 0 and 1: four times the series
/// `z - z^3/3 + z^5/5 - ...`, up to the power 23, of the slope of a
/// quarter of the angle.
pub open spec fn arctangent_unit(t: u64) -> u64 {
    let z = half_angle(half_angle(t));
    let w = product(z, z);
    product(FOUR, difference(z, product(product(z, w), arctangent_tail(w, 1))))
}

/// Angle of the point `(x, y)` against the positive x axis, in `[-π, π]`.
pub open spec fn angle(y: u64, x: u64) -> u64 {
    let (ax, ay) = (absolute(x), absolute(y));
    if is_nan(x) || is_nan(y) {
        NAN
    } else {
        let steep = below(ax, ay);
        let slope = if ax == ay {
            if ax == 0 {
                ZERO
            } else {
                ONE
            }
        } else if steep {
            ratio(ax, ay)
        } else {
            ratio(ay, ax)
        };
        let base = arctangent_unit(slope);
        let octant = if steep {
            difference(HALF_PI, base)
        } else {
            base
        };
        let half = if is_negative(x) {
            difference(PI, octant)
        } else {
            octant
        };
        if is_nan(half) {
            NAN
        } else {
            signed(is_negative(y), lesser(PI, absolute(half)))
        }
    }
}

/// An angle lies between minus π and π, unless it is no number, and has
/// the sign of `y`.
pub proof fn lemma_angle_bounds(y: u64, x: u64)
    ensures
        is_nan(angle(y, x)) || (at_most(negation(PI), angle(y, x)) && at_most(angle(y, x), PI)
            && is_negative(angle(y, x)) == is_negative(y)),
{
    lemma_pi();
    lemma_zero_and_one();
    let r = angle(y, x);
    if !is_nan(r) && !is_nan(x) && !is_nan(y) {
        let (ax, ay) = (absolute(x), absolute(y));
        let steep = below(ax, ay);
        let slope = if ax == ay {
            if ax == 0 {
                ZERO
            } else {
                ONE
            }
        } else if steep {
            ratio(ax, ay)
        } else {
            ratio(ay, ax)
        };
        let base = arctangent_unit(slope);
        let octant = if steep {
            difference(HALF_PI, base)
        } else {
            base
        };
        let half = if is_negative(x) {
            difference(PI, octant)
        } else {
            octant
        };
        let size = absolute(half);
        assert(size & 0x7fff_ffff_ffff_ffff == size && size & 0x8000_0000_0000_0000 == 0)
            by (bit_vector)
            requires
                size == half & 0x7fff_ffff_ffff_ffff,
        ;
        let m = lesser(PI, size);
        assert(m <= PI);
        lemma_signed(is_negative(y), m);
    }
}

/// The pattern of π stands for a positive number.
pub proof fn lemma_pi()
    ensures
        !is_nan(PI),
        !is_negative(PI),
        order(PI) == PI,
        order(negation(PI)) == -PI,
{
    lemma_negation(PI);
    assert(0x4009_21fb_5444_2d18u64 & 0x7fff_ffff_ffff_ffff == 0x4009_21fb_5444_2d18
        && 0x4009_21fb_5444_2d18u64 & 0x8000_0000_0000_0000 == 0) by (bit_vector);
}


/// Arccosine, in `[0, π]`; no number for a cosine beyond `[-1, 1]`.
pub open spec fn arccosine(c: u64) -> u64 {
    angle(absolute(root(difference(ONE, product(c, c)))), c)
}

/// The fifth power, as `x (x^2)^2`.
pub open spec fn power5(x: u64) -> u64 {
    product(x, product(product(x, x), product(x, x)))
}

fn sine_term(k: u32) -> (r: Scalar)
    ensures
        r@ == sine_coefficient(k as int),
{
    let bits: u64 = if k == 1 {
        4595172819793696085
    } else if k == 2 {
        4575957461383581969
    } else if k == 3 {
        4551452160554016794
    } else if k == 4 {
        4523617214285662004
    } else if k == 5 {
        4493156764026750180
    } else if k == 6 {
        4460272573143870729
    } else if k == 7 {
        4425604618586929183
    } else if k == 8 {
        4389130328383466826
    } else if k == 9 {
        4351309137733304663
    } else {
        4311945469071521138
    };
    Scalar::from_bits(bits)
}

fn arctangent_term(k: u32) -> (r: Scalar)
    ensures
        r@ == arctangent_coefficient(k as int),
{
    let bits: u64 = if k == 1 {
        4599676419421066581
    } else if k == 2 {
        4596373779694328218
    } else if k == 3 {
        4594314991293244562
    } else if k == 4 {
        4592670820000712476
    } else if k == 5 {
        4591215111030249286
    } else if k == 6 {
        4590207312512236308
    } else if k == 7 {
        4589468260265693457
    } else if k == 8 {
        4588638185040256542
    } else if k == 9 {
        4587745830934523688
    } else if k == 10 {
        4587023449039406616
    } else {
        4586426698778222948
    };
    Scalar::from_bits(bits)
}

fn sin_series(x: Scalar) -> (r: Scalar)
    ensures
        r@ == sine_series(x@),
{
    let w: Scalar = x.times(x);
    let mut tail: Scalar = sine_term(10);
    let mut k: u32 = 10;
    while k > 1
        invariant
            1 <= k <= 10,
            tail@ == sine_tail(w@, k as int),
        decreases k,
    {
        k = k - 1;
        tail = sine_term(k).minus(w.times(tail));
    }
    x.minus(x.times(w).times(tail))
}

fn half_of_angle(z: Scalar) -> (r: Scalar)
    ensures
        r@ == half_angle(z@),
{
    let one: Scalar = Scalar::one();
    z.over(one.plus(one.plus(z.times(z)).sqrt()))
}

fn atan_unit(t: Scalar) -> (r: Scalar)
    ensures
        r@ == arctangent_unit(t@),
{
    let z: Scalar = half_of_angle(half_of_angle(t));
    let w: Scalar = z.times(z);
    let mut tail: Scalar = arctangent_term(11);
    let mut k: u32 = 11;
    while k > 1
        invariant
            1 <= k <= 11,
            tail@ == arctangent_tail(w@, k as int),
        decreases k,
    {
        k = k - 1;
        tail = arctangent_term(k).minus(w.times(tail));
    }
    Scalar::from_bits(FOUR).times(z.minus(z.times(w).times(tail)))
}

impl Scalar {
    /// The number π.
    pub fn pi() -> (r: Scalar)
        ensures
            r@ == PI,
    {
        Scalar::from_bits(PI)
    }

    /// Sine of an angle in radians that is not negative.
    fn sin_of_magnitude(self) -> (r: Scalar)
        ensures
            r@ == sine_of_magnitude(self@),
    {
        let pi: Scalar = Scalar::from_bits(PI);
        let half_pi: Scalar = Scalar::from_bits(HALF_PI);
        let two_pi: Scalar = Scalar::from_bits(TWO_PI);
        let turns: Scalar = self.over(two_pi).floor();
        let y: Scalar = self.minus(two_pi.times(turns));
        let folded: Scalar = if pi.lt(y) {
            y.minus(two_pi)
        } else {
            y
        };
        let first: Scalar = if half_pi.lt(folded) {
            pi.minus(folded)
        } else if folded.lt(half_pi.opposite()) {
            pi.opposite().minus(folded)
        } else {
            folded
        };
        let s: Scalar = sin_series(first);
        if s.is_nan() {
            Scalar::from_bits(NAN)
        } else {
            Scalar::one().min(Scalar::one().opposite().max(s))
        }
    }

    /// Sine of an angle in radians.
    pub fn sin(self) -> (r: Scalar)
        ensures
            r@ == sine(self@),
            is_nan(r@) || (at_most(negation(ONE), r@) && at_most(r@, ONE)),
    {
        proof {
            lemma_sine_bounds(self@);
        }
        let s: Scalar = self.abs().sin_of_magnitude();
        if s.is_nan() {
            Scalar::from_bits(NAN)
        } else if self.is_sign_negative() {
            s.opposite()
        } else {
            s
        }
    }

    /// Angle in radians of the point `(x, self)` against the positive x
    /// axis.
    pub fn atan2(self, x: Scalar) -> (r: Scalar)
        ensures
            r@ == angle(self@, x@),
            is_nan(r@) || (at_most(negation(PI), r@) && at_most(r@, PI)),
    {
        proof {
            lemma_angle_bounds(self@, x@);
        }
        if self.is_nan() || x.is_nan() {
            return Scalar::from_bits(NAN);
        }
        let ax: Scalar = x.abs();
        let ay: Scalar = self.abs();
        let steep: bool = ax.lt(ay);
        let slope: Scalar = if ax.bits() == ay.bits() {
            if ax.bits() == 0 {
                Scalar::zero()
            } else {
                Scalar::one()
            }
        } else if steep {
            ax.over(ay)
        } else {
            ay.over(ax)
        };
        let base: Scalar = atan_unit(slope);
        let octant: Scalar = if steep {
            Scalar::from_bits(HALF_PI).minus(base)
        } else {
            base
        };
        let half: Scalar = if x.is_sign_negative() {
            Scalar::from_bits(PI).minus(octant)
        } else {
            octant
        };
        if half.is_nan() {
            Scalar::from_bits(NAN)
        } else {
            let size: Scalar = Scalar::from_bits(PI).min(half.abs());
            proof {
                lemma_pi();
                let (h, m) = (half@, size@);
                assert(m & 0x7fff_ffff_ffff_ffff == m) by (bit_vector)
                    requires
                        m == 0x4009_21fb_5444_2d18u64 || m == h & 0x7fff_ffff_ffff_ffff,
                ;
            }
            size.with_sign(self.is_sign_negative())
        }
    }

    /// Arccosine in radians; no number for an argument beyond `[-1, 1]`.
    pub fn acos(self) -> (r: Scalar)
        ensures
            r@ == arccosine(self@),
            is_nan(r@) || (at_most(ZERO, r@) && at_most(r@, PI)),
    {
        proof {
            let y = absolute(root(difference(ONE, product(self@, self@))));
            lemma_angle_bounds(y, self@);
            lemma_not_negative(root(difference(ONE, product(self@, self@))), ZERO);
            lemma_pi();
            lemma_zero_and_one();
        }
        Scalar::one().minus(self.times(self)).sqrt().abs().atan2(self)
    }

    /// The fifth power.
    pub fn fifth_power(self) -> (r: Scalar)
        ensures
            r@ == power5(self@),
    {
        let square: Scalar = self.times(self);
        self.times(square.times(square))
    }
}

} // verus!
