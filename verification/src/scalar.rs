//! Double-precision binary floating-point numbers.
//!
//! A [`Scalar`] holds the bit pattern of an IEEE 754 binary64 number: one
//! sign bit, eleven exponent bits and fifty-two fraction bits. Sums,
//! differences, products, ratios and square roots are computed on the bit
//! patterns with integer arithmetic and rounded to the nearest number, ties
//! to the even one. Every operation that yields no number yields the one
//! pattern [`NAN`].
use vstd::prelude::*;
use vstd::std_specs::cmp::PartialEqSpecImpl;
use vstd::std_specs::ops::{AddSpecImpl, DivSpecImpl, MulSpecImpl, NegSpecImpl, SubSpecImpl};

verus! {

/// The sign bit.
pub const SIGN: u64 = 0x8000_0000_0000_0000;

/// All bits but the sign bit.
pub const MAGNITUDE: u64 = 0x7fff_ffff_ffff_ffff;

/// The exponent bits; also the pattern of positive infinity.
pub const INFINITY: u64 = 0x7ff0_0000_0000_0000;

/// The fraction bits.
pub const FRACTION: u64 = 0x000f_ffff_ffff_ffff;

/// The bit that a normal number holds above its fraction.
pub const HIDDEN: u64 = 0x0010_0000_0000_0000;

/// The pattern that stands for "not a number".
pub const NAN: u64 = 0x7ff8_0000_0000_0000;

/// The pattern of 0.
pub const ZERO: u64 = 0;

/// The pattern of 0.5.
pub const HALF: u64 = 0x3fe0_0000_0000_0000;

/// The pattern of 1.
pub const ONE: u64 = 0x3ff0_0000_0000_0000;

/// The pattern of 2.
pub const TWO: u64 = 0x4000_0000_0000_0000;

/// The pattern of 10.
pub const TEN: u64 = 0x4024_0000_0000_0000;

/// The pattern without its sign bit.
pub open spec fn absolute(a: u64) -> u64 {
    a & MAGNITUDE
}

/// The pattern with its sign bit flipped.
pub open spec fn negation(a: u64) -> u64 {
    a ^ SIGN
}

/// Whether the sign bit is set.
pub open spec fn is_negative(a: u64) -> bool {
    a & SIGN != 0
}

/// Whether the pattern stands for no number.
pub open spec fn is_nan(a: u64) -> bool {
    absolute(a) > INFINITY
}

/// Whether the pattern stands for an infinite number.
pub open spec fn is_infinite(a: u64) -> bool {
    absolute(a) == INFINITY
}

/// Whether the pattern stands for zero, of either sign.
pub open spec fn is_zero(a: u64) -> bool {
    absolute(a) == 0
}

/// The place of a number on the number line: patterns of numbers are
/// ordered as these integers are, and both zeros share the place 0.
pub open spec fn order(a: u64) -> int {
    if is_negative(a) {
        -(absolute(a) as int)
    } else {
        absolute(a) as int
    }
}

/// `a < b`; false where either is no number.
pub open spec fn below(a: u64, b: u64) -> bool {
    !is_nan(a) && !is_nan(b) && order(a) < order(b)
}

/// `a <= b`; false where either is no number.
pub open spec fn at_most(a: u64, b: u64) -> bool {
    !is_nan(a) && !is_nan(b) && order(a) <= order(b)
}

/// `a == b` as numbers: false where either is no number, true of the two
/// zeros.
pub open spec fn same(a: u64, b: u64) -> bool {
    !is_nan(a) && !is_nan(b) && order(a) == order(b)
}

/// The magnitude `m` with the given sign.
pub open spec fn signed(negative: bool, m: u64) -> u64 {
    if negative {
        m | SIGN
    } else {
        m
    }
}

/// The smaller of two numbers; the other one where one is no number.
pub open spec fn lesser(a: u64, b: u64) -> u64 {
    if is_nan(a) {
        b
    } else if is_nan(b) {
        a
    } else if order(b) < order(a) {
        b
    } else {
        a
    }
}

/// The larger of two numbers; the other one where one is no number.
pub open spec fn greater(a: u64, b: u64) -> u64 {
    if is_nan(a) {
        b
    } else if is_nan(b) {
        a
    } else if order(a) < order(b) {
        b
    } else {
        a
    }
}

/// The exponent bits of a magnitude, as a number.
pub open spec fn exponent_field(x: u64) -> u64 {
    (x >> 52) & 0x7ff
}

/// The integer `m` of a finite magnitude `m * 2^e`.
pub open spec fn significand(x: u64) -> u64 {
    if exponent_field(x) == 0 {
        x & FRACTION
    } else {
        (x & FRACTION) | HIDDEN
    }
}

/// The exponent `e` of a finite magnitude `m * 2^e`.
pub open spec fn scale(x: u64) -> int {
    if exponent_field(x) == 0 {
        -1074
    } else {
        exponent_field(x) - 1075
    }
}

/// Number of bits of `w` up to its highest set bit, among the lowest `i`.
pub open spec fn length_from(w: u128, i: nat) -> nat
    decreases i,
{
    if i == 0 {
        0
    } else if (w >> ((i - 1) as u32)) != 0 {
        i
    } else {
        length_from(w, (i - 1) as nat)
    }
}

/// Number of bits of `w` up to its highest set bit; zero for zero.
pub open spec fn length(w: u128) -> nat {
    length_from(w, 128)
}

/// `w / 2^s`, rounded to the nearest integer, ties to the even one.
pub open spec fn round_shift(w: u128, s: u32) -> u128 {
    if s == 0 {
        w
    } else if s >= 128 {
        0
    } else {
        let q = w >> s;
        let rest = w & (((1u128 << s) - 1) as u128);
        let half = 1u128 << ((s - 1) as u32);
        if rest > half || (rest == half && q & 1 == 1) {
            (q + 1) as u128
        } else {
            q
        }
    }
}

/// The pattern of the number nearest to `w * 2^e` with the given sign, ties
/// to the even fraction: infinity where that is beyond the largest number,
/// and a number with fewer fraction bits below the smallest normal one.
/// The definition is total: it gives zero for a shift by 128 bits or more
/// and cuts a rounded significand at `2^53`, neither of which arises for
/// the integers that the arithmetic hands to it.
#[verifier::opaque]
pub open spec fn pack(negative: bool, e: int, w: u128) -> u64 {
    if w == 0 {
        signed(negative, 0)
    } else {
        let top = e + length(w) - 1;
        let quantum = if top < -1022 {
            -1074
        } else {
            top - 52
        };
        let s = quantum - e;
        let rounded: u128 = if s > 0 {
            if s >= 128 {
                0
            } else {
                round_shift(w, s as u32)
            }
        } else if -s >= 128 {
            0
        } else {
            w << ((-s) as u32)
        };
        let m: u64 = if rounded > HIDDEN * 2 {
            (HIDDEN * 2) as u64
        } else {
            rounded as u64
        };
        let magnitude: u64 = if top < -1022 {
            m
        } else if top + 1022 >= 2046 {
            INFINITY
        } else {
            let b = (top + 1022) * HIDDEN + m;
            if b >= INFINITY {
                INFINITY
            } else {
                b as u64
            }
        };
        signed(negative, magnitude)
    }
}

/// The significand of a finite magnitude that is not zero, shifted so that
/// it has 53 bits.
pub open spec fn normal_significand(x: u64) -> u128 {
    let l = length(significand(x) as u128);
    if l <= 53 {
        (significand(x) as u128) << ((53 - l) as u32)
    } else {
        significand(x) as u128
    }
}

/// The exponent that goes with [`normal_significand`].
pub open spec fn normal_scale(x: u64) -> int {
    let l = length(significand(x) as u128);
    if l <= 53 {
        scale(x) - (53 - l)
    } else {
        scale(x)
    }
}

/// The smaller addend of a sum, shifted down by `d` bits to the exponent of
/// the larger one; bits that are shifted out leave a one in the lowest
/// place.
pub open spec fn aligned(w: u128, d: int) -> u128 {
    if d <= 0 {
        w
    } else if d >= 120 {
        1
    } else {
        let kept = w >> (d as u32);
        if w & (((1u128 << (d as u32)) - 1) as u128) != 0 {
            kept | 1
        } else {
            kept
        }
    }
}

/// Sum of two numbers, rounded to the nearest number. Infinities of
/// opposite sign add up to no number; equal numbers of opposite sign add up
/// to plus zero.
#[verifier::opaque]
pub open spec fn sum(a: u64, b: u64) -> u64 {
    let (x, y) = (absolute(a), absolute(b));
    if is_nan(a) || is_nan(b) {
        NAN
    } else if x == INFINITY {
        if y == INFINITY && is_negative(a) != is_negative(b) {
            NAN
        } else {
            a
        }
    } else if y == INFINITY {
        b
    } else if x == 0 {
        if y == 0 {
            if is_negative(a) && is_negative(b) {
                SIGN
            } else {
                0
            }
        } else {
            b
        }
    } else if y == 0 {
        a
    } else {
        let (large, small) = if x >= y {
            (a, b)
        } else {
            (b, a)
        };
        let (p, q) = (absolute(large), absolute(small));
        let wide = (significand(p) as u128) << 66;
        let narrow = aligned((significand(q) as u128) << 66, scale(p) - scale(q));
        if is_negative(large) == is_negative(small) {
            pack(is_negative(large), scale(p) - 66, (wide + narrow) as u128)
        } else if wide == narrow {
            0
        } else if wide > narrow {
            pack(is_negative(large), scale(p) - 66, (wide - narrow) as u128)
        } else {
            pack(is_negative(small), scale(p) - 66, (narrow - wide) as u128)
        }
    }
}

/// Difference of two numbers, rounded to the nearest number.
pub open spec fn difference(a: u64, b: u64) -> u64 {
    sum(a, negation(b))
}

/// Product of two numbers, rounded to the nearest number.
#[verifier::opaque]
pub open spec fn product(a: u64, b: u64) -> u64 {
    let negative = is_negative(a) != is_negative(b);
    let (x, y) = (absolute(a), absolute(b));
    if is_nan(a) || is_nan(b) {
        NAN
    } else if x == INFINITY || y == INFINITY {
        if x == 0 || y == 0 {
            NAN
        } else {
            signed(negative, INFINITY)
        }
    } else if x == 0 || y == 0 {
        signed(negative, 0)
    } else {
        pack(negative, scale(x) + scale(y), (significand(x) * significand(y)) as u128)
    }
}

/// Ratio of two numbers, rounded to the nearest number. A number that is
/// not zero divided by zero is infinite; zero by zero is no number. The
/// quotient of the significands is taken to 65 bits, with one more bit that
/// tells whether anything remains.
#[verifier::opaque]
pub open spec fn ratio(a: u64, b: u64) -> u64 {
    let negative = is_negative(a) != is_negative(b);
    let (x, y) = (absolute(a), absolute(b));
    if is_nan(a) || is_nan(b) {
        NAN
    } else if x == INFINITY {
        if y == INFINITY {
            NAN
        } else {
            signed(negative, INFINITY)
        }
    } else if y == INFINITY {
        signed(negative, 0)
    } else if y == 0 {
        if x == 0 {
            NAN
        } else {
            signed(negative, INFINITY)
        }
    } else if x == 0 {
        signed(negative, 0)
    } else {
        let n = normal_significand(x) << 64;
        let d = normal_significand(y);
        if d == 0 {
            NAN
        } else {
            let q = n / d;
            let w = if n % d != 0 {
                (q << 1) | 1
            } else {
                q << 1
            };
            pack(negative, normal_scale(x) - normal_scale(y) - 65, w)
        }
    }
}

/// `r` is the square root of `n`, rounded down.
pub open spec fn is_floor_root(r: int, n: int) -> bool {
    r >= 0 && r * r <= n && n < (r + 1) * (r + 1)
}

/// The square root of `n`, rounded down; zero for a negative `n`.
pub open spec fn floor_root(n: int) -> int {
    if n <= 0 {
        0
    } else {
        choose|r: int| is_floor_root(r, n)
    }
}

/// Square root of a number, rounded to the nearest number; no number for a
/// negative one.
#[verifier::opaque]
pub open spec fn root(a: u64) -> u64 {
    if is_nan(a) {
        NAN
    } else if absolute(a) == 0 {
        a
    } else if is_negative(a) {
        NAN
    } else if a == INFINITY {
        INFINITY
    } else {
        let odd = (normal_scale(a) + 2000) % 2 == 1;
        let m = if odd {
            normal_significand(a) << 1
        } else {
            normal_significand(a)
        };
        let e = if odd {
            normal_scale(a) - 1
        } else {
            normal_scale(a)
        };
        let n = m << 60;
        let r = floor_root(n as int);
        let w = if r * r != n {
            ((r as u128) << 1) | 1
        } else {
            (r as u128) << 1
        };
        pack(false, (e + 4000 - 60) / 2 - 2000 - 1, w)
    }
}

/// The largest whole number that is not larger than `a`.
#[verifier::opaque]
pub open spec fn floor(a: u64) -> u64 {
    let x = absolute(a);
    if is_nan(a) {
        NAN
    } else if x == INFINITY || x == 0 || scale(x) >= 0 {
        a
    } else {
        let k = -scale(x);
        let m = significand(x);
        let whole: u64 = if k >= 64 {
            0
        } else {
            m >> (k as u64)
        };
        let exact = k < 64 && m & (((1u64 << (k as u64)) - 1) as u64) == 0;
        if is_negative(a) && !exact {
            pack(true, 0, (whole + 1) as u128)
        } else {
            pack(is_negative(a), 0, whole as u128)
        }
    }
}

/// The whole number that `a` stands for, where `a` is whole: clamped into
/// the range of 32-bit integers, and zero where `a` is no number.
#[verifier::opaque]
pub open spec fn whole_part(a: u64) -> int {
    let x = absolute(a);
    if is_nan(a) || x == 0 {
        0
    } else if x == INFINITY || scale(x) >= 11 {
        if is_negative(a) {
            -2147483648
        } else {
            2147483647
        }
    } else {
        let m = significand(x);
        let size: u64 = if scale(x) >= 0 {
            m << (scale(x) as u64)
        } else if -scale(x) >= 64 {
            0
        } else {
            m >> ((-scale(x)) as u64)
        };
        if is_negative(a) {
            if size >= 2147483648 {
                -2147483648
            } else {
                -(size as int)
            }
        } else if size >= 2147483647 {
            2147483647
        } else {
            size as int
        }
    }
}

/// `m` stands for the opposite of the number that `a` stands for; where
/// `a` is no number, neither is `m`.
pub open spec fn mirrors(m: u64, a: u64) -> bool {
    if is_nan(a) {
        is_nan(m)
    } else {
        !is_nan(m) && order(m) == -order(a)
    }
}

/// Flipping the sign bit keeps the magnitude and gives the opposite number.
pub proof fn lemma_negation(a: u64)
    ensures
        absolute(negation(a)) == absolute(a),
        is_negative(negation(a)) == !is_negative(a),
        is_nan(negation(a)) == is_nan(a),
        negation(negation(a)) == a,
        mirrors(negation(a), a),
{
    assert((a ^ 0x8000_0000_0000_0000) ^ 0x8000_0000_0000_0000 == a) by (bit_vector);
    assert((a ^ 0x8000_0000_0000_0000) & 0x7fff_ffff_ffff_ffff == a & 0x7fff_ffff_ffff_ffff
        && ((a ^ 0x8000_0000_0000_0000) & 0x8000_0000_0000_0000 != 0) == !(a & 0x8000_0000_0000_0000 != 0)
        && (a ^ 0x8000_0000_0000_0000) ^ 0x8000_0000_0000_0000 == a) by (bit_vector);
}

/// A magnitude with a sign: its parts, and what the other sign gives.
pub proof fn lemma_signed(negative: bool, m: u64)
    requires
        m <= INFINITY,
    ensures
        absolute(signed(negative, m)) == m,
        is_negative(signed(negative, m)) == negative,
        !is_nan(signed(negative, m)),
        signed(!negative, m) == negation(signed(negative, m)),
{
    assert(m & 0x7fff_ffff_ffff_ffff == m && m & 0x8000_0000_0000_0000 == 0 && (m
        | 0x8000_0000_0000_0000) & 0x7fff_ffff_ffff_ffff == m && (m | 0x8000_0000_0000_0000)
        & 0x8000_0000_0000_0000 != 0 && (m | 0x8000_0000_0000_0000) ^ 0x8000_0000_0000_0000 == m
        && m ^ 0x8000_0000_0000_0000 == m | 0x8000_0000_0000_0000) by (bit_vector)
        requires
            m <= 0x7ff0_0000_0000_0000,
    ;
}

/// The magnitude that [`pack`] gives is a number, whatever the sign, and the
/// other sign gives the opposite number.
pub proof fn lemma_pack(negative: bool, e: int, w: u128)
    ensures
        absolute(pack(negative, e, w)) <= INFINITY,
        is_negative(pack(negative, e, w)) == negative,
        !is_nan(pack(negative, e, w)),
        pack(!negative, e, w) == negation(pack(negative, e, w)),
        absolute(pack(negative, e, w)) == pack(false, e, w),
{
    reveal(pack);
    let m = pack(false, e, w);
    assert(m <= INFINITY);
    lemma_signed(negative, m);
    lemma_signed(false, m);
    assert(pack(negative, e, w) == signed(negative, m));
    assert(pack(!negative, e, w) == signed(!negative, m));
}

/// A product with the opposite of a factor is the opposite of the product.
pub proof fn lemma_product_negated(a: u64, b: u64)
    ensures
        mirrors(product(negation(a), b), product(a, b)),
        mirrors(product(a, negation(b)), product(a, b)),
{
    reveal(product);
    lemma_negation(a);
    lemma_negation(b);
    let (x, y) = (absolute(a), absolute(b));
    let n = is_negative(a) != is_negative(b);
    lemma_signed(n, INFINITY);
    lemma_signed(n, 0);
    lemma_signed(!n, INFINITY);
    lemma_signed(!n, 0);
    let w = (significand(x) * significand(y)) as u128;
    lemma_pack(n, scale(x) + scale(y), w);
    lemma_pack(!n, scale(x) + scale(y), w);
    lemma_negation(product(a, b));
    assert(0x7ff8_0000_0000_0000u64 & 0x7fff_ffff_ffff_ffff == 0x7ff8_0000_0000_0000)
        by (bit_vector);
}

/// Of two opposite numbers one is the other with its sign bit flipped,
/// unless both are zero or neither is a number.
pub proof fn lemma_mirror_shape(m: u64, a: u64)
    requires
        mirrors(m, a),
    ensures
        m == negation(a) || (is_zero(m) && is_zero(a)) || (is_nan(m) && is_nan(a)),
{
    lemma_negation(a);
    if !is_nan(a) && !is_zero(a) {
        assert(absolute(m) == absolute(a));
        assert(is_negative(m) != is_negative(a));
        let (p, q) = (m, a);
        assert(p == q ^ 0x8000_0000_0000_0000) by (bit_vector)
            requires
                p & 0x7fff_ffff_ffff_ffff == q & 0x7fff_ffff_ffff_ffff,
                (p & 0x8000_0000_0000_0000 != 0) != (q & 0x8000_0000_0000_0000 != 0),
        ;
    }
}

/// The sum of the opposites of two numbers is the opposite of their sum.
pub proof fn lemma_sum_mirrors(m: u64, a: u64, n: u64, b: u64)
    requires
        mirrors(m, a),
        mirrors(n, b),
    ensures
        mirrors(sum(m, n), sum(a, b)),
{
    reveal(sum);
    lemma_negation(a);
    lemma_negation(b);
    lemma_mirror_shape(m, a);
    lemma_mirror_shape(n, b);
    assert(0x7ff8_0000_0000_0000u64 & 0x7fff_ffff_ffff_ffff == 0x7ff8_0000_0000_0000)
        by (bit_vector);
    assert(0x8000_0000_0000_0000u64 & 0x7fff_ffff_ffff_ffff == 0 && 0u64
        & 0x7fff_ffff_ffff_ffff == 0 && 0u64 & 0x8000_0000_0000_0000 == 0) by (bit_vector);
    let (x, y) = (absolute(a), absolute(b));
    if !is_nan(a) && !is_nan(b) && x != INFINITY && y != INFINITY && x != 0 && y != 0 {
        let (large, small) = if x >= y {
            (a, b)
        } else {
            (b, a)
        };
        let (p, q) = (absolute(large), absolute(small));
        let wide = (significand(p) as u128) << 66;
        let narrow = aligned((significand(q) as u128) << 66, scale(p) - scale(q));
        let e = scale(p) - 66;
        lemma_pack(is_negative(large), e, (wide + narrow) as u128);
        lemma_pack(is_negative(large), e, (wide - narrow) as u128);
        lemma_pack(is_negative(small), e, (narrow - wide) as u128);
        lemma_pack(!is_negative(large), e, (wide + narrow) as u128);
        lemma_pack(!is_negative(large), e, (wide - narrow) as u128);
        lemma_pack(!is_negative(small), e, (narrow - wide) as u128);
        lemma_negation(sum(a, b));
    }
}

/// The order of the addends does not matter to a sum, nor the order of the
/// factors to a product.
pub proof fn lemma_commutes(a: u64, b: u64)
    ensures
        sum(a, b) == sum(b, a),
        product(a, b) == product(b, a),
{
    reveal(sum);
    reveal(product);
    let (x, y) = (absolute(a), absolute(b));
    assert(significand(x) * significand(y) == significand(y) * significand(x))
        by (nonlinear_arith);
    if x == y && is_negative(a) != is_negative(b) {
        let w = (significand(x) as u128) << 66;
        assert(aligned(w, 0) == w);
    }
    if x == INFINITY && y == INFINITY && is_negative(a) == is_negative(b) {
        assert(a == b) by (bit_vector)
            requires
                a & 0x7fff_ffff_ffff_ffff == b & 0x7fff_ffff_ffff_ffff,
                (a & 0x8000_0000_0000_0000 != 0) == (b & 0x8000_0000_0000_0000 != 0),
        ;
    }
}

/// The sum and the product of two numbers whose sign bits are clear have
/// clear sign bits, and so has every magnitude.
pub proof fn lemma_not_negative(a: u64, b: u64)
    ensures
        !is_negative(absolute(a)),
        !is_negative(a) && !is_negative(b) ==> !is_negative(sum(a, b)) && !is_negative(
            product(a, b),
        ),
{
    reveal(sum);
    reveal(product);
    assert((a & 0x7fff_ffff_ffff_ffff) & 0x8000_0000_0000_0000 == 0) by (bit_vector);
    assert(0x7ff8_0000_0000_0000u64 & 0x8000_0000_0000_0000 == 0 && 0u64
        & 0x8000_0000_0000_0000 == 0) by (bit_vector);
    lemma_signed(false, INFINITY);
    lemma_signed(false, 0);
    if !is_negative(a) && !is_negative(b) {
        let (x, y) = (absolute(a), absolute(b));
        lemma_pack(false, scale(x) + scale(y), (significand(x) * significand(y)) as u128);
        let (large, small) = if x >= y {
            (a, b)
        } else {
            (b, a)
        };
        let (p, q) = (absolute(large), absolute(small));
        let wide = (significand(p) as u128) << 66;
        let narrow = aligned((significand(q) as u128) << 66, scale(p) - scale(q));
        lemma_pack(false, scale(p) - 66, (wide + narrow) as u128);
    }
}

/// The length of an integer that is not zero marks its highest set bit:
/// the bit below the length is set, and no bit at or above it.
pub proof fn lemma_length(w: u128)
    requires
        w != 0,
    ensures
        1 <= length(w) <= 128,
        w >> ((length(w) - 1) as u32) != 0,
        length(w) < 128 ==> w >> (length(w) as u32) == 0,
{
    lemma_length_from(w, 128);
}

proof fn lemma_length_from(w: u128, i: nat)
    requires
        w != 0,
        i <= 128,
        i < 128 ==> w >> (i as u32) == 0,
    ensures
        1 <= length_from(w, i) <= i,
        w >> ((length_from(w, i) - 1) as u32) != 0,
        length_from(w, i) < 128 ==> w >> (length_from(w, i) as u32) == 0,
    decreases i,
{
    if i == 0 {
        assert(w >> 0u32 == w) by (bit_vector);
    } else if (w >> ((i - 1) as u32)) != 0 {
    } else {
        lemma_length_from(w, (i - 1) as nat);
    }
}

/// An integer below `2^k` is at most `k` bits long.
pub proof fn lemma_length_bound(w: u128, k: u32)
    requires
        k < 128,
        w >> k == 0,
    ensures
        length(w) <= k,
{
    if w != 0 {
        lemma_length(w);
        let l = length(w);
        if l > k {
            let j = (l - 1) as u32;
            assert(w >> j == 0) by (bit_vector)
                requires
                    w >> k == 0,
                    k <= j < 128,
            ;
        }
    } else {
        lemma_length_zero();
    }
}

/// Zero has length zero.
pub proof fn lemma_length_zero()
    ensures
        length(0) == 0,
{
    lemma_length_from_zero(128);
}

proof fn lemma_length_from_zero(i: nat)
    requires
        i <= 128,
    ensures
        length_from(0, i) == 0,
    decreases i,
{
    if i > 0 {
        let j = (i - 1) as u32;
        assert(0u128 >> j == 0) by (bit_vector);
        lemma_length_from_zero((i - 1) as nat);
    }
}

/// A number between zero and one: its sign bit is clear and its pattern is
/// at most that of one.
pub open spec fn is_fraction(a: u64) -> bool {
    a <= ONE
}

/// A number between zero and one is a number, at least zero and at most
/// one.
pub proof fn lemma_fraction_order(a: u64)
    requires
        is_fraction(a),
    ensures
        at_most(ZERO, a),
        at_most(a, ONE),
{
    lemma_zero_and_one();
    assert(a & 0x7fff_ffff_ffff_ffff == a && a & 0x8000_0000_0000_0000 == 0) by (bit_vector)
        requires
            a <= 0x3ff0_0000_0000_0000,
    ;
}

/// The parts of a number between zero and one, where it is neither.
pub proof fn lemma_fraction_parts(a: u64)
    requires
        0 < a < ONE,
    ensures
        absolute(a) == a,
        !is_negative(a),
        !is_nan(a),
        significand(a) < 0x20_0000_0000_0000,
        significand(a) != 0,
        scale(a) <= -53,
{
    assert(a & 0x7fff_ffff_ffff_ffff == a && a & 0x8000_0000_0000_0000 == 0 && (a >> 52) & 0x7ff
        <= 1022 && ((a & 0x000f_ffff_ffff_ffff) | 0x0010_0000_0000_0000) < 0x20_0000_0000_0000
        && (a & 0x000f_ffff_ffff_ffff) < 0x20_0000_0000_0000 && ((a & 0x000f_ffff_ffff_ffff)
        | 0x0010_0000_0000_0000) != 0 && ((a >> 52) & 0x7ff == 0 ==> a & 0x000f_ffff_ffff_ffff
        != 0)) by (bit_vector)
        requires
            0 < a < 0x3ff0_0000_0000_0000,
    ;
}

/// The product of two numbers strictly between zero and one lies between
/// zero and one.
pub proof fn lemma_product_below_one(a: u64, b: u64)
    requires
        0 < a < ONE,
        0 < b < ONE,
    ensures
        is_fraction(product(a, b)),
{
    reveal(product);
    reveal(pack);
    lemma_fraction_parts(a);
    lemma_fraction_parts(b);
    let (ma, mb) = (significand(a), significand(b));
    assert(0 < ma * mb < 0x20_0000_0000_0000 * 0x20_0000_0000_0000) by (nonlinear_arith)
        requires
            0 < ma < 0x20_0000_0000_0000,
            0 < mb < 0x20_0000_0000_0000,
    ;
    let w = (ma * mb) as u128;
    assert(w >> 106u32 == 0) by (bit_vector)
        requires
            w < 0x400_0000_0000_0000_0000_0000_0000u128,
    ;
    lemma_length_bound(w, 106);
    let e = scale(a) + scale(b);
    let top = e + length(w) - 1;
    assert(top <= -1);
    let r = pack(false, e, w);
    assert(r <= ONE);
}

/// One times a number between zero and one is that number.
pub proof fn lemma_product_with_one(b: u64)
    requires
        is_fraction(b),
    ensures
        product(ONE, b) == b,
        product(b, ONE) == b,
{
    reveal(product);
    reveal(pack);
    lemma_commutes(ONE, b);
    let one = 0x3ff0_0000_0000_0000u64;
    assert(one & 0x7fff_ffff_ffff_ffff == one && one & 0x8000_0000_0000_0000 == 0 && (one >> 52)
        & 0x7ff == 1023 && one & 0x000f_ffff_ffff_ffff == 0 && (0u64 | 0x0010_0000_0000_0000)
        == 0x0010_0000_0000_0000) by (bit_vector)
        requires
            one == 0x3ff0_0000_0000_0000u64,
    ;
    assert(b & 0x7fff_ffff_ffff_ffff == b && b & 0x8000_0000_0000_0000 == 0) by (bit_vector)
        requires
            b <= 0x3ff0_0000_0000_0000,
    ;
    if b != 0 {
        let field = exponent_field(b);
        let frac = b & FRACTION;
        let m = significand(b);
        assert(field <= 1023 && frac < 0x10_0000_0000_0000 && b == field * 0x10_0000_0000_0000
            + frac && (frac | 0x0010_0000_0000_0000) == frac + 0x10_0000_0000_0000 && (field == 0
            ==> frac != 0)) by (bit_vector)
            requires
                field == (b >> 52) & 0x7ff,
                frac == b & 0x000f_ffff_ffff_ffff,
                0 < b <= 0x3ff0_0000_0000_0000,
        ;
        assert(HIDDEN * m == 0x10_0000_0000_0000 * m);
        assert(0 < 0x10_0000_0000_0000 * m < 0x10_0000_0000_0000 * 0x20_0000_0000_0000)
            by (nonlinear_arith)
            requires
                0 < m < 0x20_0000_0000_0000,
        ;
        let w = (HIDDEN * m) as u128;
        let wide = m as u128;
        assert(w == wide << 52u32 && w >> 52u32 == wide && w & (((1u128 << 52u32) - 1) as u128)
            == 0 && (1u128 << 51u32) != 0 && (wide >= 0x10_0000_0000_0000 ==> w >> 104u32 != 0)
            && w >> 105u32 == 0 && (wide < 0x10_0000_0000_0000 ==> w >> 104u32 == 0)) by (bit_vector)
            requires
                w == 0x10_0000_0000_0000u128 * wide,
                wide < 0x20_0000_0000_0000,
        ;
        lemma_length(w);
        let l = length(w);
        lemma_length_bound(w, 105);
        if field != 0 {
            if l < 105 {
                let j = l as u32;
                assert(w >> 104u32 == 0) by (bit_vector)
                    requires
                        w >> j == 0,
                        j <= 104,
                ;
            }
            assert(l == 105);
            assert(round_shift(w, 52) == wide);
            assert(pack(false, scale(ONE) + scale(b), w) == b);
        } else {
            lemma_length_bound(w, 104);
            assert(round_shift(w, 52) == wide);
            assert(pack(false, scale(ONE) + scale(b), w) == b);
        }
    }
}

/// The product of two numbers between zero and one lies between zero and
/// one.
pub proof fn lemma_product_of_fractions(a: u64, b: u64)
    requires
        is_fraction(a),
        is_fraction(b),
    ensures
        is_fraction(product(a, b)),
{
    if a == ONE {
        lemma_product_with_one(b);
    } else if b == ONE {
        lemma_product_with_one(a);
    } else if a == 0 || b == 0 {
        reveal(product);
        assert(a & 0x7fff_ffff_ffff_ffff == a && a & 0x8000_0000_0000_0000 == 0) by (bit_vector)
            requires
                a <= 0x3ff0_0000_0000_0000,
        ;
        assert(b & 0x7fff_ffff_ffff_ffff == b && b & 0x8000_0000_0000_0000 == 0) by (bit_vector)
            requires
                b <= 0x3ff0_0000_0000_0000,
        ;
    } else {
        lemma_product_below_one(a, b);
    }
}

/// One and one are two.
pub proof fn lemma_one_plus_one()
    ensures
        sum(ONE, ONE) == TWO,
{
    reveal(sum);
    reveal(pack);
    reveal_with_fuel(length_from, 12);
    let one = 0x3ff0_0000_0000_0000u64;
    assert(one & 0x7fff_ffff_ffff_ffff == one && one & 0x8000_0000_0000_0000 == 0 && (one >> 52)
        & 0x7ff == 1023 && one & 0x000f_ffff_ffff_ffff == 0 && (0u64 | 0x0010_0000_0000_0000)
        == 0x0010_0000_0000_0000) by (bit_vector)
        requires
            one == 0x3ff0_0000_0000_0000u64,
    ;
    assert(significand(ONE) == HIDDEN);
    assert(scale(ONE) == -52);
    let wide: u128 = (HIDDEN as u128) << 66;
    assert(wide == 0x40_0000_0000_0000_0000_0000_0000_0000) by (bit_vector)
        requires
            wide == (0x0010_0000_0000_0000u128) << 66,
    ;
    assert(aligned(wide, 0) == wide);
    let w: u128 = 0x80_0000_0000_0000_0000_0000_0000_0000;
    assert((wide + wide) as u128 == w);
    assert(w >> 127u32 == 0 && w >> 126u32 == 0 && w >> 125u32 == 0 && w >> 124u32 == 0 && w
        >> 123u32 == 0 && w >> 122u32 == 0 && w >> 121u32 == 0 && w >> 120u32 == 0 && w
        >> 119u32 == 1) by (bit_vector)
        requires
            w == 0x80_0000_0000_0000_0000_0000_0000_0000u128,
    ;
    assert(length(w) == 120);
    assert(w >> 67u32 == 0x10_0000_0000_0000 && w & (((1u128 << 67u32) - 1) as u128) == 0)
        by (bit_vector)
        requires
            w == 0x80_0000_0000_0000_0000_0000_0000_0000u128,
    ;
    assert((1u128 << 66u32) == 0x4_0000_0000_0000_0000 && (1u128 << 67u32)
        == 0x8_0000_0000_0000_0000) by (bit_vector);
    assert(round_shift(w, 67) == 0x10_0000_0000_0000);
    assert(pack(false, -118, w) == 0x4000_0000_0000_0000);
}

/// Zero and one are numbers, zero is not negative, and zero lies below one
/// and above minus one.
pub proof fn lemma_zero_and_one()
    ensures
        !is_nan(ZERO),
        !is_nan(ONE),
        order(ZERO) == 0,
        order(ONE) == ONE,
        order(negation(ONE)) == -ONE,
        at_most(ZERO, ZERO),
        below(ZERO, ONE),
        below(negation(ONE), ZERO),
        below(negation(ONE), ONE),
        at_most(negation(ONE), ZERO),
        difference(ONE, negation(ONE)) == TWO,
        !is_infinite(TWO),
        is_nan(NAN),
        product(ZERO, ZERO) == ZERO,
        sum(ZERO, ZERO) == ZERO,
{
    reveal(product);
    reveal(sum);
    lemma_one_plus_one();
    assert(0x4000_0000_0000_0000u64 & 0x7fff_ffff_ffff_ffff == 0x4000_0000_0000_0000
        && 0xbff0_0000_0000_0000u64 ^ 0x8000_0000_0000_0000 == 0x3ff0_0000_0000_0000
        && 0u64 & 0x7fff_ffff_ffff_ffff == 0
        && 0u64 & 0x8000_0000_0000_0000 == 0
        && 0x3ff0_0000_0000_0000u64 & 0x7fff_ffff_ffff_ffff == 0x3ff0_0000_0000_0000
        && 0x3ff0_0000_0000_0000u64 & 0x8000_0000_0000_0000 == 0
        && 0x3ff0_0000_0000_0000u64 ^ 0x8000_0000_0000_0000 == 0xbff0_0000_0000_0000
        && 0xbff0_0000_0000_0000u64 & 0x7fff_ffff_ffff_ffff == 0x3ff0_0000_0000_0000
        && 0xbff0_0000_0000_0000u64 & 0x8000_0000_0000_0000 != 0
        && 0x7ff8_0000_0000_0000u64 & 0x7fff_ffff_ffff_ffff == 0x7ff8_0000_0000_0000) by (bit_vector);
}

/// Every natural number has a square root rounded down.
proof fn lemma_floor_root_exists(n: nat)
    ensures
        exists|r: int| is_floor_root(r, n as int),
    decreases n,
{
    if n == 0 {
        assert(is_floor_root(0, 0));
    } else {
        let below: int = n - 1;
        lemma_floor_root_exists(below as nat);
        let r = choose|r: int| is_floor_root(r, below);
        if n < (r + 1) * (r + 1) {
            assert(is_floor_root(r, n as int));
        } else {
            let s = r + 1;
            assert(s * s <= n);
            assert(n < (s + 1) * (s + 1)) by (nonlinear_arith)
                requires
                    n == s * s,
                    s >= 1,
            ;
            assert(is_floor_root(s, n as int));
        }
    }
}

/// The rounded square root is the one number whose square is at most `n`
/// while the square of the next number exceeds `n`.
pub proof fn lemma_floor_root(n: int)
    requires
        n >= 0,
    ensures
        is_floor_root(floor_root(n), n),
        forall|r: int| is_floor_root(r, n) ==> r == floor_root(n),
{
    if n == 0 {
        assert(is_floor_root(0, 0));
    } else {
        lemma_floor_root_exists(n as nat);
    }
    let found = floor_root(n);
    assert forall|r: int| is_floor_root(r, n) implies r == found by {
        if r < found {
            assert((r + 1) * (r + 1) <= found * found) by (nonlinear_arith)
                requires
                    0 <= r,
                    r + 1 <= found,
            ;
        } else if found < r {
            assert((found + 1) * (found + 1) <= r * r) by (nonlinear_arith)
                requires
                    0 <= found,
                    found + 1 <= r,
            ;
        }
    }
}

/// The square root of a wide integer, rounded down.
pub fn floor_sqrt(n: u128) -> (r: u128)
    ensures
        is_floor_root(r as int, n as int),
        r == floor_root(n as int),
        r < 0x1_0000_0000_0000_0000,
{
    let mut low: u128 = 0;
    let mut bit: u32 = 64;
    let ghost mut span: int = 0x1_0000_0000_0000_0000;
    assert((1u128 << 64u32) == 0x1_0000_0000_0000_0000) by (bit_vector);
    assert(n < (low + span) * (low + span)) by (nonlinear_arith)
        requires
            n <= 0xffff_ffff_ffff_ffff_ffff_ffff_ffff_ffff,
            low == 0,
            span == 0x1_0000_0000_0000_0000,
    ;
    while bit > 0
        invariant
            bit <= 64,
            span == (1u128 << bit),
            1 <= span <= 0x1_0000_0000_0000_0000,
            low + span <= 0x1_0000_0000_0000_0000,
            low * low <= n,
            n < (low + span) * (low + span),
        decreases bit,
    {
        bit = bit - 1;
        let step: u128 = 1u128 << bit;
        assert(step >= 1 && step + step == (1u128 << ((bit + 1) as u32))) by (bit_vector)
            requires
                step == 1u128 << bit,
                bit < 64,
        ;
        let trial: u128 = low + step;
        assert(trial * trial <= 0xffff_ffff_ffff_ffff * 0xffff_ffff_ffff_ffff) by (nonlinear_arith)
            requires
                0 <= trial <= 0xffff_ffff_ffff_ffff,
        ;
        if trial * trial <= n {
            low = trial;
        }
        proof {
            span = step as int;
        }
    }
    assert((1u128 << 0u32) == 1) by (bit_vector);
    proof {
        assert(is_floor_root(low as int, n as int));
        lemma_floor_root(n as int);
    }
    low
}

/// Number of bits of `w` up to its highest set bit.
fn bit_length(w: u128) -> (l: u32)
    ensures
        l == length(w),
        l <= 128,
{
    let mut i: u32 = 128;
    while i > 0
        invariant
            i <= 128,
            length_from(w, 128) == length_from(w, i as nat),
        decreases i,
    {
        if (w >> (i - 1)) != 0 {
            return i;
        }
        i = i - 1;
    }
    0
}

fn with_sign(negative: bool, m: u64) -> (r: u64)
    ensures
        r == signed(negative, m),
{
    if negative {
        m | SIGN
    } else {
        m
    }
}

fn rounded_shift(w: u128, s: u32) -> (r: u128)
    ensures
        r == round_shift(w, s),
{
    if s == 0 {
        w
    } else if s >= 128 {
        0
    } else {
        let q: u128 = w >> s;
        assert((1u128 << s) >= 1) by (bit_vector)
            requires
                s < 128,
        ;
        let rest: u128 = w & ((1u128 << s) - 1);
        let half: u128 = 1u128 << (s - 1);
        assert(q <= 0x7fff_ffff_ffff_ffff_ffff_ffff_ffff_ffff) by (bit_vector)
            requires
                q == w >> s,
                1 <= s < 128,
        ;
        if rest > half || (rest == half && q & 1 == 1) {
            q + 1
        } else {
            q
        }
    }
}

fn packed(negative: bool, e: i64, w: u128) -> (r: u64)
    requires
        -20000 <= e <= 20000,
    ensures
        r == pack(negative, e as int, w),
{
    proof {
        reveal(pack);
    }
    if w == 0 {
        return with_sign(negative, 0);
    }
    let l: i64 = bit_length(w) as i64;
    let top: i64 = e + l - 1;
    let quantum: i64 = if top < -1022 {
        -1074
    } else {
        top - 52
    };
    let s: i64 = quantum - e;
    let rounded: u128 = if s > 0 {
        if s >= 128 {
            0
        } else {
            rounded_shift(w, s as u32)
        }
    } else if -s >= 128 {
        0
    } else {
        w << ((-s) as u32)
    };
    let m: u64 = if rounded > (HIDDEN * 2) as u128 {
        HIDDEN * 2
    } else {
        rounded as u64
    };
    let magnitude: u64 = if top < -1022 {
        m
    } else if top + 1022 >= 2046 {
        INFINITY
    } else {
        let b: u64 = ((top + 1022) as u64) * HIDDEN + m;
        if b >= INFINITY {
            INFINITY
        } else {
            b
        }
    };
    with_sign(negative, magnitude)
}

fn field_of(x: u64) -> (r: u64)
    ensures
        r == exponent_field(x),
        r <= 2047,
{
    let r: u64 = (x >> 52) & 0x7ff;
    assert(r <= 2047) by (bit_vector)
        requires
            r == (x >> 52) & 0x7ff,
    ;
    r
}

fn significand_of(x: u64) -> (m: u64)
    ensures
        m == significand(x),
        m < 0x20_0000_0000_0000,
{
    let f: u64 = x & FRACTION;
    assert(f < 0x10_0000_0000_0000 && (f | 0x10_0000_0000_0000) < 0x20_0000_0000_0000)
        by (bit_vector)
        requires
            f == x & 0x000f_ffff_ffff_ffff,
    ;
    if field_of(x) == 0 {
        f
    } else {
        f | HIDDEN
    }
}

fn scale_of(x: u64) -> (e: i64)
    ensures
        e == scale(x),
        -1074 <= e <= 972,
{
    let f: u64 = field_of(x);
    if f == 0 {
        -1074
    } else {
        f as i64 - 1075
    }
}

fn normalized(x: u64) -> (r: (u128, i64))
    ensures
        r.0 == normal_significand(x),
        r.1 == normal_scale(x),
        -1200 <= r.1 <= 972,
{
    let m: u64 = significand_of(x);
    let l: u32 = bit_length(m as u128);
    if l <= 53 {
        ((m as u128) << (53 - l), scale_of(x) - (53 - l) as i64)
    } else {
        (m as u128, scale_of(x))
    }
}

fn aligned_to(w: u128, d: i64) -> (r: u128)
    requires
        w < 0x80_0000_0000_0000_0000_0000_0000_0000,
    ensures
        r == aligned(w, d as int),
        r < 0x80_0000_0000_0000_0000_0000_0000_0000,
{
    if d <= 0 {
        w
    } else if d >= 120 {
        1
    } else {
        let s: u32 = d as u32;
        let kept: u128 = w >> s;
        assert((1u128 << s) >= 1) by (bit_vector)
            requires
                s < 128,
        ;
        assert((kept | 1) < 0x80_0000_0000_0000_0000_0000_0000_0000) by (bit_vector)
            requires
                kept == w >> s,
                1 <= s < 128,
                w < 0x80_0000_0000_0000_0000_0000_0000_0000,
        ;
        assert(kept < 0x80_0000_0000_0000_0000_0000_0000_0000) by (bit_vector)
            requires
                kept == w >> s,
                w < 0x80_0000_0000_0000_0000_0000_0000_0000,
        ;
        if w & ((1u128 << s) - 1) != 0 {
            kept | 1
        } else {
            kept
        }
    }
}

fn widened(m: u64) -> (w: u128)
    requires
        m < 0x20_0000_0000_0000,
    ensures
        w == (m as u128) << 66,
        w < 0x80_0000_0000_0000_0000_0000_0000_0000,
{
    let w: u128 = (m as u128) << 66;
    assert(w < 0x80_0000_0000_0000_0000_0000_0000_0000) by (bit_vector)
        requires
            w == (m as u128) << 66,
            m < 0x20_0000_0000_0000,
    ;
    w
}

/// The pattern of the sum of the numbers with the patterns `a` and `b`.
pub fn sum_of(a: u64, b: u64) -> (r: u64)
    ensures
        r == sum(a, b),
{
    proof {
        reveal(sum);
    }
    let x: u64 = a & MAGNITUDE;
    let y: u64 = b & MAGNITUDE;
    let a_negative: bool = a & SIGN != 0;
    let b_negative: bool = b & SIGN != 0;
    if x > INFINITY || y > INFINITY {
        NAN
    } else if x == INFINITY {
        if y == INFINITY && a_negative != b_negative {
            NAN
        } else {
            a
        }
    } else if y == INFINITY {
        b
    } else if x == 0 {
        if y == 0 {
            if a_negative && b_negative {
                SIGN
            } else {
                0
            }
        } else {
            b
        }
    } else if y == 0 {
        a
    } else {
        let (large, small) = if x >= y {
            (a, b)
        } else {
            (b, a)
        };
        let p: u64 = large & MAGNITUDE;
        let q: u64 = small & MAGNITUDE;
        let large_negative: bool = large & SIGN != 0;
        let small_negative: bool = small & SIGN != 0;
        let wide: u128 = widened(significand_of(p));
        let narrow: u128 = aligned_to(widened(significand_of(q)), scale_of(p) - scale_of(q));
        let e: i64 = scale_of(p) - 66;
        if large_negative == small_negative {
            packed(large_negative, e, wide + narrow)
        } else if wide == narrow {
            0
        } else if wide > narrow {
            packed(large_negative, e, wide - narrow)
        } else {
            packed(small_negative, e, narrow - wide)
        }
    }
}

/// The pattern of the product of the numbers with the patterns `a` and `b`.
pub fn product_of(a: u64, b: u64) -> (r: u64)
    ensures
        r == product(a, b),
{
    proof {
        reveal(product);
    }
    let x: u64 = a & MAGNITUDE;
    let y: u64 = b & MAGNITUDE;
    let negative: bool = (a & SIGN != 0) != (b & SIGN != 0);
    if x > INFINITY || y > INFINITY {
        NAN
    } else if x == INFINITY || y == INFINITY {
        if x == 0 || y == 0 {
            NAN
        } else {
            with_sign(negative, INFINITY)
        }
    } else if x == 0 || y == 0 {
        with_sign(negative, 0)
    } else {
        let mx: u64 = significand_of(x);
        let my: u64 = significand_of(y);
        assert(mx * my < 0x20_0000_0000_0000 * 0x20_0000_0000_0000) by (nonlinear_arith)
            requires
                mx < 0x20_0000_0000_0000,
                my < 0x20_0000_0000_0000,
        ;
        packed(negative, scale_of(x) + scale_of(y), (mx as u128) * (my as u128))
    }
}

/// The pattern of the ratio of the numbers with the patterns `a` and `b`.
pub fn ratio_of(a: u64, b: u64) -> (r: u64)
    ensures
        r == ratio(a, b),
{
    proof {
        reveal(ratio);
    }
    let x: u64 = a & MAGNITUDE;
    let y: u64 = b & MAGNITUDE;
    let negative: bool = (a & SIGN != 0) != (b & SIGN != 0);
    if x > INFINITY || y > INFINITY {
        NAN
    } else if x == INFINITY {
        if y == INFINITY {
            NAN
        } else {
            with_sign(negative, INFINITY)
        }
    } else if y == INFINITY {
        with_sign(negative, 0)
    } else if y == 0 {
        if x == 0 {
            NAN
        } else {
            with_sign(negative, INFINITY)
        }
    } else if x == 0 {
        with_sign(negative, 0)
    } else {
        let (nx, ex) = normalized(x);
        let (d, ey) = normalized(y);
        let n: u128 = nx << 64;
        if d == 0 {
            NAN
        } else {
            let q: u128 = n / d;
            let w: u128 = if n % d != 0 {
                (q << 1) | 1
            } else {
                q << 1
            };
            packed(negative, ex - ey - 65, w)
        }
    }
}

/// The pattern of the square root of the number with the pattern `a`.
pub fn root_of(a: u64) -> (r: u64)
    ensures
        r == root(a),
{
    proof {
        reveal(root);
    }
    let x: u64 = a & MAGNITUDE;
    if x > INFINITY {
        NAN
    } else if x == 0 {
        a
    } else if a & SIGN != 0 {
        NAN
    } else if a == INFINITY {
        INFINITY
    } else {
        assert(a & MAGNITUDE == a) by (bit_vector)
            requires
                a & SIGN == 0,
                SIGN == 0x8000_0000_0000_0000,
                MAGNITUDE == 0x7fff_ffff_ffff_ffff,
        ;
        let (nm, ne) = normalized(a);
        let odd: bool = ((ne + 2000) as u64) % 2 == 1;
        let m: u128 = if odd {
            nm << 1
        } else {
            nm
        };
        let e: i64 = if odd {
            ne - 1
        } else {
            ne
        };
        let n: u128 = m << 60;
        let r: u128 = floor_sqrt(n);
        assert(r * r <= 0xffff_ffff_ffff_ffff * 0xffff_ffff_ffff_ffff) by (nonlinear_arith)
            requires
                0 <= r <= 0xffff_ffff_ffff_ffff,
        ;
        let w: u128 = if r * r != n {
            (r << 1) | 1
        } else {
            r << 1
        };
        packed(false, (((e + 4000 - 60) as u64) / 2) as i64 - 2000 - 1, w)
    }
}

/// The pattern of the largest whole number that is not larger than the
/// number with the pattern `a`.
pub fn floor_of(a: u64) -> (r: u64)
    ensures
        r == floor(a),
{
    proof {
        reveal(floor);
    }
    let x: u64 = a & MAGNITUDE;
    let negative: bool = a & SIGN != 0;
    if x > INFINITY {
        NAN
    } else if x == INFINITY || x == 0 || scale_of(x) >= 0 {
        a
    } else {
        let k: i64 = -scale_of(x);
        let m: u64 = significand_of(x);
        let whole: u64 = if k >= 64 {
            0
        } else {
            m >> (k as u64)
        };
        let exact: bool = if k < 64 {
            assert((1u64 << (k as u64)) >= 1) by (bit_vector)
                requires
                    0 <= k < 64,
            ;
            m & ((1u64 << (k as u64)) - 1) == 0
        } else {
            false
        };
        if negative && !exact {
            assert(whole <= m) by (bit_vector)
                requires
                    whole == 0 || whole == m >> (k as u64),
                    0 <= k,
            ;
            packed(true, 0, (whole + 1) as u128)
        } else {
            packed(negative, 0, whole as u128)
        }
    }
}

/// The whole number, clamped into the range of 32-bit integers, that the
/// whole number with the pattern `a` stands for.
pub fn whole_of(a: u64) -> (r: i64)
    ensures
        r == whole_part(a),
        -2147483648 <= r <= 2147483647,
{
    proof {
        reveal(whole_part);
    }
    let x: u64 = a & MAGNITUDE;
    let negative: bool = a & SIGN != 0;
    if x > INFINITY || x == 0 {
        0
    } else if x == INFINITY || scale_of(x) >= 11 {
        if negative {
            -2147483648
        } else {
            2147483647
        }
    } else {
        let m: u64 = significand_of(x);
        let e: i64 = scale_of(x);
        let size: u64 = if e >= 0 {
            m << (e as u64)
        } else if -e >= 64 {
            0
        } else {
            m >> ((-e) as u64)
        };
        if negative {
            if size >= 2147483648 {
                -2147483648
            } else {
                -(size as i64)
            }
        } else if size >= 2147483647 {
            2147483647
        } else {
            size as i64
        }
    }
}

/// The place of a pattern on the number line.
fn place(a: u64) -> (r: i128)
    ensures
        r == order(a),
{
    let m: i128 = (a & MAGNITUDE) as i128;
    if a & SIGN != 0 {
        -m
    } else {
        m
    }
}

/// A double-precision floating-point number.
#[derive(Clone, Copy, Debug)]
pub struct Scalar {
    pub bits: u64,
}

impl View for Scalar {
    type V = u64;

    /// The bit pattern.
    open spec fn view(&self) -> u64 {
        self.bits
    }
}

impl Scalar {
    /// The number with the given bit pattern.
    pub fn from_bits(bits: u64) -> (r: Scalar)
        ensures
            r@ == bits,
    {
        Scalar { bits }
    }

    /// The bit pattern.
    pub fn bits(self) -> (r: u64)
        ensures
            r == self@,
    {
        self.bits
    }

    /// The whole number `n`.
    pub fn from_int(n: i32) -> (r: Scalar)
        ensures
            r@ == pack(
                n < 0,
                0,
                if n < 0 {
                    (-n) as u128
                } else {
                    n as u128
                },
            ),
    {
        let wide: i64 = n as i64;
        let size: u128 = if wide < 0 {
            (-wide) as u128
        } else {
            wide as u128
        };
        Scalar { bits: packed(wide < 0, 0, size) }
    }

    /// The number nearest to the count `n`.
    pub fn from_count(n: u64) -> (r: Scalar)
        ensures
            r@ == pack(false, 0, n as u128),
    {
        Scalar { bits: packed(false, 0, n as u128) }
    }

    /// The number 0.
    pub fn zero() -> (r: Scalar)
        ensures
            r@ == ZERO,
    {
        Scalar { bits: ZERO }
    }

    /// The number 1.
    pub fn one() -> (r: Scalar)
        ensures
            r@ == ONE,
    {
        Scalar { bits: ONE }
    }

    /// Whether this is no number.
    pub fn is_nan(self) -> (r: bool)
        ensures
            r == is_nan(self@),
    {
        self.bits & MAGNITUDE > INFINITY
    }

    /// Whether this is an infinite number.
    pub fn is_infinite(self) -> (r: bool)
        ensures
            r == is_infinite(self@),
    {
        self.bits & MAGNITUDE == INFINITY
    }

    /// Whether the sign bit is set.
    pub fn is_sign_negative(self) -> (r: bool)
        ensures
            r == is_negative(self@),
    {
        self.bits & SIGN != 0
    }

    /// The magnitude of this number with the given sign.
    pub fn with_sign(self, negative: bool) -> (r: Scalar)
        ensures
            r@ == signed(negative, absolute(self@)),
    {
        Scalar { bits: with_sign(negative, self.bits & MAGNITUDE) }
    }

    /// Absolute value.
    pub fn abs(self) -> (r: Scalar)
        ensures
            r@ == absolute(self@),
    {
        Scalar { bits: self.bits & MAGNITUDE }
    }

    /// The smaller of two numbers; the other one where one is no number.
    pub fn min(self, rhs: Scalar) -> (r: Scalar)
        ensures
            r@ == lesser(self@, rhs@),
    {
        if self.is_nan() {
            rhs
        } else if rhs.is_nan() {
            self
        } else if place(rhs.bits) < place(self.bits) {
            rhs
        } else {
            self
        }
    }

    /// The larger of two numbers; the other one where one is no number.
    pub fn max(self, rhs: Scalar) -> (r: Scalar)
        ensures
            r@ == greater(self@, rhs@),
    {
        if self.is_nan() {
            rhs
        } else if rhs.is_nan() {
            self
        } else if place(self.bits) < place(rhs.bits) {
            rhs
        } else {
            self
        }
    }

    /// `self < rhs`.
    pub fn lt(self, rhs: Scalar) -> (r: bool)
        ensures
            r == below(self@, rhs@),
    {
        !self.is_nan() && !rhs.is_nan() && place(self.bits) < place(rhs.bits)
    }

    /// `self <= rhs`.
    pub fn le(self, rhs: Scalar) -> (r: bool)
        ensures
            r == at_most(self@, rhs@),
    {
        !self.is_nan() && !rhs.is_nan() && place(self.bits) <= place(rhs.bits)
    }

    /// `self > rhs`.
    pub fn gt(self, rhs: Scalar) -> (r: bool)
        ensures
            r == below(rhs@, self@),
    {
        !self.is_nan() && !rhs.is_nan() && place(rhs.bits) < place(self.bits)
    }

    /// `self >= rhs`.
    pub fn ge(self, rhs: Scalar) -> (r: bool)
        ensures
            r == at_most(rhs@, self@),
    {
        !self.is_nan() && !rhs.is_nan() && place(rhs.bits) <= place(self.bits)
    }

    /// `self + rhs`.
    pub fn plus(self, rhs: Scalar) -> (r: Scalar)
        ensures
            r@ == sum(self@, rhs@),
    {
        Scalar { bits: sum_of(self.bits, rhs.bits) }
    }

    /// `self - rhs`.
    pub fn minus(self, rhs: Scalar) -> (r: Scalar)
        ensures
            r@ == difference(self@, rhs@),
    {
        Scalar { bits: sum_of(self.bits, rhs.bits ^ SIGN) }
    }

    /// `self * rhs`.
    pub fn times(self, rhs: Scalar) -> (r: Scalar)
        ensures
            r@ == product(self@, rhs@),
    {
        Scalar { bits: product_of(self.bits, rhs.bits) }
    }

    /// `self / rhs`.
    pub fn over(self, rhs: Scalar) -> (r: Scalar)
        ensures
            r@ == ratio(self@, rhs@),
    {
        Scalar { bits: ratio_of(self.bits, rhs.bits) }
    }

    /// `-self`.
    pub fn opposite(self) -> (r: Scalar)
        ensures
            r@ == negation(self@),
    {
        Scalar { bits: self.bits ^ SIGN }
    }

    /// Square root; no number for a negative number.
    pub fn sqrt(self) -> (r: Scalar)
        ensures
            r@ == root(self@),
    {
        Scalar { bits: root_of(self.bits) }
    }

    /// The largest whole number that is not larger.
    pub fn floor(self) -> (r: Scalar)
        ensures
            r@ == floor(self@),
    {
        Scalar { bits: floor_of(self.bits) }
    }
}

impl PartialEq for Scalar {
    /// Equality of numbers: the two zeros are equal, and what is no number
    /// equals nothing.
    fn eq(&self, other: &Scalar) -> (r: bool) {
        !self.is_nan() && !other.is_nan() && place(self.bits) == place(other.bits)
    }
}

impl PartialEqSpecImpl for Scalar {
    open spec fn obeys_eq_spec() -> bool {
        true
    }

    open spec fn eq_spec(&self, other: &Scalar) -> bool {
        same(self@, other@)
    }
}

impl std::ops::Add for Scalar {
    type Output = Scalar;

    /// `self + rhs`.
    fn add(self, rhs: Scalar) -> (r: Scalar)
        ensures
            r@ == sum(self@, rhs@),
    {
        self.plus(rhs)
    }
}

impl AddSpecImpl for Scalar {
    open spec fn obeys_add_spec() -> bool {
        true
    }

    open spec fn add_req(self, rhs: Scalar) -> bool {
        true
    }

    open spec fn add_spec(self, rhs: Scalar) -> Scalar {
        Scalar { bits: sum(self@, rhs@) }
    }
}

impl std::ops::Sub for Scalar {
    type Output = Scalar;

    /// `self - rhs`.
    fn sub(self, rhs: Scalar) -> (r: Scalar)
        ensures
            r@ == difference(self@, rhs@),
    {
        self.minus(rhs)
    }
}

impl SubSpecImpl for Scalar {
    open spec fn obeys_sub_spec() -> bool {
        true
    }

    open spec fn sub_req(self, rhs: Scalar) -> bool {
        true
    }

    open spec fn sub_spec(self, rhs: Scalar) -> Scalar {
        Scalar { bits: difference(self@, rhs@) }
    }
}

impl std::ops::Mul for Scalar {
    type Output = Scalar;

    /// `self * rhs`.
    fn mul(self, rhs: Scalar) -> (r: Scalar)
        ensures
            r@ == product(self@, rhs@),
    {
        self.times(rhs)
    }
}

impl MulSpecImpl for Scalar {
    open spec fn obeys_mul_spec() -> bool {
        true
    }

    open spec fn mul_req(self, rhs: Scalar) -> bool {
        true
    }

    open spec fn mul_spec(self, rhs: Scalar) -> Scalar {
        Scalar { bits: product(self@, rhs@) }
    }
}

impl std::ops::Div for Scalar {
    type Output = Scalar;

    /// `self / rhs`.
    fn div(self, rhs: Scalar) -> (r: Scalar)
        ensures
            r@ == ratio(self@, rhs@),
    {
        self.over(rhs)
    }
}

impl DivSpecImpl for Scalar {
    open spec fn obeys_div_spec() -> bool {
        true
    }

    open spec fn div_req(self, rhs: Scalar) -> bool {
        true
    }

    open spec fn div_spec(self, rhs: Scalar) -> Scalar {
        Scalar { bits: ratio(self@, rhs@) }
    }
}

impl std::ops::Neg for Scalar {
    type Output = Scalar;

    /// `-self`.
    fn neg(self) -> (r: Scalar)
        ensures
            r@ == negation(self@),
    {
        self.opposite()
    }
}

impl NegSpecImpl for Scalar {
    open spec fn obeys_neg_spec() -> bool {
        true
    }

    open spec fn neg_req(self) -> bool {
        true
    }

    open spec fn neg_spec(self) -> Scalar {
        Scalar { bits: negation(self@) }
    }
}

} // verus!
