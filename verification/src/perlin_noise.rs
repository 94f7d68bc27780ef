//! Gradient noise on the integer lattice.
//!
//! A generator holds 256 gradient vectors and one permutation of `0..=255`
//! for each axis. The gradient of a lattice point is found by combining the
//! three permuted coordinates with exclusive or. The noise at a point blends
//! the contributions of the eight corners of its lattice cell with a smooth
//! weight, so that it is continuous across cell boundaries.
use crate::point3::Point3;
use crate::random::random_permutation;
use crate::scalar::{
    absolute, below, difference, floor, is_infinite, is_negative, lemma_not_negative,
    lemma_zero_and_one,
    negation, product, sum,
    whole_of, whole_part, Scalar, HALF, ONE, TEN, TWO, ZERO,
};
use crate::triple::{dot, scaled, unit, Triple};
use crate::vec3::{in_cube, Vec3};
use vstd::prelude::*;

verus! {

/// Number of gradient vectors, and length of each permutation.
pub const TABLE_SIZE: usize = 256;

/// The pattern of 6.
pub const SIX: u64 = 0x4018_0000_0000_0000;

/// The pattern of 15.
pub const FIFTEEN: u64 = 0x402e_0000_0000_0000;

/// The mathematical model of a generator.
pub struct NoiseModel {
    pub vectors: Seq<Triple>,
    pub perm_x: Seq<u8>,
    pub perm_y: Seq<u8>,
    pub perm_z: Seq<u8>,
}

/// The table arranges the numbers `0..=255`: it has 256 entries, all
/// different.
pub open spec fn is_permutation(table: Seq<u8>) -> bool {
    table.len() == TABLE_SIZE && table.no_duplicates()
}

pub open spec fn tables_valid(m: NoiseModel) -> bool {
    &&& m.vectors.len() == TABLE_SIZE
    &&& is_permutation(m.perm_x)
    &&& is_permutation(m.perm_y)
    &&& is_permutation(m.perm_z)
}

/// `g` is the direction of some vector of the cube `[-1, 1)^3`: that vector,
/// divided by its length.
pub open spec fn is_cube_direction(g: Triple) -> bool {
    exists|v: Triple| #[trigger] unit(v) == g && in_cube(v)
}

/// Index of the lattice cell that holds the coordinate `x`: `x` rounded down
/// to a whole number, clamped into the range of 32-bit integers.
pub open spec fn cell(x: u64) -> int {
    whole_part(floor(x))
}

/// Offset of the coordinate `x` within its lattice cell.
pub open spec fn fraction(x: u64) -> u64 {
    difference(x, floor(x))
}

/// A lattice coordinate wrapped into the tables.
pub open spec fn slot(c: int) -> int {
    c % (TABLE_SIZE as int)
}

/// The smooth weight `6 t^5 - 15 t^4 + 10 t^3`, evaluated as
/// `t^3 (t (6 t - 15) + 10)`.
pub open spec fn fade(t: u64) -> u64 {
    product(
        product(product(t, t), t),
        sum(product(t, difference(product(SIX, t), FIFTEEN)), TEN),
    )
}

/// Weight of the near (`far == false`) or far side of a cell along one
/// axis, for the smoothed offset `s`.
pub open spec fn blend(s: u64, far: bool) -> u64 {
    if far {
        s
    } else {
        difference(ONE, s)
    }
}

/// The lattice coordinate of the near or far side of a cell.
pub open spec fn side(near: int, far: bool) -> int {
    if far {
        slot(near + 1)
    } else {
        near
    }
}

/// Offset from the near or far side of a cell to a point at offset `f` from
/// the near side.
pub open spec fn reach(f: u64, far: bool) -> u64 {
    if far {
        difference(f, ONE)
    } else {
        f
    }
}

/// The gradient vector of the lattice point with the wrapped coordinates
/// `(sx, sy, sz)`.
pub open spec fn gradient(m: NoiseModel, sx: int, sy: int, sz: int) -> Triple {
    m.vectors[(m.perm_x[sx] ^ m.perm_y[sy] ^ m.perm_z[sz]) as int]
}

/// Contribution of one corner of the cell that holds `p`: the dot product of
/// the corner's gradient with the offset from the corner to `p`, weighted by
/// the smoothed closeness of `p` to the corner.
pub open spec fn corner(m: NoiseModel, p: Triple, fx: bool, fy: bool, fz: bool) -> u64 {
    let weight = product(
        product(blend(fade(fraction(p.x)), fx), blend(fade(fraction(p.y)), fy)),
        blend(fade(fraction(p.z)), fz),
    );
    let g = gradient(
        m,
        side(slot(cell(p.x)), fx),
        side(slot(cell(p.y)), fy),
        side(slot(cell(p.z)), fz),
    );
    let offset = Triple {
        x: reach(fraction(p.x), fx),
        y: reach(fraction(p.y), fy),
        z: reach(fraction(p.z), fz),
    };
    product(weight, dot(g, offset))
}

/// The noise at `p`: the sum of the contributions of the eight corners of
/// its cell.
pub open spec fn noise_value(m: NoiseModel, p: Triple) -> u64 {
    sum(
        sum(
            sum(
                sum(
                    sum(
                        sum(
                            sum(corner(m, p, false, false, false), corner(m, p, false, false, true)),
                            corner(m, p, false, true, false),
                        ),
                        corner(m, p, false, true, true),
                    ),
                    corner(m, p, true, false, false),
                ),
                corner(m, p, true, false, true),
            ),
            corner(m, p, true, true, false),
        ),
        corner(m, p, true, true, true),
    )
}

/// The weight of octave `i`: one, halved `i` times.
pub open spec fn octave_weight(i: nat) -> u64
    decreases i,
{
    if i == 0 {
        ONE
    } else {
        product(octave_weight((i - 1) as nat), HALF)
    }
}

/// The point sampled by octave `i`: `p`, doubled `i` times.
pub open spec fn octave_point(p: Triple, i: nat) -> Triple
    decreases i,
{
    if i == 0 {
        p
    } else {
        scaled(octave_point(p, (i - 1) as nat), TWO)
    }
}

/// Sum of the first `depth` octaves at `p`: octave `i` is the magnitude of
/// the noise at `2^i p`, weighted by `2^-i`.
pub open spec fn turbulence_value(m: NoiseModel, p: Triple, depth: nat) -> u64
    decreases depth,
{
    if depth == 0 {
        ZERO
    } else {
        let i = (depth - 1) as nat;
        sum(
            turbulence_value(m, p, i),
            product(octave_weight(i), absolute(noise_value(m, octave_point(p, i)))),
        )
    }
}

/// Turbulence is never negative: the sign bit of every octave weight and of
/// every partial sum is clear.
pub proof fn lemma_turbulence_not_negative(m: NoiseModel, p: Triple, depth: nat)
    ensures
        !is_negative(octave_weight(depth)),
        !is_negative(turbulence_value(m, p, depth)),
    decreases depth,
{
    lemma_zero_and_one();
    lemma_not_negative(ZERO, ZERO);
    if depth > 0 {
        let i = (depth - 1) as nat;
        lemma_turbulence_not_negative(m, p, i);
        lemma_not_negative(octave_weight(i), HALF);
        let n = noise_value(m, octave_point(p, i));
        lemma_not_negative(n, n);
        lemma_not_negative(octave_weight(i), absolute(n));
        lemma_not_negative(turbulence_value(m, p, i), product(octave_weight(i), absolute(n)));
    }
    assert(0x3ff0_0000_0000_0000u64 & 0x8000_0000_0000_0000 == 0 && 0x3fe0_0000_0000_0000u64
        & 0x8000_0000_0000_0000 == 0 && 0u64 & 0x8000_0000_0000_0000 == 0) by (bit_vector);
}

pub struct PerlinNoise {
    random_vectors: Vec<Vec3>,
    perm_x: Vec<u8>,
    perm_y: Vec<u8>,
    perm_z: Vec<u8>,
}

impl View for PerlinNoise {
    type V = NoiseModel;

    closed spec fn view(&self) -> NoiseModel {
        NoiseModel {
            vectors: Seq::new(self.random_vectors@.len(), |i: int| self.random_vectors@[i]@),
            perm_x: self.perm_x@,
            perm_y: self.perm_y@,
            perm_z: self.perm_z@,
        }
    }
}

/// Whether the table arranges the numbers `0..=255`.
fn arranges_all_bytes(table: &Vec<u8>) -> (r: bool)
    ensures
        r == is_permutation(table@),
{
    if table.len() != TABLE_SIZE {
        return false;
    }
    let mut seen: Vec<bool> = Vec::new();
    while seen.len() < TABLE_SIZE
        invariant
            seen@.len() <= TABLE_SIZE,
            forall|v: int| 0 <= v < seen@.len() ==> !seen@[v],
        decreases TABLE_SIZE - seen@.len(),
    {
        seen.push(false);
    }
    let mut i: usize = 0;
    while i < TABLE_SIZE
        invariant
            i <= TABLE_SIZE,
            table@.len() == TABLE_SIZE,
            seen@.len() == TABLE_SIZE,
            forall|v: int|
                0 <= v < TABLE_SIZE ==> (#[trigger] seen@[v] <==> exists|k: int|
                    0 <= k < i && #[trigger] table@[k] == v),
            forall|a: int, b: int| 0 <= a < b < i ==> table@[a] != table@[b],
        decreases TABLE_SIZE - i,
    {
        let value: usize = table[i] as usize;
        if seen[value] {
            proof {
                let k = choose|k: int| 0 <= k < i && #[trigger] table@[k] == value;
                assert(table@[k] == table@[i as int]);
            }
            return false;
        }
        let ghost before: Seq<bool> = seen@;
        seen.set(value, true);
        proof {
            assert forall|v: int| 0 <= v < TABLE_SIZE implies (#[trigger] seen@[v] <==> exists|
                k: int,
            |
                0 <= k < i + 1 && #[trigger] table@[k] == v) by {
                if v == value {
                    assert(table@[i as int] == v);
                } else {
                    assert(seen@[v] == before[v]);
                    if before[v] {
                        let k = choose|k: int| 0 <= k < i && #[trigger] table@[k] == v;
                        assert(0 <= k < i + 1 && table@[k] == v);
                    }
                    if exists|k: int| 0 <= k < i + 1 && #[trigger] table@[k] == v {
                        let k = choose|k: int| 0 <= k < i + 1 && #[trigger] table@[k] == v;
                        assert(k != i);
                        assert(0 <= k < i && table@[k] == v);
                    }
                }
            }
            assert forall|a: int, b: int| 0 <= a < b < i + 1 implies table@[a] != table@[b] by {
                if b == i && table@[a] == table@[b] {
                    assert(0 <= a < i && table@[a] == value);
                    assert(before[value as int]);
                }
            }
        }
        i = i + 1;
    }
    true
}

/// The wrapped cell coordinate and the offset within the cell of one
/// coordinate of a point.
fn locate(x: Scalar) -> (r: (usize, Scalar))
    ensures
        r.0 == slot(cell(x@)),
        r.0 < TABLE_SIZE,
        r.1@ == fraction(x@),
{
    let down: Scalar = x.floor();
    let index: i64 = whole_of(down.bits());
    let wrapped: u64 = ((index + 2147483648) as u64) % 256;
    (wrapped as usize, x.minus(down))
}

/// The smooth weight of an offset within a cell.
fn smooth(t: Scalar) -> (r: Scalar)
    ensures
        r@ == fade(t@),
{
    let cube: Scalar = t.times(t).times(t);
    let rest: Scalar = t.times(Scalar::from_bits(SIX).times(t).minus(Scalar::from_bits(FIFTEEN))).plus(
        Scalar::from_bits(TEN),
    );
    cube.times(rest)
}

/// The next lattice coordinate, wrapped into the tables.
fn next_slot(near: usize) -> (r: usize)
    requires
        near < TABLE_SIZE,
    ensures
        r == slot(near + 1),
        r < TABLE_SIZE,
{
    if near == 255 {
        0
    } else {
        near + 1
    }
}

impl PerlinNoise {
    /// The tables of every generator that a program holds are valid.
    #[verifier::type_invariant]
    pub open spec fn wf(self) -> bool {
        tables_valid(self@)
    }

    /// A generator with random gradient directions and random permutations.
    pub fn new() -> (r: PerlinNoise)
        ensures
            tables_valid(r@),
            forall|i: int| 0 <= i < TABLE_SIZE ==> is_cube_direction(#[trigger] r@.vectors[i]),
    {
        let one: Scalar = Scalar::one();
        proof {
            lemma_zero_and_one();
        }
        let mut vectors: Vec<Vec3> = Vec::new();
        while vectors.len() < TABLE_SIZE
            invariant
                vectors@.len() <= TABLE_SIZE,
                one@ == ONE,
                below(negation(ONE), ONE),
                !is_infinite(difference(ONE, negation(ONE))),
                forall|i: int|
                    0 <= i < vectors@.len() ==> is_cube_direction(#[trigger] vectors@[i]@),
            decreases TABLE_SIZE - vectors@.len(),
        {
            let candidate: Vec3 = Vec3::random_range(one.opposite(), one);
            let direction: Vec3 = candidate.normalized();
            proof {
                assert(unit(candidate@) == direction@ && in_cube(candidate@));
            }
            vectors.push(direction);
        }
        let perm_x: Vec<u8> = random_permutation();
        let perm_y: Vec<u8> = random_permutation();
        let perm_z: Vec<u8> = random_permutation();
        PerlinNoise { random_vectors: vectors, perm_x, perm_y, perm_z }
    }

    /// A generator with the given gradient vectors and permutations, where
    /// they are valid: 256 vectors, and three tables that each arrange the
    /// numbers `0..=255`.
    pub fn from_tables(
        vectors: Vec<Vec3>,
        perm_x: Vec<u8>,
        perm_y: Vec<u8>,
        perm_z: Vec<u8>,
    ) -> (r: Option<PerlinNoise>)
        ensures
            r.is_some() == (vectors@.len() == TABLE_SIZE && is_permutation(perm_x@)
                && is_permutation(perm_y@) && is_permutation(perm_z@)),
            r matches Some(noise) ==> {
                &&& noise@.vectors == Seq::new(vectors@.len(), |i: int| vectors@[i]@)
                &&& noise@.perm_x == perm_x@
                &&& noise@.perm_y == perm_y@
                &&& noise@.perm_z == perm_z@
            },
    {
        if vectors.len() == TABLE_SIZE && arranges_all_bytes(&perm_x) && arranges_all_bytes(&perm_y)
            && arranges_all_bytes(&perm_z) {
            Some(PerlinNoise { random_vectors: vectors, perm_x, perm_y, perm_z })
        } else {
            None
        }
    }

    /// The gradient vector of a lattice point.
    fn gradient_at(&self, sx: usize, sy: usize, sz: usize) -> (r: Vec3)
        requires
            sx < TABLE_SIZE,
            sy < TABLE_SIZE,
            sz < TABLE_SIZE,
        ensures
            r@ == gradient(self@, sx as int, sy as int, sz as int),
    {
        proof {
            use_type_invariant(self);
        }
        let index: u8 = self.perm_x[sx] ^ self.perm_y[sy] ^ self.perm_z[sz];
        self.random_vectors[index as usize]
    }

    /// Contribution of one corner of a cell, given the wrapped coordinates
    /// of the cell, the offsets of the point within the cell and their
    /// smooth weights.
    fn corner_term(
        &self,
        slots: (usize, usize, usize),
        offsets: (Scalar, Scalar, Scalar),
        weights: (Scalar, Scalar, Scalar),
        far: (bool, bool, bool),
    ) -> (r: Scalar)
        requires
            slots.0 < TABLE_SIZE,
            slots.1 < TABLE_SIZE,
            slots.2 < TABLE_SIZE,
        ensures
            r@ == product(
                product(
                    product(blend(weights.0@, far.0), blend(weights.1@, far.1)),
                    blend(weights.2@, far.2),
                ),
                dot(
                    gradient(
                        self@,
                        side(slots.0 as int, far.0),
                        side(slots.1 as int, far.1),
                        side(slots.2 as int, far.2),
                    ),
                    Triple {
                        x: reach(offsets.0@, far.0),
                        y: reach(offsets.1@, far.1),
                        z: reach(offsets.2@, far.2),
                    },
                ),
            ),
    {
        let one: Scalar = Scalar::one();
        let sx: usize = if far.0 { next_slot(slots.0) } else { slots.0 };
        let sy: usize = if far.1 { next_slot(slots.1) } else { slots.1 };
        let sz: usize = if far.2 { next_slot(slots.2) } else { slots.2 };
        let wx: Scalar = if far.0 { weights.0 } else { one.minus(weights.0) };
        let wy: Scalar = if far.1 { weights.1 } else { one.minus(weights.1) };
        let wz: Scalar = if far.2 { weights.2 } else { one.minus(weights.2) };
        let ox: Scalar = if far.0 { offsets.0.minus(one) } else { offsets.0 };
        let oy: Scalar = if far.1 { offsets.1.minus(one) } else { offsets.1 };
        let oz: Scalar = if far.2 { offsets.2.minus(one) } else { offsets.2 };
        let g: Vec3 = self.gradient_at(sx, sy, sz);
        wx.times(wy).times(wz).times(Vec3::dot(g, Vec3::new(ox, oy, oz)))
    }

    /// The noise at a point.
    pub fn noise(&self, point: Point3) -> (r: Scalar)
        ensures
            r@ == noise_value(self@, point@),
    {
        let (ix, fx) = locate(point.x());
        let (iy, fy) = locate(point.y());
        let (iz, fz) = locate(point.z());
        let slots: (usize, usize, usize) = (ix, iy, iz);
        let offsets: (Scalar, Scalar, Scalar) = (fx, fy, fz);
        let weights: (Scalar, Scalar, Scalar) = (smooth(fx), smooth(fy), smooth(fz));
        let c0: Scalar = self.corner_term(slots, offsets, weights, (false, false, false));
        let c1: Scalar = self.corner_term(slots, offsets, weights, (false, false, true));
        let c2: Scalar = self.corner_term(slots, offsets, weights, (false, true, false));
        let c3: Scalar = self.corner_term(slots, offsets, weights, (false, true, true));
        let c4: Scalar = self.corner_term(slots, offsets, weights, (true, false, false));
        let c5: Scalar = self.corner_term(slots, offsets, weights, (true, false, true));
        let c6: Scalar = self.corner_term(slots, offsets, weights, (true, true, false));
        let c7: Scalar = self.corner_term(slots, offsets, weights, (true, true, true));
        c0.plus(c1).plus(c2).plus(c3).plus(c4).plus(c5).plus(c6).plus(c7)
    }

    /// Sum of `depth` octaves of noise at a point, each octave at twice the
    /// frequency and half the weight of the one before. Never negative.
    pub fn turbulence(&self, point: Point3, depth: u32) -> (r: Scalar)
        ensures
            r@ == turbulence_value(self@, point@, depth as nat),
            !is_negative(r@),
    {
        proof {
            lemma_turbulence_not_negative(self@, point@, depth as nat);
        }
        let half: Scalar = Scalar::from_bits(HALF);
        let two: Scalar = Scalar::from_bits(TWO);
        let mut total: Scalar = Scalar::zero();
        let mut sample: Point3 = point;
        let mut weight: Scalar = Scalar::one();
        let mut octave: u32 = 0;
        while octave < depth
            invariant
                octave <= depth,
                half@ == HALF,
                two@ == TWO,
                total@ == turbulence_value(self@, point@, octave as nat),
                sample@ == octave_point(point@, octave as nat),
                weight@ == octave_weight(octave as nat),
            decreases depth - octave,
        {
            total = total.plus(weight.times(self.noise(sample).abs()));
            weight = weight.times(half);
            sample = Point3(sample.0.times(two));
            octave = octave + 1;
        }
        total
    }
}

impl Default for PerlinNoise {
    fn default() -> (r: PerlinNoise)
        ensures
            tables_valid(r@),
            forall|i: int| 0 <= i < TABLE_SIZE ==> is_cube_direction(#[trigger] r@.vectors[i]),
    {
        PerlinNoise::new()
    }
}

} // verus!
