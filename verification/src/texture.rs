//! Surface colors as functions of the surface coordinates and the position
//! of a hit.
use crate::color::{is_moderate, white, Color};
use crate::perlin_noise::{tables_valid, turbulence_value, NoiseModel, PerlinNoise};
use crate::point3::Point3;
use crate::scalar::{below, product, sum, Scalar, HALF, ONE, TEN, ZERO};
use crate::trig::sine;
use crate::triple::{scaled, Triple};
use std::sync::Arc;
use vstd::prelude::*;
use vstd::std_specs::convert::FromSpecImpl;

verus! {

/// Number of octaves of turbulence in marble.
pub const MARBLE_OCTAVES: u32 = 7;

/// The closed set of textures.
pub enum TextureEnum {
    SolidColor(SolidColor),
    CheckerBoard(CheckerBoard),
    NoiseTexture(NoiseTexture),
    Marble(Marble),
}

/// One color everywhere.
pub struct SolidColor {
    color: Color,
}

/// Two textures that alternate in a three-dimensional checker pattern.
pub struct CheckerBoard {
    even: Arc<TextureEnum>,
    odd: Arc<TextureEnum>,
}

/// Gray levels given by the turbulence of a noise generator.
pub struct NoiseTexture {
    noise: PerlinNoise,
    turbulence: u32,
    scale: Scalar,
}

/// Gray bands along the z axis, bent by turbulence.
pub struct Marble {
    noise: PerlinNoise,
    scale: Scalar,
}

/// The product of the sines of ten times each coordinate. Its sign tells
/// the fields of the checker pattern apart.
pub open spec fn checker_wave(p: Triple) -> u64 {
    product(product(sine(product(TEN, p.x)), sine(product(TEN, p.y))), sine(product(TEN, p.z)))
}

/// Gray level of a noise texture at `p`.
pub open spec fn noise_level(m: NoiseModel, scale: u64, depth: nat, p: Triple) -> u64 {
    turbulence_value(m, scaled(p, scale), depth)
}

/// Gray level of marble at `p`: `(1 + sin(scale z + 10 turbulence(p))) / 2`.
pub open spec fn marble_level(m: NoiseModel, scale: u64, p: Triple) -> u64 {
    let phase = sum(
        product(scale, p.z),
        product(TEN, turbulence_value(m, p, MARBLE_OCTAVES as nat)),
    );
    product(HALF, sum(ONE, sine(phase)))
}

/// The color of a texture at surface coordinates `(u, v)` and position `p`.
pub open spec fn texture_value(t: TextureEnum, u: u64, v: u64, p: Triple) -> Triple
    decreases t,
{
    match t {
        TextureEnum::SolidColor(s) => s.color(),
        TextureEnum::CheckerBoard(c) => if below(checker_wave(p), ZERO) {
            texture_value(c.odd(), u, v, p)
        } else {
            texture_value(c.even(), u, v, p)
        },
        TextureEnum::NoiseTexture(n) => scaled(
            white(),
            noise_level(n.noise(), n.scale(), n.octaves(), p),
        ),
        TextureEnum::Marble(m) => scaled(white(), marble_level(m.noise(), m.scale(), p)),
    }
}

/// The texture is moderate by construction: built from moderate solid
/// colors alone. The grays of noise and of marble are not known to be.
pub open spec fn is_moderate_texture(t: TextureEnum) -> bool
    decreases t,
{
    match t {
        TextureEnum::SolidColor(s) => is_moderate(s.color()),
        TextureEnum::CheckerBoard(c) => is_moderate_texture(c.even()) && is_moderate_texture(
            c.odd(),
        ),
        TextureEnum::NoiseTexture(_) => false,
        TextureEnum::Marble(_) => false,
    }
}

/// A moderate texture has a moderate color everywhere.
pub proof fn lemma_texture_is_moderate(t: TextureEnum, u: u64, v: u64, p: Triple)
    requires
        is_moderate_texture(t),
    ensures
        is_moderate(texture_value(t, u, v, p)),
    decreases t,
{
    match t {
        TextureEnum::SolidColor(s) => {},
        TextureEnum::CheckerBoard(c) => {
            lemma_texture_is_moderate(c.even(), u, v, p);
            lemma_texture_is_moderate(c.odd(), u, v, p);
        },
        TextureEnum::NoiseTexture(n) => {},
        TextureEnum::Marble(m) => {},
    }
}

/// What every texture offers: its color at a point of a surface.
pub trait Texture {
    /// The color at surface coordinates `(u, v)` and position `p`.
    spec fn value_spec(&self, u: u64, v: u64, p: Triple) -> Triple;

    fn value(&self, u: Scalar, v: Scalar, hit_point: Point3) -> (c: Color)
        ensures
            c@ == self.value_spec(u@, v@, hit_point@),
    ;
}

impl SolidColor {
    /// The color of the texture.
    pub closed spec fn color(self) -> Triple {
        self.color@
    }

    pub fn new(color: Color) -> (r: SolidColor)
        ensures
            r.color() == color@,
    {
        SolidColor { color }
    }

    /// The color of the texture.
    pub fn fixed_color(&self) -> (c: Color)
        ensures
            c@ == self.color(),
    {
        self.color
    }

    pub fn from_rgb(red: Scalar, green: Scalar, blue: Scalar) -> (r: SolidColor)
        ensures
            r.color() == (Triple { x: red@, y: green@, z: blue@ }),
    {
        SolidColor::new(Color::new(red, green, blue))
    }
}

impl Texture for SolidColor {
    open spec fn value_spec(&self, u: u64, v: u64, p: Triple) -> Triple {
        self.color()
    }

    fn value(&self, u: Scalar, v: Scalar, hit_point: Point3) -> (c: Color) {
        proof {
            assert(self.value_spec(u@, v@, hit_point@) == self.color());
        }
        self.fixed_color()
    }
}

impl CheckerBoard {
    /// The texture of the fields where the wave is not negative.
    pub closed spec fn even(self) -> TextureEnum {
        *self.even
    }

    /// The texture of the fields where the wave is negative.
    pub closed spec fn odd(self) -> TextureEnum {
        *self.odd
    }

    pub fn new(even: Arc<TextureEnum>, odd: Arc<TextureEnum>) -> (r: CheckerBoard)
        ensures
            r.even() == *even,
            r.odd() == *odd,
    {
        CheckerBoard { even, odd }
    }

    pub fn from_colors(even: Color, odd: Color) -> (r: CheckerBoard)
        ensures
            r.even() matches TextureEnum::SolidColor(s) && s.color() == even@,
            r.odd() matches TextureEnum::SolidColor(s) && s.color() == odd@,
    {
        CheckerBoard {
            even: Arc::new(TextureEnum::SolidColor(SolidColor::new(even))),
            odd: Arc::new(TextureEnum::SolidColor(SolidColor::new(odd))),
        }
    }

    /// The texture that covers the field of the pattern in which
    /// `hit_point` lies.
    pub fn select(&self, hit_point: Point3) -> (r: &TextureEnum)
        ensures
            *r == if below(checker_wave(hit_point@), ZERO) {
                self.odd()
            } else {
                self.even()
            },
    {
        let ten: Scalar = Scalar::from_bits(TEN);
        let sines: Scalar = ten.times(hit_point.x()).sin().times(ten.times(hit_point.y()).sin()).times(
            ten.times(hit_point.z()).sin(),
        );
        if sines.lt(Scalar::zero()) {
            &self.odd
        } else {
            &self.even
        }
    }
}

impl Texture for CheckerBoard {
    open spec fn value_spec(&self, u: u64, v: u64, p: Triple) -> Triple {
        if below(checker_wave(p), ZERO) {
            texture_value(self.odd(), u, v, p)
        } else {
            texture_value(self.even(), u, v, p)
        }
    }

    fn value(&self, u: Scalar, v: Scalar, hit_point: Point3) -> (c: Color) {
        let chosen: &TextureEnum = self.select(hit_point);
        proof {
            assert(self.value_spec(u@, v@, hit_point@) == texture_value(
                *chosen,
                u@,
                v@,
                hit_point@,
            ));
        }
        sample(chosen, u, v, hit_point)
    }
}

impl NoiseTexture {
    pub closed spec fn noise(self) -> NoiseModel {
        self.noise@
    }

    pub closed spec fn scale(self) -> u64 {
        self.scale@
    }

    /// Number of octaves of turbulence.
    pub closed spec fn octaves(self) -> nat {
        self.turbulence as nat
    }

    /// A noise texture over a fresh random generator.
    pub fn new(scale: Scalar, turbulence: u32) -> (r: NoiseTexture)
        ensures
            r.scale() == scale@,
            r.octaves() == turbulence,
            tables_valid(r.noise()),
    {
        NoiseTexture { noise: PerlinNoise::new(), turbulence, scale }
    }

    /// The gray level at a position, as a color.
    pub fn gray_at(&self, hit_point: Point3) -> (c: Color)
        ensures
            c@ == scaled(white(), noise_level(self.noise(), self.scale(), self.octaves(), hit_point@)),
    {
        let scaled_point: Point3 = Point3(hit_point.0.times(self.scale));
        Color::white().times(self.noise.turbulence(scaled_point, self.turbulence))
    }

    /// A noise texture over the given generator.
    pub fn with_noise(noise: PerlinNoise, scale: Scalar, turbulence: u32) -> (r: NoiseTexture)
        ensures
            r.noise() == noise@,
            r.scale() == scale@,
            r.octaves() == turbulence,
    {
        NoiseTexture { noise, turbulence, scale }
    }
}

impl Texture for NoiseTexture {
    open spec fn value_spec(&self, u: u64, v: u64, p: Triple) -> Triple {
        scaled(white(), noise_level(self.noise(), self.scale(), self.octaves(), p))
    }

    fn value(&self, u: Scalar, v: Scalar, hit_point: Point3) -> (c: Color) {
        proof {
            assert(self.value_spec(u@, v@, hit_point@) == scaled(
                white(),
                noise_level(self.noise(), self.scale(), self.octaves(), hit_point@),
            ));
        }
        self.gray_at(hit_point)
    }
}

impl Default for NoiseTexture {
    fn default() -> (r: NoiseTexture)
        ensures
            r.scale() == ONE,
            r.octaves() == 1,
            tables_valid(r.noise()),
    {
        NoiseTexture::new(Scalar::one(), 1)
    }
}

impl Marble {
    pub closed spec fn noise(self) -> NoiseModel {
        self.noise@
    }

    pub closed spec fn scale(self) -> u64 {
        self.scale@
    }

    /// Marble over a fresh random generator.
    pub fn new(scale: Scalar) -> (r: Marble)
        ensures
            r.scale() == scale@,
            tables_valid(r.noise()),
    {
        Marble { noise: PerlinNoise::new(), scale }
    }

    /// The gray level at a position, as a color.
    pub fn gray_at(&self, hit_point: Point3) -> (c: Color)
        ensures
            c@ == scaled(white(), marble_level(self.noise(), self.scale(), hit_point@)),
    {
        let ten: Scalar = Scalar::from_bits(TEN);
        let noise: Scalar = self.scale.times(hit_point.z()).plus(
            ten.times(self.noise.turbulence(hit_point, MARBLE_OCTAVES)),
        ).sin();
        let normalized_noise: Scalar = Scalar::from_bits(HALF).times(Scalar::one().plus(noise));
        Color::white().times(normalized_noise)
    }

    /// Marble over the given generator.
    pub fn with_noise(noise: PerlinNoise, scale: Scalar) -> (r: Marble)
        ensures
            r.noise() == noise@,
            r.scale() == scale@,
    {
        Marble { noise, scale }
    }
}

impl Texture for Marble {
    open spec fn value_spec(&self, u: u64, v: u64, p: Triple) -> Triple {
        scaled(white(), marble_level(self.noise(), self.scale(), p))
    }

    fn value(&self, u: Scalar, v: Scalar, hit_point: Point3) -> (c: Color) {
        proof {
            assert(self.value_spec(u@, v@, hit_point@) == scaled(
                white(),
                marble_level(self.noise(), self.scale(), hit_point@),
            ));
        }
        self.gray_at(hit_point)
    }
}

impl Default for Marble {
    fn default() -> (r: Marble)
        ensures
            r.scale() == ONE,
            tables_valid(r.noise()),
    {
        Marble::new(Scalar::one())
    }
}

/// The color of any texture at a point of a surface.
pub fn sample(texture: &TextureEnum, u: Scalar, v: Scalar, hit_point: Point3) -> (c: Color)
    ensures
        c@ == texture_value(*texture, u@, v@, hit_point@),
    decreases *texture,
{
    match texture {
        TextureEnum::SolidColor(s) => s.fixed_color(),
        TextureEnum::CheckerBoard(c) => sample(c.select(hit_point), u, v, hit_point),
        TextureEnum::NoiseTexture(n) => n.gray_at(hit_point),
        TextureEnum::Marble(m) => m.gray_at(hit_point),
    }
}

impl Texture for TextureEnum {
    open spec fn value_spec(&self, u: u64, v: u64, p: Triple) -> Triple {
        texture_value(*self, u, v, p)
    }

    fn value(&self, u: Scalar, v: Scalar, hit_point: Point3) -> (c: Color) {
        proof {
            assert(self.value_spec(u@, v@, hit_point@) == texture_value(
                *self,
                u@,
                v@,
                hit_point@,
            ));
        }
        sample(self, u, v, hit_point)
    }
}

impl From<SolidColor> for TextureEnum {
    fn from(value: SolidColor) -> (r: TextureEnum) {
        TextureEnum::SolidColor(value)
    }
}

impl FromSpecImpl<SolidColor> for TextureEnum {
    open spec fn obeys_from_spec() -> bool {
        true
    }

    open spec fn from_spec(value: SolidColor) -> TextureEnum {
        TextureEnum::SolidColor(value)
    }
}

impl From<CheckerBoard> for TextureEnum {
    fn from(value: CheckerBoard) -> (r: TextureEnum) {
        TextureEnum::CheckerBoard(value)
    }
}

impl FromSpecImpl<CheckerBoard> for TextureEnum {
    open spec fn obeys_from_spec() -> bool {
        true
    }

    open spec fn from_spec(value: CheckerBoard) -> TextureEnum {
        TextureEnum::CheckerBoard(value)
    }
}

impl From<NoiseTexture> for TextureEnum {
    fn from(value: NoiseTexture) -> (r: TextureEnum) {
        TextureEnum::NoiseTexture(value)
    }
}

impl FromSpecImpl<NoiseTexture> for TextureEnum {
    open spec fn obeys_from_spec() -> bool {
        true
    }

    open spec fn from_spec(value: NoiseTexture) -> TextureEnum {
        TextureEnum::NoiseTexture(value)
    }
}

impl From<Marble> for TextureEnum {
    fn from(value: Marble) -> (r: TextureEnum) {
        TextureEnum::Marble(value)
    }
}

impl FromSpecImpl<Marble> for TextureEnum {
    open spec fn obeys_from_spec() -> bool {
        true
    }

    open spec fn from_spec(value: Marble) -> TextureEnum {
        TextureEnum::Marble(value)
    }
}

} // verus!
