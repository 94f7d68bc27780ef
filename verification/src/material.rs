//! Materials: how a surface sends on the light that strikes it.
//!
//! Every material has a function that is given the random sample it needs
//! and computes the outcome from it, and a `scatter` that draws the sample
//! and calls that function.
use crate::color::{at_most_white, is_moderate, lemma_moderate_is_at_most_white, white, Color};
use crate::hittable::{HitModel, HitRecord};
use crate::random::random_scalar;
use crate::ray::{Ray, RayModel};
use crate::scalar::{
    at_most, below, difference, greater, lemma_zero_and_one, lesser, product, ratio, root, sum,
    Scalar, ONE, ZERO,
};
use crate::trig::power5;
use crate::texture::{
    is_moderate_texture, lemma_texture_is_moderate, sample, texture_value, SolidColor, TextureEnum,
};
use crate::triple::{dot, negated, plus, reflection, refraction, scaled, unit, within, Triple};
use crate::vec3::{in_cube, in_unit_sphere, turned_toward, Vec3, NEAR_ZERO};
use std::sync::Arc;
use vstd::prelude::*;
use vstd::std_specs::convert::FromSpecImpl;

verus! {

/// The mathematical model of a scatter.
pub struct ScatterModel {
    pub ray: RayModel,
    pub attenuation: Triple,
}

/// How light continues after a hit: the ray that leaves the surface, and the
/// color by which the light that arrives along it is attenuated.
pub struct Scatter {
    pub ray: Ray,
    pub attenuation: Color,
}

impl View for Scatter {
    type V = ScatterModel;

    open spec fn view(&self) -> ScatterModel {
        ScatterModel { ray: self.ray@, attenuation: self.attenuation@ }
    }
}

/// The model of the outcome of a scatter: absorbed, or sent on.
pub open spec fn outcome(result: Option<Scatter>) -> Option<ScatterModel> {
    match result {
        Some(s) => Some(s@),
        None => None,
    }
}

/// The closed set of materials.
pub enum MaterialEnum {
    Lambertian(Lambertian),
    UniformScatter(UniformScatter),
    Metal(Metal),
    Dialectric(Dialectric),
}

/// A diffuse surface colored by a texture.
pub struct Lambertian {
    albedo: Arc<TextureEnum>,
}

/// A diffuse surface of one color that scatters uniformly over the
/// hemisphere.
pub struct UniformScatter {
    albedo: Color,
}

/// A mirror of one color, blurred by a fuzziness of at most 1.
pub struct Metal {
    albedo: Color,
    fuzziness: Scalar,
}

/// A clear refracting body.
pub struct Dialectric {
    refractive_index: Scalar,
}

/// The direction of a diffuse scatter: `toward`, or the surface normal where
/// `toward` is too close to zero to be a direction.
pub open spec fn diffuse_direction(normal: Triple, toward: Triple) -> Triple {
    if within(toward, NEAR_ZERO) {
        normal
    } else {
        toward
    }
}

/// The scatter of a Lambertian surface for the random unit vector `sample`:
/// along the normal plus the sample, cast at the time of the incoming ray,
/// attenuated by the texture at the hit.
pub open spec fn lambertian_scatter(
    albedo: TextureEnum,
    ray_in: RayModel,
    hit: HitModel,
    sample: Triple,
) -> ScatterModel {
    ScatterModel {
        ray: RayModel {
            origin: hit.point,
            direction: diffuse_direction(hit.normal, plus(hit.normal, sample)),
            time: ray_in.time,
        },
        attenuation: texture_value(albedo, hit.u, hit.v, hit.point),
    }
}

/// The scatter of a uniformly scattering surface for the random point
/// `sample` of the hemisphere about the normal.
pub open spec fn uniform_scatter(
    albedo: Triple,
    ray_in: RayModel,
    hit: HitModel,
    sample: Triple,
) -> ScatterModel {
    ScatterModel {
        ray: RayModel {
            origin: hit.point,
            direction: diffuse_direction(hit.normal, sample),
            time: ray_in.time,
        },
        attenuation: albedo,
    }
}

/// The direction in which metal sends a ray on, for the random point
/// `sample` of the unit sphere: the mirror direction, blurred.
pub open spec fn metal_direction(
    fuzziness: u64,
    ray_in: RayModel,
    hit: HitModel,
    sample: Triple,
) -> Triple {
    plus(reflection(ray_in.direction, hit.normal), scaled(sample, fuzziness))
}

/// The scatter of metal: none where the blurred mirror direction does not
/// leave the surface. The scattered ray is cast at time zero.
pub open spec fn metal_scatter(
    albedo: Triple,
    fuzziness: u64,
    ray_in: RayModel,
    hit: HitModel,
    sample: Triple,
) -> Option<ScatterModel> {
    let direction = metal_direction(fuzziness, ray_in, hit, sample);
    if below(ZERO, dot(direction, hit.normal)) {
        Some(
            ScatterModel {
                ray: RayModel { origin: hit.point, direction, time: ZERO },
                attenuation: albedo,
            },
        )
    } else {
        None
    }
}

/// Schlick's approximation of the share of light that a clear surface
/// reflects: `r0 + (1 - r0) (1 - cosine)^5` with
/// `r0 = ((1 - ratio) / (1 + ratio))^2`.
pub open spec fn reflectance(cosine: u64, refraction_ratio: u64) -> u64 {
    let r = ratio(difference(ONE, refraction_ratio), sum(ONE, refraction_ratio));
    let r0 = product(r, r);
    sum(r0, product(difference(ONE, r0), power5(difference(ONE, cosine))))
}

/// The ratio of the refractive indices that a ray meets: into the body on
/// its front face, out of it on its back face.
pub open spec fn refraction_ratio(refractive_index: u64, on_front_face: bool) -> u64 {
    if on_front_face {
        ratio(ONE, refractive_index)
    } else {
        refractive_index
    }
}

/// Whether a clear surface reflects the ray, for the uniform draw `draw`
/// from `[0, 1)`: where Snell's law has no solution, or with the
/// probability given by the reflectance.
pub open spec fn dielectric_reflects(
    refractive_index: u64,
    ray_in: RayModel,
    hit: HitModel,
    draw: u64,
) -> bool {
    let rho = refraction_ratio(refractive_index, hit.on_front_face);
    let cos_theta = lesser(ONE, dot(negated(unit(ray_in.direction)), hit.normal));
    let sin_theta = root(difference(ONE, product(cos_theta, cos_theta)));
    below(ONE, product(rho, sin_theta)) || below(draw, reflectance(cos_theta, rho))
}

/// The scatter of a clear body: reflected or refracted, never attenuated.
pub open spec fn dielectric_scatter(
    refractive_index: u64,
    ray_in: RayModel,
    hit: HitModel,
    draw: u64,
) -> ScatterModel {
    let direction = if dielectric_reflects(refractive_index, ray_in, hit, draw) {
        reflection(unit(ray_in.direction), hit.normal)
    } else {
        refraction(
            unit(ray_in.direction),
            hit.normal,
            refraction_ratio(refractive_index, hit.on_front_face),
        )
    };
    ScatterModel {
        ray: RayModel { origin: hit.point, direction, time: ray_in.time },
        attenuation: white(),
    }
}

/// What every material offers: its answer to a ray that strikes it.
pub trait Material {
    /// `result` is a possible outcome of scattering `ray_in` at `hit`.
    spec fn scatters(&self, ray_in: RayModel, hit: HitModel, result: Option<ScatterModel>) -> bool;

    fn scatter(&self, ray_in: &Ray, hit_record: &HitRecord) -> (r: Option<Scatter>)
        ensures
            self.scatters(ray_in@, hit_record@, outcome(r)),
    ;
}

/// The direction of a diffuse scatter.
fn diffuse(normal: Vec3, toward: Vec3) -> (r: Vec3)
    ensures
        r@ == diffuse_direction(normal@, toward@),
{
    if toward.is_near_zero() {
        normal
    } else {
        toward
    }
}

impl Lambertian {
    /// The texture that colors the surface.
    pub closed spec fn albedo(self) -> TextureEnum {
        *self.albedo
    }

    /// A diffuse surface of one color.
    pub fn new(albedo: Color) -> (r: Lambertian)
        ensures
            r.albedo() matches TextureEnum::SolidColor(s) && s.color() == albedo@,
    {
        let texture: Arc<TextureEnum> = Arc::new(TextureEnum::SolidColor(SolidColor::new(albedo)));
        Lambertian { albedo: texture }
    }

    pub fn from_texture(texture: Arc<TextureEnum>) -> (r: Lambertian)
        ensures
            r.albedo() == *texture,
    {
        Lambertian { albedo: texture }
    }

    /// The scatter for a given random unit vector.
    pub fn scatter_with(&self, ray_in: &Ray, hit_record: &HitRecord, sample_unit: Vec3) -> (r:
        Scatter)
        ensures
            r@ == lambertian_scatter(self.albedo(), ray_in@, hit_record@, sample_unit@),
    {
        let scatter_direction: Vec3 = diffuse(
            hit_record.normal,
            hit_record.normal.plus(sample_unit),
        );
        let scattered_ray: Ray = Ray::new(
            hit_record.point,
            scatter_direction,
            Some(ray_in.time()),
        );
        Scatter {
            ray: scattered_ray,
            attenuation: sample(&self.albedo, hit_record.u, hit_record.v, hit_record.point),
        }
    }
}

impl Material for Lambertian {
    /// Always scatters, for some point `v` inside the unit sphere along the
    /// normal plus the unit vector toward `v`.
    open spec fn scatters(
        &self,
        ray_in: RayModel,
        hit: HitModel,
        result: Option<ScatterModel>,
    ) -> bool {
        exists|v: Triple|
            in_unit_sphere(v) && in_cube(v) && result == Some(
                #[trigger] lambertian_scatter(self.albedo(), ray_in, hit, unit(v)),
            )
    }

    fn scatter(&self, ray_in: &Ray, hit_record: &HitRecord) -> (r: Option<Scatter>) {
        let sample_unit: Vec3 = Vec3::random_unit_vector();
        let scatter: Scatter = self.scatter_with(ray_in, hit_record, sample_unit);
        proof {
            let v = choose|v: Triple| in_unit_sphere(v) && in_cube(v) && sample_unit@ == unit(v);
            assert(scatter@ == lambertian_scatter(self.albedo(), ray_in@, hit_record@, unit(v)));
            assert(self.scatters(ray_in@, hit_record@, Some(scatter@)));
        }
        Some(scatter)
    }
}

impl UniformScatter {
    pub closed spec fn albedo(self) -> Triple {
        self.albedo@
    }

    pub fn new(albedo: Color) -> (r: UniformScatter)
        ensures
            r.albedo() == albedo@,
    {
        UniformScatter { albedo }
    }

    /// The scatter for a given random point of the hemisphere about the
    /// normal.
    pub fn scatter_with(&self, ray_in: &Ray, hit_record: &HitRecord, sample_point: Vec3) -> (r:
        Scatter)
        ensures
            r@ == uniform_scatter(self.albedo(), ray_in@, hit_record@, sample_point@),
    {
        let scatter_direction: Vec3 = diffuse(hit_record.normal, sample_point);
        let scattered_ray: Ray = Ray::new(
            hit_record.point,
            scatter_direction,
            Some(ray_in.time()),
        );
        Scatter { ray: scattered_ray, attenuation: self.albedo }
    }
}

impl Material for UniformScatter {
    /// Always scatters, for some point `v` inside the unit sphere on the
    /// side of the normal.
    open spec fn scatters(
        &self,
        ray_in: RayModel,
        hit: HitModel,
        result: Option<ScatterModel>,
    ) -> bool {
        exists|v: Triple|
            in_unit_sphere(v) && in_cube(v) && result == Some(
                #[trigger] uniform_scatter(
                    self.albedo(),
                    ray_in,
                    hit,
                    turned_toward(v, hit.normal),
                ),
            )
    }

    fn scatter(&self, ray_in: &Ray, hit_record: &HitRecord) -> (r: Option<Scatter>) {
        let sample_point: Vec3 = Vec3::random_in_hemisphere(hit_record.normal);
        let scatter: Scatter = self.scatter_with(ray_in, hit_record, sample_point);
        proof {
            let v = choose|v: Triple|
                in_unit_sphere(v) && in_cube(v) && sample_point@ == #[trigger] turned_toward(
                    v,
                    hit_record.normal@,
                );
            assert(scatter@ == uniform_scatter(
                self.albedo(),
                ray_in@,
                hit_record@,
                turned_toward(v, hit_record@.normal),
            ));
            assert(self.scatters(ray_in@, hit_record@, Some(scatter@)));
        }
        Some(scatter)
    }
}

impl Metal {
    pub closed spec fn albedo(self) -> Triple {
        self.albedo@
    }

    pub closed spec fn fuzziness(self) -> u64 {
        self.fuzziness@
    }

    /// Metal of the given color. A fuzziness above 1 counts as 1, and one
    /// below 0 as 0.
    pub fn new(albedo: Color, fuzziness: Scalar) -> (r: Metal)
        ensures
            r.albedo() == albedo@,
            r.fuzziness() == lesser(greater(fuzziness@, ZERO), ONE),
            at_most(ZERO, r.fuzziness()),
            at_most(r.fuzziness(), ONE),
    {
        proof {
            lemma_zero_and_one();
        }
        let fuzziness: Scalar = fuzziness.max(Scalar::zero()).min(Scalar::one());
        Metal { albedo, fuzziness }
    }

    /// The scatter for a given random point of the unit sphere.
    pub fn scatter_with(&self, ray_in: &Ray, hit_record: &HitRecord, sample_point: Vec3) -> (r:
        Option<Scatter>)
        ensures
            outcome(r) == metal_scatter(
                self.albedo(),
                self.fuzziness(),
                ray_in@,
                hit_record@,
                sample_point@,
            ),
    {
        let reflected_direction: Vec3 = Vec3::reflect(ray_in.direction(), hit_record.normal);
        let scattered_ray: Ray = Ray::new(
            hit_record.point,
            reflected_direction.plus(sample_point.times(self.fuzziness)),
            None,
        );
        let does_hit: bool = Vec3::dot(scattered_ray.direction(), hit_record.normal).gt(
            Scalar::zero(),
        );
        if !does_hit {
            return None;
        }
        Some(Scatter { ray: scattered_ray, attenuation: self.albedo })
    }
}

impl Material for Metal {
    /// Scatters or absorbs as the blurred mirror direction decides, for
    /// some point `v` inside the unit sphere.
    open spec fn scatters(
        &self,
        ray_in: RayModel,
        hit: HitModel,
        result: Option<ScatterModel>,
    ) -> bool {
        exists|v: Triple|
            in_unit_sphere(v) && in_cube(v) && result == #[trigger] metal_scatter(
                self.albedo(),
                self.fuzziness(),
                ray_in,
                hit,
                v,
            )
    }

    fn scatter(&self, ray_in: &Ray, hit_record: &HitRecord) -> (r: Option<Scatter>) {
        let sample_point: Vec3 = Vec3::random_in_unit_sphere();
        let result: Option<Scatter> = self.scatter_with(ray_in, hit_record, sample_point);
        proof {
            assert(outcome(result) == metal_scatter(
                self.albedo(),
                self.fuzziness(),
                ray_in@,
                hit_record@,
                sample_point@,
            ));
            assert(self.scatters(ray_in@, hit_record@, outcome(result)));
        }
        result
    }
}

impl Dialectric {
    pub closed spec fn refractive_index(self) -> u64 {
        self.refractive_index@
    }

    pub fn new(refractive_index: Scalar) -> (r: Dialectric)
        ensures
            r.refractive_index() == refractive_index@,
    {
        Dialectric { refractive_index }
    }

    /// Schlick's approximation of the share of light that is reflected.
    pub fn reflectance(cosine: Scalar, refraction_ratio: Scalar) -> (r: Scalar)
        ensures
            r@ == reflectance(cosine@, refraction_ratio@),
    {
        let one: Scalar = Scalar::one();
        let r0: Scalar = one.minus(refraction_ratio).over(one.plus(refraction_ratio));
        let r0: Scalar = r0.times(r0);
        r0.plus(one.minus(r0).times(one.minus(cosine).fifth_power()))
    }

    /// The scatter for a given uniform draw from `[0, 1)`.
    pub fn scatter_with(&self, ray_in: &Ray, hit_record: &HitRecord, draw: Scalar) -> (r: Scatter)
        ensures
            r@ == dielectric_scatter(self.refractive_index(), ray_in@, hit_record@, draw@),
    {
        let one: Scalar = Scalar::one();
        let refraction_ratio: Scalar = if hit_record.on_front_face {
            one.over(self.refractive_index)
        } else {
            self.refractive_index
        };
        let unit_direction: Vec3 = ray_in.direction().normalized();
        let cos_theta: Scalar = one.min(Vec3::dot(unit_direction.opposite(), hit_record.normal));
        let sin_theta: Scalar = one.minus(cos_theta.times(cos_theta)).sqrt();
        let cannot_refract: bool = refraction_ratio.times(sin_theta).gt(one);
        let direction: Vec3 = if cannot_refract || Dialectric::reflectance(
            cos_theta,
            refraction_ratio,
        ).gt(draw) {
            Vec3::reflect(unit_direction, hit_record.normal)
        } else {
            Vec3::refract(unit_direction, hit_record.normal, refraction_ratio)
        };
        let scattered_ray: Ray = Ray::new(hit_record.point, direction, Some(ray_in.time()));
        Scatter { ray: scattered_ray, attenuation: Color::white() }
    }
}

impl Material for Dialectric {
    /// Always scatters, for some draw from `[0, 1)`.
    open spec fn scatters(
        &self,
        ray_in: RayModel,
        hit: HitModel,
        result: Option<ScatterModel>,
    ) -> bool {
        exists|draw: u64|
            at_most(ZERO, draw) && below(draw, ONE) && result == Some(
                #[trigger] dielectric_scatter(self.refractive_index(), ray_in, hit, draw),
            )
    }

    fn scatter(&self, ray_in: &Ray, hit_record: &HitRecord) -> (r: Option<Scatter>) {
        let draw: Scalar = random_scalar();
        let scatter: Scatter = self.scatter_with(ray_in, hit_record, draw);
        proof {
            assert(scatter@ == dielectric_scatter(
                self.refractive_index(),
                ray_in@,
                hit_record@,
                draw@,
            ));
            assert(self.scatters(ray_in@, hit_record@, Some(scatter@)));
        }
        Some(scatter)
    }
}

impl Material for MaterialEnum {
    open spec fn scatters(
        &self,
        ray_in: RayModel,
        hit: HitModel,
        result: Option<ScatterModel>,
    ) -> bool {
        match *self {
            MaterialEnum::Lambertian(m) => m.scatters(ray_in, hit, result),
            MaterialEnum::UniformScatter(m) => m.scatters(ray_in, hit, result),
            MaterialEnum::Metal(m) => m.scatters(ray_in, hit, result),
            MaterialEnum::Dialectric(m) => m.scatters(ray_in, hit, result),
        }
    }

    fn scatter(&self, ray_in: &Ray, hit_record: &HitRecord) -> (r: Option<Scatter>) {
        let result: Option<Scatter> = match self {
            MaterialEnum::Lambertian(m) => m.scatter(ray_in, hit_record),
            MaterialEnum::UniformScatter(m) => m.scatter(ray_in, hit_record),
            MaterialEnum::Metal(m) => m.scatter(ray_in, hit_record),
            MaterialEnum::Dialectric(m) => m.scatter(ray_in, hit_record),
        };
        proof {
            assert(self.scatters(ray_in@, hit_record@, outcome(result)));
        }
        result
    }
}

/// The material never sends on more light than arrives, by construction:
/// its albedo is moderate.
pub open spec fn is_moderate_material(m: MaterialEnum) -> bool {
    match m {
        MaterialEnum::Lambertian(l) => is_moderate_texture(l.albedo()),
        MaterialEnum::UniformScatter(u) => is_moderate(u.albedo()),
        MaterialEnum::Metal(metal) => is_moderate(metal.albedo()),
        MaterialEnum::Dialectric(_) => true,
    }
}

/// A moderate material attenuates by a moderate color.
pub proof fn lemma_material_is_moderate(
    m: MaterialEnum,
    ray_in: RayModel,
    hit: HitModel,
    result: Option<ScatterModel>,
)
    requires
        is_moderate_material(m),
        m.scatters(ray_in, hit, result),
    ensures
        result matches Some(s) ==> is_moderate(s.attenuation),
{
    match m {
        MaterialEnum::Lambertian(l) => {
            lemma_lambertian_always_scatters(l, ray_in, hit, result);
            lemma_texture_is_moderate(l.albedo(), hit.u, hit.v, hit.point);
        },
        MaterialEnum::UniformScatter(u) => {
            lemma_moderate_is_at_most_white(u.albedo());
            lemma_uniform_scatter_keeps_energy(u, ray_in, hit, result);
        },
        MaterialEnum::Metal(metal) => {
            lemma_moderate_is_at_most_white(metal.albedo());
            lemma_metal_keeps_energy(metal, ray_in, hit, result);
        },
        MaterialEnum::Dialectric(d) => {
            lemma_dielectric_keeps_energy(d, ray_in, hit, result);
        },
    }
}

/// A Lambertian surface never absorbs, and attenuates by its texture at the
/// hit.
pub proof fn lemma_lambertian_always_scatters(
    m: Lambertian,
    ray_in: RayModel,
    hit: HitModel,
    result: Option<ScatterModel>,
)
    requires
        m.scatters(ray_in, hit, result),
    ensures
        result matches Some(s) && s.attenuation == texture_value(
            m.albedo(),
            hit.u,
            hit.v,
            hit.point,
        ) && s.ray.origin == hit.point && s.ray.time == ray_in.time,
{
}

/// A uniformly scattering surface never absorbs, and never sends on more
/// light than arrives: no channel of the attenuation exceeds one where none
/// of the albedo does.
pub proof fn lemma_uniform_scatter_keeps_energy(
    m: UniformScatter,
    ray_in: RayModel,
    hit: HitModel,
    result: Option<ScatterModel>,
)
    requires
        m.scatters(ray_in, hit, result),
        at_most_white(m.albedo()),
    ensures
        result matches Some(s) && s.attenuation == m.albedo() && at_most_white(s.attenuation),
{
}

/// Metal never sends on more light than arrives: no channel of the
/// attenuation exceeds one where none of the albedo does. The scattered ray
/// leaves the surface.
pub proof fn lemma_metal_keeps_energy(
    m: Metal,
    ray_in: RayModel,
    hit: HitModel,
    result: Option<ScatterModel>,
)
    requires
        m.scatters(ray_in, hit, result),
        at_most_white(m.albedo()),
    ensures
        result matches Some(s) ==> s.attenuation == m.albedo() && at_most_white(s.attenuation)
            && below(ZERO, dot(s.ray.direction, hit.normal)),
{
}

/// A clear body never absorbs and never attenuates.
pub proof fn lemma_dielectric_keeps_energy(
    m: Dialectric,
    ray_in: RayModel,
    hit: HitModel,
    result: Option<ScatterModel>,
)
    requires
        m.scatters(ray_in, hit, result),
    ensures
        result matches Some(s) && s.attenuation == white() && at_most_white(s.attenuation),
{
    lemma_zero_and_one();
}

impl From<Lambertian> for MaterialEnum {
    fn from(value: Lambertian) -> (r: MaterialEnum) {
        MaterialEnum::Lambertian(value)
    }
}

impl FromSpecImpl<Lambertian> for MaterialEnum {
    open spec fn obeys_from_spec() -> bool {
        true
    }

    open spec fn from_spec(value: Lambertian) -> MaterialEnum {
        MaterialEnum::Lambertian(value)
    }
}

impl From<UniformScatter> for MaterialEnum {
    fn from(value: UniformScatter) -> (r: MaterialEnum) {
        MaterialEnum::UniformScatter(value)
    }
}

impl FromSpecImpl<UniformScatter> for MaterialEnum {
    open spec fn obeys_from_spec() -> bool {
        true
    }

    open spec fn from_spec(value: UniformScatter) -> MaterialEnum {
        MaterialEnum::UniformScatter(value)
    }
}

impl From<Metal> for MaterialEnum {
    fn from(value: Metal) -> (r: MaterialEnum) {
        MaterialEnum::Metal(value)
    }
}

impl FromSpecImpl<Metal> for MaterialEnum {
    open spec fn obeys_from_spec() -> bool {
        true
    }

    open spec fn from_spec(value: Metal) -> MaterialEnum {
        MaterialEnum::Metal(value)
    }
}

impl From<Dialectric> for MaterialEnum {
    fn from(value: Dialectric) -> (r: MaterialEnum) {
        MaterialEnum::Dialectric(value)
    }
}

impl FromSpecImpl<Dialectric> for MaterialEnum {
    open spec fn obeys_from_spec() -> bool {
        true
    }

    open spec fn from_spec(value: Dialectric) -> MaterialEnum {
        MaterialEnum::Dialectric(value)
    }
}

} // verus!
