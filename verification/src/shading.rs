//! The color that arrives along a ray.
//!
//! A ray that hits nothing takes the color of the background. A ray that
//! hits a surface takes the color that arrives along the ray into which the
//! material of the surface scatters it, attenuated by the material; where
//! the material absorbs it, it is black. A ray that has used up its bounces
//! is black.
use crate::color::{black, is_moderate, lemma_attenuation_is_moderate, Color};
use crate::hittable::{HitRecord, Hittable};
use crate::hittable_list::{nearest, HittableList};
use crate::material::{
    is_moderate_material, lemma_material_is_moderate, outcome, Material, Scatter, ScatterModel,
};
use crate::ray::Ray;
use crate::scalar::{pack, ratio, Scalar, INFINITY};
use crate::triple::{hadamard, plus, Triple};
use vstd::prelude::*;

verus! {

/// The pattern of `0.001`: hits closer to the origin of a ray than this
/// parameter are ignored, so that a scattered ray does not hit the surface
/// that it leaves.
pub const NEAR_LIMIT: u64 = 0x3f50_624d_d2f1_a9fc;

/// The light that leaves a surface toward the viewer, given what the
/// material did with the ray and the light that arrives along the scattered
/// ray.
pub open spec fn shade(scatter: Option<ScatterModel>, incoming: Triple) -> Triple {
    match scatter {
        Some(s) => hadamard(s.attenuation, incoming),
        None => black(),
    }
}

/// `c` is a color that may arrive along `ray` in the scene `world` after at
/// most `depth` bounces.
pub open spec fn colors<F: Fn(&Ray) -> Color>(
    world: HittableList,
    background: F,
    ray: Ray,
    depth: nat,
    c: Color,
) -> bool
    decreases depth,
{
    if depth == 0 {
        c@ == black()
    } else {
        match world.hit_spec(ray@, NEAR_LIMIT, INFINITY) {
            None => background.ensures((&ray,), c),
            Some(hit) => exists|scatter: Option<Scatter>, incoming: Color|
                #![trigger shade(outcome(scatter), incoming@)]
                {
                    &&& world.material_spec(ray@, NEAR_LIMIT, INFINITY).scatters(
                        ray@,
                        hit,
                        outcome(scatter),
                    )
                    &&& scatter matches Some(s) ==> colors(
                        world,
                        background,
                        s.ray,
                        (depth - 1) as nat,
                        incoming,
                    )
                    &&& c@ == shade(outcome(scatter), incoming@)
                },
        }
    }
}

/// Attenuations multiply along the chain of bounces: the light that arrives
/// after two scatters is the background, attenuated by the second material
/// and then by the first.
pub proof fn lemma_two_bounces(first: ScatterModel, second: ScatterModel, background: Triple)
    ensures
        shade(Some(first), shade(Some(second), background)) == hadamard(
            first.attenuation,
            hadamard(second.attenuation, background),
        ),
{
}

/// An absorbed ray is black whatever would have arrived along it.
pub proof fn lemma_absorbed_is_black(incoming: Triple)
    ensures
        shade(None, incoming) == black(),
{
}

/// Every material of the scene is moderate.
pub open spec fn is_moderate_scene(world: HittableList) -> bool {
    forall|i: int|
        0 <= i < world.objects().len() ==> is_moderate_material(
            #[trigger] world.objects()[i].material(),
        )
}

/// Every color of the background is moderate.
pub open spec fn is_moderate_background<F: Fn(&Ray) -> Color>(background: F) -> bool {
    forall|ray: &Ray, c: Color| #[trigger] background.ensures((ray,), c) ==> is_moderate(c@)
}

/// Light is never amplified. In a scene of moderate materials before a
/// moderate background, the color that arrives along any ray after any
/// number of bounces is moderate: no channel is negative, and none exceeds
/// full intensity.
pub proof fn lemma_light_is_never_amplified<F: Fn(&Ray) -> Color>(
    world: HittableList,
    background: F,
    ray: Ray,
    depth: nat,
    c: Color,
)
    requires
        is_moderate_scene(world),
        is_moderate_background(background),
        colors(world, background, ray, depth, c),
    ensures
        is_moderate(c@),
    decreases depth,
{
    if depth > 0 {
        match world.hit_spec(ray@, NEAR_LIMIT, INFINITY) {
            None => {
                assert(background.ensures((&ray,), c));
            },
            Some(hit) => {
                let (scatter, incoming) = choose|scatter: Option<Scatter>, incoming: Color|
                    #![trigger shade(outcome(scatter), incoming@)]
                    {
                        &&& world.material_spec(ray@, NEAR_LIMIT, INFINITY).scatters(
                            ray@,
                            hit,
                            outcome(scatter),
                        )
                        &&& scatter matches Some(s) ==> colors(
                            world,
                            background,
                            s.ray,
                            (depth - 1) as nat,
                            incoming,
                        )
                        &&& c@ == shade(outcome(scatter), incoming@)
                    };
                let i = nearest(world.objects(), ray@, NEAR_LIMIT, INFINITY)->0;
                assert(0 <= i < world.objects().len());
                let material = world.objects()[i].material();
                assert(is_moderate_material(material));
                lemma_material_is_moderate(material, ray@, hit, outcome(scatter));
                match scatter {
                    Some(s) => {
                        lemma_light_is_never_amplified(
                            world,
                            background,
                            s.ray,
                            (depth - 1) as nat,
                            incoming,
                        );
                        lemma_attenuation_is_moderate(s@.attenuation, incoming@);
                    },
                    None => {},
                }
            },
        }
    }
}

/// The light that leaves a surface toward the viewer.
pub fn shaded(scatter: &Option<Scatter>, incoming: Color) -> (c: Color)
    ensures
        c@ == shade(outcome(*scatter), incoming@),
{
    match scatter {
        Some(s) => s.attenuation.attenuate(incoming),
        None => Color::black(),
    }
}

/// The color that arrives along `ray` in the scene `world`, following the
/// light over at most `depth` bounces. `background` gives the color of a
/// ray that leaves the scene.
pub fn ray_color<F: Fn(&Ray) -> Color>(
    ray: &Ray,
    world: &HittableList,
    background: &F,
    depth: u32,
) -> (c: Color)
    requires
        forall|r: &Ray| background.requires((r,)),
    ensures
        colors(*world, *background, *ray, depth as nat, c),
        depth == 0 ==> c@ == black(),
    decreases depth,
{
    if depth == 0 {
        return Color::black();
    }
    let hit: Option<HitRecord<'_>> = world.intersect(
        ray,
        Scalar::from_bits(NEAR_LIMIT),
        Scalar::from_bits(INFINITY),
    );
    match hit {
        None => background(ray),
        Some(hit_record) => {
            let scatter: Option<Scatter> = hit_record.material.scatter(ray, &hit_record);
            let incoming: Color = match &scatter {
                Some(s) => ray_color(&s.ray, world, background, depth - 1),
                None => Color::black(),
            };
            let c: Color = shaded(&scatter, incoming);
            proof {
                assert(c@ == shade(outcome(scatter), incoming@));
            }
            c
        },
    }
}

/// Sum of the first `count` colors, channel by channel.
pub open spec fn total(samples: Seq<Color>, count: nat) -> Triple
    decreases count,
{
    if count == 0 {
        black()
    } else {
        plus(total(samples, (count - 1) as nat), samples[count - 1]@)
    }
}

/// The mean of colors, channel by channel: their sum, divided by their
/// number.
pub open spec fn mean(samples: Seq<Color>) -> Triple {
    let sum = total(samples, samples.len());
    let count = pack(false, 0, samples.len() as u128);
    Triple { x: ratio(sum.x, count), y: ratio(sum.y, count), z: ratio(sum.z, count) }
}

/// The color of a pixel: the mean of the colors of its samples. Without
/// samples it is black.
pub fn average(samples: &Vec<Color>) -> (c: Color)
    ensures
        c@ == mean(samples@),
{
    let mut sum: Color = Color::black();
    let mut index: usize = 0;
    while index < samples.len()
        invariant
            index <= samples@.len(),
            sum@ == total(samples@, index as nat),
        decreases samples@.len() - index,
    {
        sum = sum.plus(samples[index]);
        index = index + 1;
    }
    let count: Scalar = Scalar::from_count(samples.len() as u64);
    Color::new(sum.red().over(count), sum.green().over(count), sum.blue().over(count))
}

} // verus!
