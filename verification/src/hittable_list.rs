//! Scenes: lists of surfaces, searched for the nearest hit.
use crate::hittable::{HitModel, HitRecord, Hittable};
use crate::material::MaterialEnum;
use crate::ray::{position, Ray, RayModel};
use crate::scalar::{at_most, below, Scalar, ZERO};
use crate::sphere::{inside, lemma_hit_below, lemma_hit_is_sound, sphere_hit, Sphere};
use crate::triple::dot;
use vstd::prelude::*;

verus! {

/// The hit of the ray on the object with index `i`.
pub open spec fn object_hit(
    objects: Seq<Sphere>,
    i: int,
    ray: RayModel,
    t_min: u64,
    t_max: u64,
) -> Option<HitModel> {
    sphere_hit(objects[i].ball(), ray, t_min, t_max)
}

/// None of the first `count` objects is hit.
pub open spec fn all_miss(
    objects: Seq<Sphere>,
    count: int,
    ray: RayModel,
    t_min: u64,
    t_max: u64,
) -> bool {
    forall|j: int| 0 <= j < count ==> #[trigger] object_hit(objects, j, ray, t_min, t_max) is None
}

/// Among the first `count` objects, the object with index `i` is hit first:
/// no object is hit at a smaller parameter, and every object before it is
/// hit at a larger one, if at all.
pub open spec fn is_nearest(
    objects: Seq<Sphere>,
    count: int,
    i: int,
    ray: RayModel,
    t_min: u64,
    t_max: u64,
) -> bool {
    &&& 0 <= i < count
    &&& object_hit(objects, i, ray, t_min, t_max) matches Some(h) && forall|j: int|
        0 <= j < count ==> (#[trigger] object_hit(objects, j, ray, t_min, t_max) matches Some(g)
            ==> at_most(h.t, g.t) && (j < i ==> below(h.t, g.t)))
}

/// The index of the object that is hit first, if any object is hit.
pub open spec fn nearest(objects: Seq<Sphere>, ray: RayModel, t_min: u64, t_max: u64) -> Option<
    int,
> {
    if exists|i: int| is_nearest(objects, objects.len() as int, i, ray, t_min, t_max) {
        Some(choose|i: int| is_nearest(objects, objects.len() as int, i, ray, t_min, t_max))
    } else {
        None
    }
}

/// At most one object is hit first.
pub proof fn lemma_nearest_unique(
    objects: Seq<Sphere>,
    count: int,
    i: int,
    k: int,
    ray: RayModel,
    t_min: u64,
    t_max: u64,
)
    requires
        is_nearest(objects, count, i, ray, t_min, t_max),
        is_nearest(objects, count, k, ray, t_min, t_max),
    ensures
        i == k,
{
    let hi = object_hit(objects, i, ray, t_min, t_max);
    let hk = object_hit(objects, k, ray, t_min, t_max);
    assert(hi is Some && hk is Some);
}

/// Where no object is hit, none is hit first.
pub proof fn lemma_miss_has_no_nearest(
    objects: Seq<Sphere>,
    ray: RayModel,
    t_min: u64,
    t_max: u64,
)
    requires
        all_miss(objects, objects.len() as int, ray, t_min, t_max),
    ensures
        nearest(objects, ray, t_min, t_max) is None,
{
    if exists|i: int| is_nearest(objects, objects.len() as int, i, ray, t_min, t_max) {
        let i = choose|i: int| is_nearest(objects, objects.len() as int, i, ray, t_min, t_max);
        assert(object_hit(objects, i, ray, t_min, t_max) is None);
    }
}

/// The hit on a scene lies strictly inside the interval, at the point of
/// the ray with the parameter of the hit, with a normal that opposes the
/// ray, and no object of the scene is hit at a smaller parameter.
pub proof fn lemma_scene_hit_is_sound(world: HittableList, ray: RayModel, t_min: u64, t_max: u64)
    ensures
        world.hit_spec(ray, t_min, t_max) matches Some(h) ==> {
            &&& inside(h.t, t_min, t_max)
            &&& h.point == position(ray, h.t)
            &&& !below(ZERO, dot(ray.direction, h.normal))
            &&& forall|j: int|
                0 <= j < world.objects().len() ==> (#[trigger] object_hit(
                    world.objects(),
                    j,
                    ray,
                    t_min,
                    t_max,
                ) matches Some(g) ==> at_most(h.t, g.t))
        },
        world.hit_spec(ray, t_min, t_max) is None ==> all_miss(
            world.objects(),
            world.objects().len() as int,
            ray,
            t_min,
            t_max,
        ),
{
    let objects = world.objects();
    match nearest(objects, ray, t_min, t_max) {
        Some(i) => {
            lemma_hit_is_sound(objects[i].ball(), ray, t_min, t_max);
        },
        None => {
            lemma_some_hit_has_nearest(objects, objects.len() as int, ray, t_min, t_max);
        },
    }
}

/// Where one of the first `count` objects is hit, one of them is hit first.
pub proof fn lemma_some_hit_has_nearest(
    objects: Seq<Sphere>,
    count: int,
    ray: RayModel,
    t_min: u64,
    t_max: u64,
)
    requires
        0 <= count <= objects.len(),
    ensures
        all_miss(objects, count, ray, t_min, t_max) || exists|i: int|
            is_nearest(objects, count, i, ray, t_min, t_max),
    decreases count,
{
    if count > 0 {
        let before = count - 1;
        lemma_some_hit_has_nearest(objects, before, ray, t_min, t_max);
        let last = object_hit(objects, before, ray, t_min, t_max);
        if all_miss(objects, before, ray, t_min, t_max) {
            if last is Some {
                lemma_hit_is_sound(objects[before].ball(), ray, t_min, t_max);
                assert(is_nearest(objects, count, before, ray, t_min, t_max));
            }
        } else {
            let i = choose|i: int| is_nearest(objects, before, i, ray, t_min, t_max);
            let best = object_hit(objects, i, ray, t_min, t_max);
            lemma_hit_is_sound(objects[before].ball(), ray, t_min, t_max);
            lemma_hit_is_sound(objects[i].ball(), ray, t_min, t_max);
            if last is Some && below(last->0.t, best->0.t) {
                assert(is_nearest(objects, count, before, ray, t_min, t_max));
            } else {
                assert(is_nearest(objects, count, i, ray, t_min, t_max));
            }
        }
    }
}

/// One step of the search: how the answer for the first `count` objects
/// becomes the answer for one object more, given the hit of that object
/// below the parameter `closest` of the nearest hit so far.
pub proof fn lemma_search_step(
    objects: Seq<Sphere>,
    count: int,
    winner: Option<int>,
    closest: u64,
    ray: RayModel,
    t_min: u64,
    t_max: u64,
)
    requires
        0 <= count < objects.len(),
        closest == t_max || at_most(closest, t_max),
        winner is None ==> closest == t_max && all_miss(objects, count, ray, t_min, t_max),
        winner matches Some(w) ==> is_nearest(objects, count, w, ray, t_min, t_max) && (object_hit(
            objects,
            w,
            ray,
            t_min,
            t_max,
        ) matches Some(h) && h.t == closest),
    ensures
        sphere_hit(objects[count].ball(), ray, t_min, closest) matches Some(g) ==> is_nearest(
            objects,
            count + 1,
            count,
            ray,
            t_min,
            t_max,
        ) && object_hit(objects, count, ray, t_min, t_max) == Some(g) && below(g.t, closest)
            && at_most(g.t, t_max),
        sphere_hit(objects[count].ball(), ray, t_min, closest) is None ==> {
            &&& winner is None ==> all_miss(objects, count + 1, ray, t_min, t_max)
            &&& winner matches Some(w) ==> is_nearest(objects, count + 1, w, ray, t_min, t_max)
        },
{
    lemma_hit_below(objects[count].ball(), ray, t_min, t_max, closest);
    let full = object_hit(objects, count, ray, t_min, t_max);
    match sphere_hit(objects[count].ball(), ray, t_min, closest) {
        Some(g) => {
            lemma_hit_is_sound(objects[count].ball(), ray, t_min, t_max);
            assert(full == Some(g) && below(g.t, closest));
            assert forall|j: int| 0 <= j < count + 1 implies (#[trigger] object_hit(
                objects,
                j,
                ray,
                t_min,
                t_max,
            ) matches Some(other) ==> at_most(g.t, other.t) && (j < count ==> below(
                g.t,
                other.t,
            ))) by {
                if j < count {
                    match winner {
                        Some(w) => {
                            assert(is_nearest(objects, count, w, ray, t_min, t_max));
                        },
                        None => {
                            assert(object_hit(objects, j, ray, t_min, t_max) is None);
                        },
                    }
                }
            }
        },
        None => {
            match winner {
                Some(w) => {
                    assert forall|j: int| 0 <= j < count + 1 implies (#[trigger] object_hit(
                        objects,
                        j,
                        ray,
                        t_min,
                        t_max,
                    ) matches Some(other) ==> at_most(closest, other.t) && (j < w ==> below(
                        closest,
                        other.t,
                    ))) by {
                        lemma_hit_is_sound(objects[count].ball(), ray, t_min, t_max);
                        lemma_hit_is_sound(objects[w].ball(), ray, t_min, t_max);
                        if j < count {
                            assert(is_nearest(objects, count, w, ray, t_min, t_max));
                        }
                    }
                },
                None => {
                    assert forall|j: int| 0 <= j < count + 1 implies #[trigger] object_hit(
                        objects,
                        j,
                        ray,
                        t_min,
                        t_max,
                    ) is None by {
                        if j < count {
                            assert(object_hit(objects, j, ray, t_min, t_max) is None);
                        }
                    }
                },
            }
        },
    }
}

/// An ordered collection of spheres.
pub struct HittableList {
    objects: Vec<Sphere>,
}

impl HittableList {
    /// The objects of the scene, in the order in which they were added.
    pub closed spec fn objects(self) -> Seq<Sphere> {
        self.objects@
    }

    /// The empty scene.
    pub fn new() -> (r: HittableList)
        ensures
            r.objects() == Seq::<Sphere>::empty(),
    {
        HittableList { objects: Vec::new() }
    }

    /// Adds an object behind those that the scene holds.
    pub fn add(&mut self, object: Sphere)
        ensures
            final(self).objects() == old(self).objects().push(object),
    {
        self.objects.push(object);
    }

    pub fn len(&self) -> (r: usize)
        ensures
            r == self.objects().len(),
    {
        self.objects.len()
    }
}

impl Hittable for HittableList {
    /// The hit on the object that is hit first.
    open spec fn hit_spec(&self, ray: RayModel, t_min: u64, t_max: u64) -> Option<HitModel> {
        match nearest(self.objects(), ray, t_min, t_max) {
            Some(i) => object_hit(self.objects(), i, ray, t_min, t_max),
            None => None,
        }
    }

    /// The material of the object that is hit first.
    open spec fn material_spec(&self, ray: RayModel, t_min: u64, t_max: u64) -> MaterialEnum {
        match nearest(self.objects(), ray, t_min, t_max) {
            Some(i) => self.objects()[i].material(),
            None => arbitrary(),
        }
    }

    fn intersect(&self, ray: &Ray, t_min: Scalar, t_max: Scalar) -> (hit: Option<HitRecord<'_>>)
        ensures
            hit matches Some(h) ==> {
                &&& inside(h.t@, t_min@, t_max@)
                &&& h.point@ == position(ray@, h.t@)
                &&& !below(ZERO, dot(ray@.direction, h.normal@))
            },
    {
        proof {
            let objects = self.objects();
            assert(self.hit_spec(ray@, t_min@, t_max@) == match nearest(
                objects,
                ray@,
                t_min@,
                t_max@,
            ) {
                Some(i) => object_hit(objects, i, ray@, t_min@, t_max@),
                None => None,
            });
            assert(nearest(objects, ray@, t_min@, t_max@) matches Some(i) ==> self.material_spec(
                ray@,
                t_min@,
                t_max@,
            ) == objects[i].material());
        }
        self.hit(ray, t_min, t_max)
    }
}

impl HittableList {
    /// The nearest hit of the ray on the objects of the scene at a parameter
    /// strictly between `t_min` and `t_max`, if there is one: the hit of the
    /// first object among those that are hit at the smallest parameter.
    pub fn hit(&self, ray: &Ray, t_min: Scalar, t_max: Scalar) -> (hit: Option<HitRecord<'_>>)
        ensures
            nearest(self.objects(), ray@, t_min@, t_max@) matches Some(i) ==> hit matches Some(h)
                && Some(h@) == object_hit(self.objects(), i, ray@, t_min@, t_max@) && *h.material
                == self.objects()[i].material(),
            nearest(self.objects(), ray@, t_min@, t_max@) is None ==> hit is None,
            hit matches Some(h) ==> {
                &&& inside(h.t@, t_min@, t_max@)
                &&& h.point@ == position(ray@, h.t@)
                &&& !below(ZERO, dot(ray@.direction, h.normal@))
            },
    {
        let ghost objects: Seq<Sphere> = self.objects@;
        proof {
            lemma_scene_hit_is_sound(*self, ray@, t_min@, t_max@);
            assert(self.hit_spec(ray@, t_min@, t_max@) == match nearest(
                objects,
                ray@,
                t_min@,
                t_max@,
            ) {
                Some(i) => object_hit(objects, i, ray@, t_min@, t_max@),
                None => None,
            });
        }
        let mut closest_so_far: Scalar = t_max;
        let mut hit_anything: Option<HitRecord<'_>> = None;
        let ghost mut winner: Option<int> = None;
        let mut index: usize = 0;
        while index < self.objects.len()
            invariant
                index <= self.objects@.len(),
                objects == self.objects@,
                closest_so_far@ == t_max@ || at_most(closest_so_far@, t_max@),
                (hit_anything is None) == (winner is None),
                winner is None ==> closest_so_far@ == t_max@ && all_miss(
                    objects,
                    index as int,
                    ray@,
                    t_min@,
                    t_max@,
                ),
                hit_anything matches Some(h) ==> (winner matches Some(w) && {
                    &&& closest_so_far@ == h@.t
                    &&& is_nearest(objects, index as int, w, ray@, t_min@, t_max@)
                    &&& object_hit(objects, w, ray@, t_min@, t_max@) == Some(h@)
                    &&& *h.material == objects[w].material()
                }),
            decreases self.objects@.len() - index,
        {
            let candidate: Option<HitRecord<'_>> = self.objects[index].hit(
                ray,
                t_min,
                closest_so_far,
            );
            proof {
                lemma_search_step(
                    objects,
                    index as int,
                    winner,
                    closest_so_far@,
                    ray@,
                    t_min@,
                    t_max@,
                );
            }
            match candidate {
                Some(h) => {
                    proof {
                        winner = Some(index as int);
                    }
                    closest_so_far = h.t;
                    hit_anything = Some(h);
                },
                None => {},
            }
            index = index + 1;
        }
        proof {
            match winner {
                Some(w) => {
                    let chosen = choose|i: int|
                        is_nearest(objects, objects.len() as int, i, ray@, t_min@, t_max@);
                    lemma_nearest_unique(
                        objects,
                        objects.len() as int,
                        w,
                        chosen,
                        ray@,
                        t_min@,
                        t_max@,
                    );
                },
                None => {
                    lemma_miss_has_no_nearest(objects, ray@, t_min@, t_max@);
                },
            }
        }
        hit_anything
    }
}

} // verus!
