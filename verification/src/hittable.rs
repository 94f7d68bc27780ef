//! Intersections of rays with surfaces.
use crate::material::MaterialEnum;
use crate::point3::Point3;
use crate::ray::{Ray, RayModel};
use crate::scalar::Scalar;
use crate::triple::Triple;
use crate::vec3::Vec3;
use vstd::prelude::*;

verus! {

/// The mathematical model of the geometry of a hit.
pub struct HitModel {
    pub point: Triple,
    pub normal: Triple,
    pub t: u64,
    pub u: u64,
    pub v: u64,
    pub on_front_face: bool,
}

/// Where and how a ray struck a surface.
///
/// `normal` opposes the ray whichever side of the surface was struck;
/// `on_front_face` tells the sides apart. `(u, v)` are the coordinates of
/// the hit on the surface, and `material` is the material of the surface.
pub struct HitRecord<'a> {
    pub point: Point3,
    pub normal: Vec3,
    pub t: Scalar,
    pub u: Scalar,
    pub v: Scalar,
    pub on_front_face: bool,
    pub material: &'a MaterialEnum,
}

impl<'a> View for HitRecord<'a> {
    type V = HitModel;

    open spec fn view(&self) -> HitModel {
        HitModel {
            point: self.point@,
            normal: self.normal@,
            t: self.t@,
            u: self.u@,
            v: self.v@,
            on_front_face: self.on_front_face,
        }
    }
}

/// The geometry of a hit, if there is one.
pub open spec fn geometry(hit: Option<HitRecord>) -> Option<HitModel> {
    match hit {
        Some(h) => Some(h@),
        None => None,
    }
}

/// What every surface offers: the nearest point, if any, at which a ray
/// strikes it at a parameter strictly between `t_min` and `t_max`.
pub trait Hittable {
    /// The geometry of the hit.
    spec fn hit_spec(&self, ray: RayModel, t_min: u64, t_max: u64) -> Option<HitModel>;

    /// The material at the hit.
    spec fn material_spec(&self, ray: RayModel, t_min: u64, t_max: u64) -> MaterialEnum;

    fn intersect(&self, ray: &Ray, t_min: Scalar, t_max: Scalar) -> (hit: Option<HitRecord<'_>>)
        ensures
            geometry(hit) == self.hit_spec(ray@, t_min@, t_max@),
            hit matches Some(h) ==> *h.material == self.material_spec(ray@, t_min@, t_max@),
    ;
}

} // verus!
