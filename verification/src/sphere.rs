//! The sphere primitive and the choice between the two roots of its quadratic.

use vstd::prelude::*;
use crate::hittable::within;
use crate::hittable::HitRecord;
use crate::hittable::Roots;
use crate::material::Material;
use crate::scalar::Scalar;
use crate::vec3::Vec3;

verus! {

/// A sphere. A negative radius turns the normals inwards, which makes the
/// inner surface of a hollow shell.
#[derive(Clone, Copy, Debug)]
pub struct Sphere {
    pub center: Vec3,
    pub radius: Scalar,
    pub material: Material,
}

impl Sphere {
    /// The hit of a ray on this sphere within `(t_min, t_max)`: none unless
    /// the discriminant is positive; else the nearer crossing if its
    /// parameter lies strictly inside the interval, else the farther one
    /// if its parameter does.
    pub open spec fn hit_spec(self, roots: Roots, t_min: Scalar, t_max: Scalar) -> Option<
        HitRecord,
    > {
        if !roots.discriminant.gt_spec(Scalar::zero_spec()) {
            None
        } else if within(roots.near.t, t_min, t_max) {
            Some(roots.near.record(self.material))
        } else if within(roots.far.t, t_min, t_max) {
            Some(roots.far.record(self.material))
        } else {
            None
        }
    }

    pub fn new(center: Vec3, radius: Scalar, material: Material) -> (r: Sphere)
        ensures
            r == (Sphere { center, radius, material }),
    {
        Sphere { center, radius, material }
    }

    /// Chooses the hit among the crossings that `roots` holds for a ray
    /// against this sphere.
    pub fn hit(&self, roots: &Roots, t_min: Scalar, t_max: Scalar) -> (r: Option<HitRecord>)
        ensures
            r == self.hit_spec(*roots, t_min, t_max),
            !roots.discriminant.gt_spec(Scalar::zero_spec()) ==> r is None,
            roots.discriminant.gt_spec(Scalar::zero_spec()) && within(roots.near.t, t_min, t_max)
                ==> r == Some(roots.near.record(self.material)),
            r is Some ==> within(r->Some_0.t, t_min, t_max) && r->Some_0.material == self.material,
    {
        if roots.discriminant.gt(Scalar::zero()) {
            let near = roots.near;
            if near.t.lt(t_max) && near.t.gt(t_min) {
                return Some(
                    HitRecord { t: near.t, p: near.p, normal: near.normal, material: self.material },
                );
            }
            let far = roots.far;
            if far.t.lt(t_max) && far.t.gt(t_min) {
                return Some(
                    HitRecord { t: far.t, p: far.p, normal: far.normal, material: self.material },
                );
            }
        }
        None
    }
}

} // verus!
