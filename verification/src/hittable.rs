//! What an intersection test reads and what it reports.

use vstd::prelude::*;
use crate::material::Material;
use crate::scalar::Scalar;
use crate::vec3::Vec3;

verus! {

/// A ray meeting a surface: the ray parameter, the point, the unit normal
/// there and the material of the surface.
#[derive(Clone, Copy, Debug)]
pub struct HitRecord {
    pub t: Scalar,
    pub p: Vec3,
    pub normal: Vec3,
    pub material: Material,
}

/// One root of the sphere quadratic, with the point of the ray at that
/// parameter and the normal `(p - center) / radius` there.
#[derive(Clone, Copy, Debug)]
pub struct Crossing {
    pub t: Scalar,
    pub p: Vec3,
    pub normal: Vec3,
}

/// The quadratic of one ray against one sphere, evaluated: with
/// `a = d.d`, `b = oc.d` and `c = oc.oc - radius^2`, the discriminant
/// `b^2 - a c` and the crossings at `(-b - sqrt(disc)) / a` and
/// `(-b + sqrt(disc)) / a`.
#[derive(Clone, Copy, Debug)]
pub struct Roots {
    pub discriminant: Scalar,
    pub near: Crossing,
    pub far: Crossing,
}

impl Crossing {
    /// The hit that this crossing makes on a surface of the given material.
    pub open spec fn record(self, material: Material) -> HitRecord {
        HitRecord { t: self.t, p: self.p, normal: self.normal, material }
    }

    pub fn new(t: Scalar, p: Vec3, normal: Vec3) -> (r: Crossing)
        ensures
            r == (Crossing { t, p, normal }),
    {
        Crossing { t, p, normal }
    }
}

impl Roots {
    /// The two roots come in increasing order, as they do whenever the
    /// leading coefficient `d.d` is positive.
    pub open spec fn ordered(self) -> bool {
        !self.far.t.lt_spec(self.near.t)
    }

    pub fn new(discriminant: Scalar, near: Crossing, far: Crossing) -> (r: Roots)
        ensures
            r == (Roots { discriminant, near, far }),
    {
        Roots { discriminant, near, far }
    }
}

/// Whether `t` lies strictly inside `(t_min, t_max)`.
pub open spec fn within(t: Scalar, t_min: Scalar, t_max: Scalar) -> bool {
    t.lt_spec(t_max) && t.gt_spec(t_min)
}

} // verus!
