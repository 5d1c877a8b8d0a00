//! Rays: half-lines given by an origin and a direction.

use vstd::prelude::*;
use crate::vec3::Vec3;

verus! {

/// The points `a + t * b`. The direction `b` need not have unit length.
#[derive(Debug, Copy, Clone)]
pub struct Ray {
    pub a: Vec3,
    pub b: Vec3,
}

impl Ray {
    pub fn new(a: Vec3, b: Vec3) -> (r: Ray)
        ensures
            r == (Ray { a, b }),
    {
        Ray { a, b }
    }

    pub fn origin(self) -> (r: Vec3)
        ensures
            r == self.a,
    {
        self.a
    }

    pub fn direction(self) -> (r: Vec3)
        ensures
            r == self.b,
    {
        self.b
    }
}

} // verus!
