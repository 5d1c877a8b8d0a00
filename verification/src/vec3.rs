//! Triples of numbers, read as points, directions or colours.

use vstd::prelude::*;
use crate::scalar::Scalar;

verus! {

/// A point, a direction or an RGB colour.
#[derive(Clone, Copy, Debug)]
pub struct Vec3 {
    pub x: Scalar,
    pub y: Scalar,
    pub z: Scalar,
}

impl Vec3 {
    /// The vector with every component negated.
    pub open spec fn neg_spec(self) -> Vec3 {
        Vec3 { x: self.x.neg_spec(), y: self.y.neg_spec(), z: self.z.neg_spec() }
    }

    /// The origin, which is also the colour black.
    pub open spec fn zero_spec() -> Vec3 {
        Vec3 { x: Scalar::zero_spec(), y: Scalar::zero_spec(), z: Scalar::zero_spec() }
    }

    /// The colour white: full intensity in every channel.
    pub open spec fn ones_spec() -> Vec3 {
        Vec3 { x: Scalar::one_spec(), y: Scalar::one_spec(), z: Scalar::one_spec() }
    }

    pub fn new(x: Scalar, y: Scalar, z: Scalar) -> (r: Vec3)
        ensures
            r == (Vec3 { x, y, z }),
    {
        Vec3 { x, y, z }
    }

    pub fn x(self) -> (r: Scalar)
        ensures
            r == self.x,
    {
        self.x
    }

    pub fn y(self) -> (r: Scalar)
        ensures
            r == self.y,
    {
        self.y
    }

    pub fn z(self) -> (r: Scalar)
        ensures
            r == self.z,
    {
        self.z
    }

    #[verifier::when_used_as_spec(zero_spec)]
    pub fn zero() -> (r: Vec3)
        ensures
            r == Vec3::zero_spec(),
    {
        Vec3 { x: Scalar::zero(), y: Scalar::zero(), z: Scalar::zero() }
    }

    #[verifier::when_used_as_spec(ones_spec)]
    pub fn ones() -> (r: Vec3)
        ensures
            r == Vec3::ones_spec(),
    {
        Vec3 { x: Scalar::one(), y: Scalar::one(), z: Scalar::one() }
    }

    /// IEEE negation of every component.
    #[verifier::when_used_as_spec(neg_spec)]
    pub fn neg(self) -> (r: Vec3)
        ensures
            r == self.neg_spec(),
    {
        Vec3 { x: self.x.neg(), y: self.y.neg(), z: self.z.neg() }
    }
}

impl Default for Vec3 {
    fn default() -> (r: Vec3)
        ensures
            r == Vec3::zero_spec(),
    {
        Vec3::zero()
    }
}

} // verus!
