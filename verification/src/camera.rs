//! The camera: a viewport in the focus plane, seen through a thin lens.

use vstd::prelude::*;
use crate::scalar::Scalar;
use crate::vec3::Vec3;

verus! {

/// A camera frame. `u`, `v` and `w` are an orthonormal basis with `w`
/// pointing from the target back to the eye; the viewport rectangle starts
/// at `lower_left_corner` and spans `horizontal` by `vertical`, all scaled
/// by the focus distance, so that what lies at that distance is sharp.
#[derive(Clone, Copy, Debug)]
pub struct Camera {
    pub origin: Vec3,
    pub lower_left_corner: Vec3,
    pub horizontal: Vec3,
    pub vertical: Vec3,
    pub u: Vec3,
    pub v: Vec3,
    pub w: Vec3,
    pub lens_radius: Scalar,
}

impl Camera {
    /// The camera with the given frame.
    pub fn from_frame(
        origin: Vec3,
        lower_left_corner: Vec3,
        horizontal: Vec3,
        vertical: Vec3,
        u: Vec3,
        v: Vec3,
        w: Vec3,
        lens_radius: Scalar,
    ) -> (r: Camera)
        ensures
            r == (Camera { origin, lower_left_corner, horizontal, vertical, u, v, w, lens_radius }),
    {
        Camera { origin, lower_left_corner, horizontal, vertical, u, v, w, lens_radius }
    }
}

} // verus!
