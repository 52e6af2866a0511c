//! Primary rays.
//!
//! A ray carries three vectors (where it starts, where it points, and the
//! colour accumulated for it) and the pixel it was cast through. The vectors
//! are `ultraviolet::Vec3` values. Their components are floating-point
//! numbers, which the proofs do not look into: a vector is carried from where
//! it is made to where it is consumed, and compared at most for identity.

use vstd::prelude::*;

verus! {

/// `ultraviolet::Vec3`, a vector of three single-precision components.
/// Declared without its fields: verified code moves and copies such a vector
/// and never reads a component.
#[verifier::external_type_specification]
#[verifier::external_body]
pub struct ExVec3(ultraviolet::Vec3);

/// Calls `ultraviolet::Vec3::zero`, which returns the vector whose three
/// components are `0.0`. No claim about the returned vector is made to the
/// verifier, which cannot speak of a floating-point component.
#[verifier::external_body]
pub(crate) fn zero_vector() -> (v: ultraviolet::Vec3) {
    ultraviolet::Vec3::zero()
}

/// One camera ray, the pixel it belongs to, and the colour accumulated for
/// that pixel.
#[derive(Clone, Copy, Debug)]
pub struct Ray {
    /// Where the ray starts: the eye of the camera.
    pub orig: ultraviolet::Vec3,
    /// Where the ray points: from the eye to the centre of its pixel.
    pub dir: ultraviolet::Vec3,
    /// The colour computed for the ray; the zero vector until a compute
    /// backend has filled it in.
    pub color: ultraviolet::Vec3,
    /// Column of the target pixel.
    pub screen_x: u32,
    /// Row of the target pixel.
    pub screen_y: u32,
}

impl Ray {
    /// Builds a ray from its parts. A ray built without a colour starts with
    /// the zero vector as its colour.
    pub fn new(
        orig: ultraviolet::Vec3,
        dir: ultraviolet::Vec3,
        color: Option<ultraviolet::Vec3>,
        screen_x: u32,
        screen_y: u32,
    ) -> (ray: Ray)
        ensures
            ray.orig == orig,
            ray.dir == dir,
            ray.screen_x == screen_x,
            ray.screen_y == screen_y,
            color matches Some(c) ==> ray.color == c,
    {
        let color = match color {
            Some(c) => c,
            None => zero_vector(),
        };
        Ray { orig, dir, color, screen_x, screen_y }
    }

    /// The pixel this ray was cast through, as `(column, row)`.
    pub open spec fn pixel(&self) -> (nat, nat) {
        (self.screen_x as nat, self.screen_y as nat)
    }
}

impl Default for Ray {
    /// The ray of pixel `(0, 0)` with all three vectors zero.
    fn default() -> (ray: Ray)
        ensures
            ray.screen_x == 0,
            ray.screen_y == 0,
    {
        Ray {
            orig: zero_vector(),
            dir: zero_vector(),
            color: zero_vector(),
            screen_x: 0,
            screen_y: 0,
        }
    }
}

} // verus!
