//! Animation: a camera that moves from one point to another, one scene for
//! each frame.
//!
//! The first and the last frame stand exactly at the two end points. A frame
//! in between stands on the line between them, as far along as its number
//! says; that point is computed in floating point, by a function that the
//! animation is given when it is made.

use vstd::prelude::*;
use crate::scene::{Scene, DEFAULT_SCREEN_HEIGHT, DEFAULT_SCREEN_WIDTH};

verus! {

/// `blend` may be asked for every frame strictly between the first and the
/// last.
pub open spec fn blends_between<B: Fn(ultraviolet::Vec3, ultraviolet::Vec3, u32, u32) -> ultraviolet::Vec3>(
    blend: B,
    eye_from: ultraviolet::Vec3,
    eye_to: ultraviolet::Vec3,
    frames: u32,
) -> bool {
    forall|frame: u32| 0 < frame < frames ==> call_requires(blend, (eye_from, eye_to, frame, frames))
}

/// A camera movement over `frames` steps, from `eye_from` at frame `0` to
/// `eye_to` at frame `frames`.
pub struct Animation<B> {
    eye_from: ultraviolet::Vec3,
    eye_to: ultraviolet::Vec3,
    frames: u32,
    blend: B,
}

impl<B: Fn(ultraviolet::Vec3, ultraviolet::Vec3, u32, u32) -> ultraviolet::Vec3> Animation<B> {
    /// Where the camera stands at the first frame.
    pub closed spec fn eye_from(&self) -> ultraviolet::Vec3 {
        self.eye_from
    }

    /// Where the camera stands at the last frame.
    pub closed spec fn eye_to(&self) -> ultraviolet::Vec3 {
        self.eye_to
    }

    /// Number of steps of the movement; the frames are numbered from `0` to
    /// this number.
    pub closed spec fn frames(&self) -> u32 {
        self.frames
    }

    /// The function that places the camera between the end points: given
    /// the two end points, a frame and the number of frames, it returns the
    /// point that lies `frame / frames` of the way from the first to the
    /// second.
    pub closed spec fn blender(&self) -> B {
        self.blend
    }

    /// The animation has at least one step, and its blender may be asked for
    /// every frame in between.
    pub open spec fn wf(&self) -> bool {
        &&& self.frames() > 0
        &&& blends_between(self.blender(), self.eye_from(), self.eye_to(), self.frames())
    }

    /// `eye` is where the camera stands at frame `frame_at`.
    pub open spec fn frame_eye(&self, frame_at: u32, eye: ultraviolet::Vec3) -> bool {
        if frame_at == 0 {
            eye == self.eye_from()
        } else if frame_at == self.frames() {
            eye == self.eye_to()
        } else {
            call_ensures(
                self.blender(),
                (self.eye_from(), self.eye_to(), frame_at, self.frames()),
                eye,
            )
        }
    }

    /// A movement from `eye_from` to `eye_to` in `frames` steps.
    pub fn new(
        eye_from: ultraviolet::Vec3,
        eye_to: ultraviolet::Vec3,
        frames: u32,
        blend: B,
    ) -> (animation: Self)
        requires
            frames > 0,
            blends_between(blend, eye_from, eye_to, frames),
        ensures
            animation.wf(),
            animation.eye_from() == eye_from,
            animation.eye_to() == eye_to,
            animation.frames() == frames,
            animation.blender() == blend,
    {
        Animation { eye_from, eye_to, frames, blend }
    }

    /// The scene of frame `frame_at`: a raster of the default size, seen
    /// from where the camera stands at that frame.
    pub fn scene_at(&self, frame_at: u32) -> (scene: Scene)
        requires
            self.wf(),
            frame_at <= self.frames(),
        ensures
            self.frame_eye(frame_at, scene.eye),
            scene.screen_width == DEFAULT_SCREEN_WIDTH,
            scene.screen_height == DEFAULT_SCREEN_HEIGHT,
    {
        let current_eye = if frame_at == 0 {
            self.eye_from
        } else if frame_at == self.frames {
            self.eye_to
        } else {
            (self.blend)(self.eye_from, self.eye_to, frame_at, self.frames)
        };
        Scene::with_eye(current_eye)
    }
}

} // verus!
