//! Animated effects that paint into an image.
use std::time::Duration;
use vstd::prelude::*;

use crate::rgb_image::RgbImage;

verus! {

/// An animation that paints its frames into an image.
pub trait Effect {
    /// Advances the animation to `current_time`, one `frame_duration`
    /// after the last frame, and paints it into `frame`.
    fn animate(&mut self, frame: &mut RgbImage, frame_duration: Duration, current_time: Duration);
}

} // verus!
