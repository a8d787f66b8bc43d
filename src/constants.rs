use vstd::prelude::*;

verus! {

/// Logical width of the rendered frame, in pixels.
pub const RENDER_WIDTH: u32 = 320;

/// Logical height of the rendered frame, in pixels.
pub const RENDER_HEIGHT: u32 = 200;

/// Frames drawn per second.
pub const FRAME_RATE: u32 = 60;

/// Number of triangles that make up a full circle.
pub const CIRCLE_STEPS: u32 = 50;

/// Most lights a frame can hold.
pub const MAX_LIGHTS: usize = 32;

} // verus!
