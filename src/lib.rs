//! 2d dynamic lighting over a rendered scene: ambient light, point lights
//! with a radius of influence, and circular occluders that cast hard
//! shadows. Extraction turns the scene's entities into fixed-shape records,
//! the layout module fixes what the full-screen pass binds, the node module
//! decides frame by frame whether the pass can draw, and the shading module
//! evaluates every pixel. Numbers are integers: world positions in whole
//! units, colours, intensities and light levels in fixed point.
use vstd::prelude::*;

pub mod extract;
pub mod laws;
pub mod layout;
pub mod node;
pub mod scene;
pub mod shading;

verus! {

/// Fixed-point scale shared by colour channels, intensities and light levels.
pub const LIGHT_ONE: u32 = 256;

} // verus!
