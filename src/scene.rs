use vstd::prelude::*;

verus! {

/// A point on the world plane, in whole world units.
#[derive(Clone, Copy, Debug, PartialEq, Eq, Structural)]
pub struct Vec2i {
    pub x: i32,
    pub y: i32,
}

/// A linear colour in fixed point: `LIGHT_ONE` stands for 1.0 in each channel.
#[derive(Clone, Copy, Debug, PartialEq, Eq, Structural)]
pub struct LightColor {
    pub r: u16,
    pub g: u16,
    pub b: u16,
}

/// Uniform light that reaches every pixel and is never blocked.
/// `intensity` is fixed point (`LIGHT_ONE` is 1.0); a negative value is malformed.
#[derive(Clone, Copy, Debug, PartialEq, Eq, Structural)]
pub struct AmbientLight2d {
    pub color: LightColor,
    pub intensity: i32,
}

/// A light with a radius of influence, as authored on a scene entity.
/// Negative `intensity` or `radius` is malformed and treated as zero.
#[derive(Clone, Copy, Debug, PartialEq, Eq, Structural)]
pub struct PointLight2d {
    pub color: LightColor,
    pub intensity: i32,
    pub radius: i32,
}

/// An opaque disc that blocks light passing through it.
#[derive(Clone, Copy, Debug, PartialEq, Eq, Structural)]
pub struct CircularOccluder2d {
    pub radius: i32,
}

/// A point light together with the world position of its entity.
#[derive(Clone, Copy, Debug, PartialEq, Eq, Structural)]
pub struct PlacedPointLight {
    pub position: Vec2i,
    pub light: PointLight2d,
}

/// An occluder together with the world position of its entity.
#[derive(Clone, Copy, Debug, PartialEq, Eq, Structural)]
pub struct PlacedOccluder {
    pub position: Vec2i,
    pub occluder: CircularOccluder2d,
}

/// This frame's snapshot of every lighting-relevant entity of the host scene.
pub struct Scene2d {
    pub ambient_lights: Vec<AmbientLight2d>,
    pub point_lights: Vec<PlacedPointLight>,
    pub occluders: Vec<PlacedOccluder>,
}

/// The GPU-shaped ambient record: one per frame.
#[derive(Clone, Copy, Debug, PartialEq, Eq, Structural)]
pub struct ExtractedAmbientLight2d {
    pub color: LightColor,
    pub intensity: u32,
}

/// The GPU-shaped record of one point light.
#[derive(Clone, Copy, Debug, PartialEq, Eq, Structural)]
pub struct ExtractedPointLight2d {
    pub center: Vec2i,
    pub radius: u32,
    pub intensity: u32,
    pub color: LightColor,
}

/// The GPU-shaped record of one circular occluder.
#[derive(Clone, Copy, Debug, PartialEq, Eq, Structural)]
pub struct ExtractedCircularOccluder2d {
    pub center: Vec2i,
    pub radius: u32,
}

} // verus!
