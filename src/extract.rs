//! Per-frame extraction of the scene's lights and occluders into the
//! fixed-shape records that the lighting pass binds.
use vstd::prelude::*;

use crate::scene::{
    AmbientLight2d, ExtractedAmbientLight2d, ExtractedCircularOccluder2d, ExtractedPointLight2d,
    LightColor, PlacedOccluder, PlacedPointLight, Scene2d,
};
use crate::shading::{
    channel, lights_well_formed, occluders_well_formed, shade_pixel, Rgba8,
};
use crate::scene::Vec2i;
use crate::shading::{accumulated, modulate, rgba_channel};
use crate::LIGHT_ONE;

verus! {

/// A malformed negative value is taken as zero.
pub open spec fn non_negative(v: i32) -> u32 {
    if v < 0 {
        0
    } else {
        v as u32
    }
}

pub open spec fn extracted_point_light(p: PlacedPointLight) -> ExtractedPointLight2d {
    ExtractedPointLight2d {
        center: p.position,
        radius: non_negative(p.light.radius),
        intensity: non_negative(p.light.intensity),
        color: p.light.color,
    }
}

pub open spec fn extracted_occluder(p: PlacedOccluder) -> ExtractedCircularOccluder2d {
    ExtractedCircularOccluder2d { center: p.position, radius: non_negative(p.occluder.radius) }
}

/// Sum over the ambient lights of colour times intensity, in channel `k`
/// (fixed point squared).
pub open spec fn ambient_sum(lights: Seq<AmbientLight2d>, k: int) -> int
    decreases lights.len(),
{
    if lights.len() == 0 {
        0
    } else {
        ambient_sum(lights.drop_last(), k) + channel(lights.last().color, k) * non_negative(
            lights.last().intensity,
        )
    }
}

/// One channel of the combined ambient colour: the summed light, clamped to a `u16`.
pub open spec fn combined_channel(lights: Seq<AmbientLight2d>, k: int) -> u16 {
    let v = ambient_sum(lights, k) / (LIGHT_ONE as int);
    if v > u16::MAX {
        u16::MAX
    } else {
        v as u16
    }
}

/// The ambient lights summed: their colours weighted by their intensities
/// are added up and clamped, at intensity one. With no light it is black.
pub open spec fn summed_ambient(lights: Seq<AmbientLight2d>) -> ExtractedAmbientLight2d {
    ExtractedAmbientLight2d {
        color: LightColor {
            r: combined_channel(lights, 0),
            g: combined_channel(lights, 1),
            b: combined_channel(lights, 2),
        },
        intensity: LIGHT_ONE as u32,
    }
}

/// The ambient record of a frame. A single ambient light is mirrored as it
/// is, its intensity clamped at zero; several are reduced by summing
/// (`summed_ambient`), which does not depend on their order; with none the
/// record is black.
pub open spec fn combined_ambient(lights: Seq<AmbientLight2d>) -> ExtractedAmbientLight2d {
    if lights.len() == 1 {
        ExtractedAmbientLight2d { color: lights[0].color, intensity: non_negative(lights[0].intensity) }
    } else {
        summed_ambient(lights)
    }
}

const AMBIENT_CAP: u64 = 16777216;

proof fn lemma_ambient_sum_nonneg(lights: Seq<AmbientLight2d>, k: int)
    ensures
        ambient_sum(lights, k) >= 0,
    decreases lights.len(),
{
    if lights.len() > 0 {
        lemma_ambient_sum_nonneg(lights.drop_last(), k);
        let c = channel(lights.last().color, k);
        let i = non_negative(lights.last().intensity) as int;
        assert(c * i >= 0) by (nonlinear_arith)
            requires c >= 0, i >= 0;
    }
}

fn weighted(c: u16, intensity: i32) -> (r: u64)
    ensures
        r == c * non_negative(intensity),
        r < 0x1_0000_0000_0000,
{
    if intensity < 0 {
        0
    } else {
        assert((c as u64) * (intensity as u64) < 0x1_0000_0000_0000) by (nonlinear_arith)
            requires c <= 0xFFFF, 0 <= intensity <= 0x7FFF_FFFF;
        (c as u64) * (intensity as u64)
    }
}

fn clamp_to_channel(total: u64) -> (r: u16)
    requires
        total <= AMBIENT_CAP,
    ensures
        r == (if (total as int) / (LIGHT_ONE as int) > u16::MAX { u16::MAX as int } else { (total as int) / (LIGHT_ONE as int) }),
{
    let v: u64 = total / (LIGHT_ONE as u64);
    if v > u16::MAX as u64 {
        u16::MAX
    } else {
        v as u16
    }
}

fn sum_ambient_lights(lights: &Vec<AmbientLight2d>) -> (r: ExtractedAmbientLight2d)
    ensures
        r == summed_ambient(lights@),
{
    let mut tr: u64 = 0;
    let mut tg: u64 = 0;
    let mut tb: u64 = 0;
    let mut i: usize = 0;
    while i < lights.len()
        invariant
            i <= lights.len(),
            tr as int == (if ambient_sum(lights@.subrange(0, i as int), 0) > AMBIENT_CAP { AMBIENT_CAP as int } else { ambient_sum(lights@.subrange(0, i as int), 0) }),
            tg as int == (if ambient_sum(lights@.subrange(0, i as int), 1) > AMBIENT_CAP { AMBIENT_CAP as int } else { ambient_sum(lights@.subrange(0, i as int), 1) }),
            tb as int == (if ambient_sum(lights@.subrange(0, i as int), 2) > AMBIENT_CAP { AMBIENT_CAP as int } else { ambient_sum(lights@.subrange(0, i as int), 2) }),
        decreases lights.len() - i,
    {
        let a = lights[i];
        let wr = weighted(a.color.r, a.intensity);
        let wg = weighted(a.color.g, a.intensity);
        let wb = weighted(a.color.b, a.intensity);
        proof {
            let pre = lights@.subrange(0, i as int);
            let post = lights@.subrange(0, i + 1);
            assert(post.drop_last() =~= pre);
            assert(post.last() == a);
            lemma_ambient_sum_nonneg(pre, 0);
            lemma_ambient_sum_nonneg(pre, 1);
            lemma_ambient_sum_nonneg(pre, 2);
        }
        tr = if tr + wr > AMBIENT_CAP { AMBIENT_CAP } else { tr + wr };
        tg = if tg + wg > AMBIENT_CAP { AMBIENT_CAP } else { tg + wg };
        tb = if tb + wb > AMBIENT_CAP { AMBIENT_CAP } else { tb + wb };
        i = i + 1;
    }
    assert(lights@.subrange(0, lights.len() as int) =~= lights@);
    ExtractedAmbientLight2d {
        color: LightColor { r: clamp_to_channel(tr), g: clamp_to_channel(tg), b: clamp_to_channel(tb) },
        intensity: LIGHT_ONE,
    }
}

/// Reduces every ambient light of the scene to the single ambient record.
pub fn extract_ambient_lights(lights: &Vec<AmbientLight2d>) -> (r: ExtractedAmbientLight2d)
    ensures
        r == combined_ambient(lights@),
{
    if lights.len() == 1 {
        let a = lights[0];
        ExtractedAmbientLight2d { color: a.color, intensity: non_negative_exec(a.intensity) }
    } else {
        sum_ambient_lights(lights)
    }
}

fn non_negative_exec(v: i32) -> (r: u32)
    ensures
        r == non_negative(v),
{
    if v < 0 {
        0
    } else {
        v as u32
    }
}

/// Fills `out` with one record per point light, in scene order; whatever
/// `out` held before is dropped.
pub fn extract_point_lights(lights: &Vec<PlacedPointLight>, out: &mut Vec<ExtractedPointLight2d>)
    ensures
        final(out)@ == lights@.map_values(|p: PlacedPointLight| extracted_point_light(p)),
        lights_well_formed(final(out)@),
{
    out.clear();
    let mut i: usize = 0;
    while i < lights.len()
        invariant
            i <= lights.len(),
            out@ == lights@.subrange(0, i as int).map_values(|p: PlacedPointLight| extracted_point_light(p)),
        decreases lights.len() - i,
    {
        let p = lights[i];
        out.push(ExtractedPointLight2d {
            center: p.position,
            radius: non_negative_exec(p.light.radius),
            intensity: non_negative_exec(p.light.intensity),
            color: p.light.color,
        });
        assert(lights@.subrange(0, i + 1).map_values(|p: PlacedPointLight| extracted_point_light(p))
            =~= lights@.subrange(0, i as int).map_values(|p: PlacedPointLight| extracted_point_light(p)).push(extracted_point_light(p)));
        i = i + 1;
    }
    assert(lights@.subrange(0, lights.len() as int) =~= lights@);
}

/// Fills `out` with one record per occluder, in scene order; whatever
/// `out` held before is dropped.
pub fn extract_circular_occluders(occluders: &Vec<PlacedOccluder>, out: &mut Vec<ExtractedCircularOccluder2d>)
    ensures
        final(out)@ == occluders@.map_values(|p: PlacedOccluder| extracted_occluder(p)),
        occluders_well_formed(final(out)@),
{
    out.clear();
    let mut i: usize = 0;
    while i < occluders.len()
        invariant
            i <= occluders.len(),
            out@ == occluders@.subrange(0, i as int).map_values(|p: PlacedOccluder| extracted_occluder(p)),
        decreases occluders.len() - i,
    {
        let p = occluders[i];
        out.push(ExtractedCircularOccluder2d { center: p.position, radius: non_negative_exec(p.occluder.radius) });
        assert(occluders@.subrange(0, i + 1).map_values(|p: PlacedOccluder| extracted_occluder(p))
            =~= occluders@.subrange(0, i as int).map_values(|p: PlacedOccluder| extracted_occluder(p)).push(extracted_occluder(p)));
        i = i + 1;
    }
    assert(occluders@.subrange(0, occluders.len() as int) =~= occluders@);
}


/// The buffers that the lighting pass binds for one frame: the ambient
/// record, then one record per point light and one per occluder.
pub struct LightBuffers {
    pub ambient: ExtractedAmbientLight2d,
    pub point_lights: Vec<ExtractedPointLight2d>,
    pub occluders: Vec<ExtractedCircularOccluder2d>,
}

impl LightBuffers {
    /// Records are as extraction makes them.
    pub open spec fn well_formed(&self) -> bool {
        lights_well_formed(self.point_lights@) && occluders_well_formed(self.occluders@)
    }

    /// The buffers hold exactly what extraction makes of `scene`.
    pub open spec fn holds_scene(&self, scene: &Scene2d) -> bool {
        &&& self.ambient == combined_ambient(scene.ambient_lights@)
        &&& self.point_lights@ == scene.point_lights@.map_values(|p: PlacedPointLight| extracted_point_light(p))
        &&& self.occluders@ == scene.occluders@.map_values(|p: PlacedOccluder| extracted_occluder(p))
    }

    /// Empty buffers: no light at all.
    pub fn new() -> (r: Self)
        ensures
            r.well_formed(),
            r.ambient == combined_ambient(Seq::<AmbientLight2d>::empty()),
            r.point_lights@.len() == 0,
            r.occluders@.len() == 0,
    {
        let none: Vec<AmbientLight2d> = Vec::new();
        LightBuffers { ambient: extract_ambient_lights(&none), point_lights: Vec::new(), occluders: Vec::new() }
    }

    /// Rebuilds every buffer from this frame's scene; nothing of the
    /// previous frame remains.
    pub fn extract(&mut self, scene: &Scene2d)
        ensures
            final(self).holds_scene(scene),
            final(self).well_formed(),
    {
        self.ambient = extract_ambient_lights(&scene.ambient_lights);
        extract_point_lights(&scene.point_lights, &mut self.point_lights);
        extract_circular_occluders(&scene.occluders, &mut self.occluders);
    }

    /// The lit colour of the pixel at world position `pixel` whose scene colour is `scene_color`.
    pub fn shade(&self, scene_color: Rgba8, pixel: Vec2i) -> (r: Rgba8)
        requires
            self.well_formed(),
        ensures
            forall|k: int| 0 <= k < 3 ==> #[trigger] rgba_channel(r, k) == modulate(
                rgba_channel(scene_color, k),
                accumulated(self.ambient, self.point_lights@, self.occluders@, pixel, k),
            ),
            r.a == scene_color.a,
    {
        shade_pixel(scene_color, &self.ambient, &self.point_lights, &self.occluders, pixel)
    }
}

/// Extraction depends on the scene alone: two extractions of an unchanged
/// scene, whatever the buffers held before, give identical buffers.
pub proof fn extraction_is_idempotent(a: &LightBuffers, b: &LightBuffers, scene: &Scene2d)
    requires
        a.holds_scene(scene),
        b.holds_scene(scene),
    ensures
        a.ambient == b.ambient,
        a.point_lights@ == b.point_lights@,
        a.occluders@ == b.occluders@,
{
}

} // verus!
