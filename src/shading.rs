//! The per-pixel lighting evaluation: distance falloff, disc occlusion and
//! the multiplicative composite over the scene colour.
use vstd::prelude::*;

use crate::scene::{
    ExtractedAmbientLight2d, ExtractedCircularOccluder2d, ExtractedPointLight2d, LightColor, Vec2i,
};
use crate::LIGHT_ONE;

verus! {

pub open spec fn sq(a: int) -> int {
    a * a
}

/// Squared planar distance between two points.
pub open spec fn dist2(a: Vec2i, b: Vec2i) -> int {
    sq(a.x - b.x) + sq(a.y - b.y)
}

/// Whether the occluder blocks the segment from `light` to `pixel`: the
/// centre projects onto the segment (not behind the light, not beyond the
/// pixel) and lies closer to it than the occluder's radius. A segment that
/// shrank to a point is blocked when that point is inside the disc.
pub open spec fn blocks(light: Vec2i, pixel: Vec2i, o: ExtractedCircularOccluder2d) -> bool {
    let vx = pixel.x - light.x;
    let vy = pixel.y - light.y;
    let wx = o.center.x - light.x;
    let wy = o.center.y - light.y;
    let vv = vx * vx + vy * vy;
    let wv = wx * vx + wy * vy;
    let cr = wx * vy - wy * vx;
    let r2 = sq(o.radius as int);
    if vv == 0 {
        wx * wx + wy * wy < r2
    } else {
        0 <= wv && wv <= vv && cr * cr < r2 * vv
    }
}

/// Whether some point of the segment from `a` to `b` lies strictly inside
/// the occluder's disc. The point is `a + (num / den) * (b - a)`, scaled by `den`.
pub open spec fn segment_meets_disc(a: Vec2i, b: Vec2i, o: ExtractedCircularOccluder2d) -> bool {
    exists|num: int, den: int|
        #![trigger sq(den * (a.x - o.center.x) + num * (b.x - a.x)), sq(den * (a.y - o.center.y) + num * (b.y - a.y))]
        0 <= num <= den && den > 0 && sq(den * (a.x - o.center.x) + num * (b.x - a.x)) + sq(
            den * (a.y - o.center.y) + num * (b.y - a.y),
        ) < sq(o.radius as int) * sq(den)
}

/// Whether any occluder of the list blocks the light on its way to the pixel.
pub open spec fn occluded(light: Vec2i, pixel: Vec2i, occluders: Seq<ExtractedCircularOccluder2d>) -> bool {
    exists|i: int| 0 <= i < occluders.len() && #[trigger] blocks(light, pixel, occluders[i])
}

/// Decides `blocks` for an occluder whose radius fits an `i32`.
fn occluder_blocks(light: Vec2i, pixel: Vec2i, o: &ExtractedCircularOccluder2d) -> (r: bool)
    requires
        o.radius <= i32::MAX,
    ensures
        r == blocks(light, pixel, *o),
{
    let vx: i128 = pixel.x as i128 - light.x as i128;
    let vy: i128 = pixel.y as i128 - light.y as i128;
    let wx: i128 = o.center.x as i128 - light.x as i128;
    let wy: i128 = o.center.y as i128 - light.y as i128;
    proof {
        assert forall|p: i128, q: i128| -0x1_0000_0000 < p < 0x1_0000_0000 && -0x1_0000_0000 < q < 0x1_0000_0000
            implies -0x1_0000_0000_0000_0000 < #[trigger] (p * q) < 0x1_0000_0000_0000_0000 by {
            assert(-0x1_0000_0000_0000_0000 < p * q < 0x1_0000_0000_0000_0000) by (nonlinear_arith)
                requires -0x1_0000_0000 < p < 0x1_0000_0000, -0x1_0000_0000 < q < 0x1_0000_0000;
        }
        assert(0 <= vx * vx && 0 <= vy * vy && 0 <= wx * wx && 0 <= wy * wy) by (nonlinear_arith);
    }
    let vv: i128 = vx * vx + vy * vy;
    let wv: i128 = wx * vx + wy * vy;
    let cr: i128 = wx * vy - wy * vx;
    let rad: i128 = o.radius as i128;
    proof {
        assert(0 <= rad * rad < 0x4000_0000_0000_0000) by (nonlinear_arith)
            requires 0 <= rad < 0x8000_0000;
    }
    let r2: i128 = rad * rad;
    if vv == 0 {
        let ww: i128 = wx * wx + wy * wy;
        ww < r2
    } else if wv < 0 || wv > vv {
        false
    } else {
        let acr: u128 = if cr < 0 { (-cr) as u128 } else { cr as u128 };
        proof {
            assert(acr * acr == cr * cr) by (nonlinear_arith)
                requires acr == cr || acr == -cr;
            assert(r2 * vv < 0x8000_0000_0000_0000_0000_0000_0000_0000) by (nonlinear_arith)
                requires 0 <= r2 < 0x4000_0000_0000_0000, 0 <= vv < 0x2_0000_0000_0000_0000;
        }
        if acr >= 0x1_0000_0000_0000_0000 {
            proof {
                assert(acr * acr >= 0x1_0000_0000_0000_0000_0000_0000_0000_0000) by (nonlinear_arith)
                    requires acr >= 0x1_0000_0000_0000_0000;
            }
            false
        } else {
            proof {
                assert(acr * acr < 0x1_0000_0000_0000_0000_0000_0000_0000_0000) by (nonlinear_arith)
                    requires 0 <= acr < 0x1_0000_0000_0000_0000;
            }
            acr * acr < (r2 as u128) * (vv as u128)
        }
    }
}

/// Numerator of the falloff `1 - (d / radius)^2`, whose denominator is
/// `radius^2`; `d2` is the squared distance. Zero at and beyond the radius.
pub open spec fn attenuation_num(d2: int, radius: int) -> int {
    if d2 >= sq(radius) {
        0
    } else {
        sq(radius) - d2
    }
}

/// Channel `k` (0 red, 1 green, 2 blue) of a colour.
pub open spec fn channel(c: LightColor, k: int) -> int {
    if k == 0 {
        c.r as int
    } else if k == 1 {
        c.g as int
    } else {
        c.b as int
    }
}

/// Light level (fixed point) that an unblocked light gives at squared distance `d2`.
pub open spec fn falloff_level(color: int, intensity: int, d2: int, radius: int) -> int {
    if d2 >= sq(radius) {
        0
    } else {
        (color * intensity * attenuation_num(d2, radius)) / (LIGHT_ONE * sq(radius))
    }
}

/// Light level in channel `k` that one point light brings to a pixel.
pub open spec fn point_contribution(
    l: ExtractedPointLight2d,
    occluders: Seq<ExtractedCircularOccluder2d>,
    pixel: Vec2i,
    k: int,
) -> int {
    if occluded(l.center, pixel, occluders) {
        0
    } else {
        falloff_level(channel(l.color, k), l.intensity as int, dist2(l.center, pixel), l.radius as int)
    }
}

/// Sum of the contributions of all the lights, in channel `k`.
pub open spec fn lights_level(
    lights: Seq<ExtractedPointLight2d>,
    occluders: Seq<ExtractedCircularOccluder2d>,
    pixel: Vec2i,
    k: int,
) -> int
    decreases lights.len(),
{
    if lights.len() == 0 {
        0
    } else {
        lights_level(lights.drop_last(), occluders, pixel, k) + point_contribution(
            lights.last(),
            occluders,
            pixel,
            k,
        )
    }
}

/// Ambient light level in channel `k`.
pub open spec fn ambient_level(a: ExtractedAmbientLight2d, k: int) -> int {
    (channel(a.color, k) * a.intensity) / (LIGHT_ONE as int)
}

/// Total light level that reaches the pixel in channel `k`.
pub open spec fn accumulated(
    ambient: ExtractedAmbientLight2d,
    lights: Seq<ExtractedPointLight2d>,
    occluders: Seq<ExtractedCircularOccluder2d>,
    pixel: Vec2i,
    k: int,
) -> int {
    ambient_level(ambient, k) + lights_level(lights, occluders, pixel, k)
}

/// A scene colour channel modulated by a light level, clamped to the output range.
pub open spec fn modulate(scene: int, level: int) -> int {
    let v = (scene * level) / (LIGHT_ONE as int);
    if v > 255 {
        255
    } else {
        v
    }
}

/// A pixel colour of the scene, eight bits per channel.
#[derive(Clone, Copy, Debug, PartialEq, Eq, Structural)]
pub struct Rgba8 {
    pub r: u8,
    pub g: u8,
    pub b: u8,
    pub a: u8,
}

/// Light levels of the three channels, in `LIGHT_ONE` fixed point.
#[derive(Clone, Copy, Debug, PartialEq, Eq, Structural)]
pub struct LightLevel {
    pub r: u64,
    pub g: u64,
    pub b: u64,
}

pub open spec fn level_channel(l: LightLevel, k: int) -> int {
    if k == 0 {
        l.r as int
    } else if k == 1 {
        l.g as int
    } else {
        l.b as int
    }
}

pub open spec fn rgba_channel(c: Rgba8, k: int) -> int {
    if k == 0 {
        c.r as int
    } else if k == 1 {
        c.g as int
    } else {
        c.b as int
    }
}

/// Whether any occluder of the list blocks the light on its way to the pixel.
pub fn is_occluded(
    light: &ExtractedPointLight2d,
    occluders: &Vec<ExtractedCircularOccluder2d>,
    pixel: Vec2i,
) -> (r: bool)
    requires
        occluders_well_formed(occluders@),
    ensures
        r == occluded(light.center, pixel, occluders@),
{
    let mut i: usize = 0;
    while i < occluders.len()
        invariant
            i <= occluders.len(),
            occluders_well_formed(occluders@),
            forall|j: int| 0 <= j < i ==> !#[trigger] blocks(light.center, pixel, occluders@[j]),
        decreases occluders.len() - i,
    {
        if occluder_blocks(light.center, pixel, &occluders[i]) {
            return true;
        }
        i = i + 1;
    }
    false
}

proof fn lemma_falloff_bounds(color: int, intensity: int, d2: int, radius: int)
    requires
        0 <= color <= u16::MAX,
        0 <= intensity <= i32::MAX,
        0 <= d2,
        0 <= radius,
    ensures
        0 <= falloff_level(color, intensity, d2, radius) <= color * intensity / (LIGHT_ONE as int),
        falloff_level(color, intensity, d2, radius) < 0x100_0000_0000,
{
    if d2 < sq(radius) {
        let a = attenuation_num(d2, radius);
        let den = LIGHT_ONE * sq(radius);
        assert(0 < a <= sq(radius));
        assert(0 <= color * intensity) by (nonlinear_arith)
            requires 0 <= color, 0 <= intensity;
        assert(color * intensity * a <= color * intensity * sq(radius)) by (nonlinear_arith)
            requires 0 <= color * intensity, a <= sq(radius);
        assert(0 <= color * intensity * a) by (nonlinear_arith)
            requires 0 <= color * intensity, 0 < a;
        assert(color * intensity * a / den <= color * intensity * sq(radius) / den) by (nonlinear_arith)
            requires color * intensity * a <= color * intensity * sq(radius), den > 0;
        assert(color * intensity * sq(radius) / den == color * intensity / (LIGHT_ONE as int)) by (nonlinear_arith)
            requires den == LIGHT_ONE * sq(radius), sq(radius) > 0;
        assert(0 <= color * intensity * a / den) by (nonlinear_arith)
            requires 0 <= color * intensity * a, den > 0;
    }
    assert(color * intensity <= 0xFFFF * 0x7FFF_FFFF) by (nonlinear_arith)
        requires 0 <= color <= 0xFFFF, 0 <= intensity <= 0x7FFF_FFFF;
}

/// The light level that one point light brings to the pixel, channel by channel.
pub fn point_light_contribution(
    light: &ExtractedPointLight2d,
    occluders: &Vec<ExtractedCircularOccluder2d>,
    pixel: Vec2i,
) -> (r: LightLevel)
    requires
        light.radius <= i32::MAX,
        light.intensity <= i32::MAX,
        occluders_well_formed(occluders@),
    ensures
        forall|k: int| 0 <= k < 3 ==> #[trigger] level_channel(r, k) == point_contribution(*light, occluders@, pixel, k),
{
    let dx: i128 = light.center.x as i128 - pixel.x as i128;
    let dy: i128 = light.center.y as i128 - pixel.y as i128;
    proof {
        assert(0 <= dx * dx <= 0x1_0000_0000_0000_0000) by (nonlinear_arith)
            requires -0x1_0000_0000 <= dx <= 0x1_0000_0000;
        assert(0 <= dy * dy <= 0x1_0000_0000_0000_0000) by (nonlinear_arith)
            requires -0x1_0000_0000 <= dy <= 0x1_0000_0000;
    }
    let d2: i128 = dx * dx + dy * dy;
    let rad: i128 = light.radius as i128;
    proof {
        assert(rad * rad < 0x4000_0000_0000_0000) by (nonlinear_arith)
            requires 0 <= rad < 0x8000_0000;
    }
    let r2: i128 = rad * rad;
    proof {
        assert forall|k: int| 0 <= k < 3 implies 0 <= #[trigger] channel(light.color, k) <= u16::MAX by {}
        assert(d2 == dist2(light.center, pixel));
    }
    if d2 >= r2 {
        assert forall|k: int| 0 <= k < 3 implies #[trigger] level_channel(LightLevel { r: 0, g: 0, b: 0 }, k) == point_contribution(*light, occluders@, pixel, k) by {}
        return LightLevel { r: 0, g: 0, b: 0 };
    }
    if is_occluded(light, occluders, pixel) {
        assert forall|k: int| 0 <= k < 3 implies #[trigger] level_channel(LightLevel { r: 0, g: 0, b: 0 }, k) == point_contribution(*light, occluders@, pixel, k) by {}
        return LightLevel { r: 0, g: 0, b: 0 };
    }
    let att: u128 = (r2 - d2) as u128;
    let den: u128 = (LIGHT_ONE as u128) * (r2 as u128);
    let inten: u128 = light.intensity as u128;
    proof {
        assert forall|c: u128| c <= 0xFFFF implies #[trigger] (c * inten) < 0x1_0000_0000_0000 && c * inten * att < 0x1_0000_0000_0000_0000_0000_0000_0000 by {
            assert(c * inten * att < 0x1_0000_0000_0000_0000_0000_0000_0000) by (nonlinear_arith)
                requires c <= 0xFFFF, inten < 0x8000_0000, att < 0x4000_0000_0000_0000;
            assert(c * inten < 0x1_0000_0000_0000) by (nonlinear_arith)
                requires c <= 0xFFFF, inten < 0x8000_0000;
        }
        assert forall|k: int| 0 <= k < 3 implies #[trigger] falloff_level(channel(light.color, k), light.intensity as int, d2 as int, rad as int) < 0x100_0000_0000 by {
            lemma_falloff_bounds(channel(light.color, k), light.intensity as int, d2 as int, rad as int);
        }
    }
    let cr: u128 = light.color.r as u128;
    let cg: u128 = light.color.g as u128;
    let cb: u128 = light.color.b as u128;
    assert(cr * inten < 0x1_0000_0000_0000 && cr * inten * att < 0x1_0000_0000_0000_0000_0000_0000_0000);
    assert(cg * inten < 0x1_0000_0000_0000 && cg * inten * att < 0x1_0000_0000_0000_0000_0000_0000_0000);
    assert(cb * inten < 0x1_0000_0000_0000 && cb * inten * att < 0x1_0000_0000_0000_0000_0000_0000_0000);
    let lr: u128 = cr * inten * att / den;
    let lg: u128 = cg * inten * att / den;
    let lb: u128 = cb * inten * att / den;
    proof {
        assert(!occluded(light.center, pixel, occluders@));
        assert forall|k: int| 0 <= k < 3 implies #[trigger] level_channel(LightLevel { r: lr as u64, g: lg as u64, b: lb as u64 }, k) == point_contribution(*light, occluders@, pixel, k) by {
            assert(attenuation_num(d2 as int, rad as int) == att);
            assert(LIGHT_ONE * sq(rad as int) == den);
        }
    }
    LightLevel { r: lr as u64, g: lg as u64, b: lb as u64 }
}


/// Point-light records as extraction produces them: radius and intensity fit an `i32`.
pub open spec fn lights_well_formed(lights: Seq<ExtractedPointLight2d>) -> bool {
    forall|i: int| 0 <= i < lights.len() ==> (#[trigger] lights[i]).radius <= i32::MAX
        && lights[i].intensity <= i32::MAX
}

/// Occluder records as extraction produces them: the radius fits an `i32`.
pub open spec fn occluders_well_formed(occluders: Seq<ExtractedCircularOccluder2d>) -> bool {
    forall|i: int| 0 <= i < occluders.len() ==> (#[trigger] occluders[i]).radius <= i32::MAX
}

/// A level clamped to what a `u64` holds.
pub open spec fn saturate(v: int) -> int {
    if v > u64::MAX {
        u64::MAX as int
    } else {
        v
    }
}

proof fn lemma_contribution_nonneg(
    l: ExtractedPointLight2d,
    occluders: Seq<ExtractedCircularOccluder2d>,
    pixel: Vec2i,
    k: int,
)
    requires
        l.radius <= i32::MAX,
        l.intensity <= i32::MAX,
        0 <= k < 3,
    ensures
        0 <= point_contribution(l, occluders, pixel, k) < 0x100_0000_0000,
{
    assert(0 <= dist2(l.center, pixel)) by (nonlinear_arith);
    lemma_falloff_bounds(channel(l.color, k), l.intensity as int, dist2(l.center, pixel), l.radius as int);
}

proof fn lemma_lights_level_nonneg(
    lights: Seq<ExtractedPointLight2d>,
    occluders: Seq<ExtractedCircularOccluder2d>,
    pixel: Vec2i,
    k: int,
)
    requires
        lights_well_formed(lights),
        0 <= k < 3,
    ensures
        0 <= lights_level(lights, occluders, pixel, k),
    decreases lights.len(),
{
    if lights.len() > 0 {
        lemma_lights_level_nonneg(lights.drop_last(), occluders, pixel, k);
        lemma_contribution_nonneg(lights.last(), occluders, pixel, k);
    }
}

proof fn lemma_ambient_bounds(a: ExtractedAmbientLight2d, k: int)
    requires
        0 <= k < 3,
    ensures
        0 <= ambient_level(a, k) < 0x100_0000_0000,
{
    let c = channel(a.color, k);
    assert(0 <= c * a.intensity <= 0xFFFF * 0xFFFF_FFFF) by (nonlinear_arith)
        requires 0 <= c <= 0xFFFF, 0 <= a.intensity <= 0xFFFF_FFFF;
}

fn saturating_sum(a: u64, b: u64) -> (r: u64)
    ensures
        r == saturate(a + b),
{
    if a > u64::MAX - b {
        u64::MAX
    } else {
        a + b
    }
}

/// Total light that reaches the pixel: ambient plus every point light,
/// each channel clamped to what a `u64` holds.
pub fn accumulate_light(
    ambient: &ExtractedAmbientLight2d,
    lights: &Vec<ExtractedPointLight2d>,
    occluders: &Vec<ExtractedCircularOccluder2d>,
    pixel: Vec2i,
) -> (r: LightLevel)
    requires
        lights_well_formed(lights@),
        occluders_well_formed(occluders@),
    ensures
        forall|k: int| 0 <= k < 3 ==> #[trigger] level_channel(r, k) == saturate(accumulated(*ambient, lights@, occluders@, pixel, k)),
{
    let intensity: u64 = ambient.intensity as u64;
    proof {
        lemma_ambient_bounds(*ambient, 0);
        lemma_ambient_bounds(*ambient, 1);
        lemma_ambient_bounds(*ambient, 2);
        assert forall|c: u64| c <= 0xFFFF implies #[trigger] (c * intensity) <= 0xFFFF * 0xFFFF_FFFF by {
            assert(c * intensity <= 0xFFFF * 0xFFFF_FFFF) by (nonlinear_arith)
                requires c <= 0xFFFF, intensity <= 0xFFFF_FFFF;
        }
    }
    let cr: u64 = ambient.color.r as u64;
    let cg: u64 = ambient.color.g as u64;
    let cb: u64 = ambient.color.b as u64;
    assert(cr * intensity <= 0xFFFF * 0xFFFF_FFFF);
    assert(cg * intensity <= 0xFFFF * 0xFFFF_FFFF);
    assert(cb * intensity <= 0xFFFF * 0xFFFF_FFFF);
    let mut acc = LightLevel {
        r: cr * intensity / (LIGHT_ONE as u64),
        g: cg * intensity / (LIGHT_ONE as u64),
        b: cb * intensity / (LIGHT_ONE as u64),
    };
    let mut i: usize = 0;
    while i < lights.len()
        invariant
            i <= lights.len(),
            lights_well_formed(lights@),
            occluders_well_formed(occluders@),
            forall|k: int| 0 <= k < 3 ==> #[trigger] level_channel(acc, k) == saturate(
                ambient_level(*ambient, k) + lights_level(lights@.subrange(0, i as int), occluders@, pixel, k),
            ),
        decreases lights.len() - i,
    {
        let c = point_light_contribution(&lights[i], occluders, pixel);
        let ghost prev = acc;
        acc = LightLevel {
            r: saturating_sum(acc.r, c.r),
            g: saturating_sum(acc.g, c.g),
            b: saturating_sum(acc.b, c.b),
        };
        proof {
            let pre = lights@.subrange(0, i as int);
            let post = lights@.subrange(0, i + 1);
            assert(post.drop_last() =~= pre);
            assert(post.last() == lights@[i as int]);
            assert forall|k: int| 0 <= k < 3 implies #[trigger] level_channel(acc, k) == saturate(
                ambient_level(*ambient, k) + lights_level(post, occluders@, pixel, k),
            ) by {
                lemma_ambient_bounds(*ambient, k);
                lemma_lights_level_nonneg(pre, occluders@, pixel, k);
                lemma_contribution_nonneg(lights@[i as int], occluders@, pixel, k);
                assert(level_channel(c, k) == point_contribution(lights@[i as int], occluders@, pixel, k));
                assert(level_channel(prev, k) == saturate(ambient_level(*ambient, k) + lights_level(pre, occluders@, pixel, k)));
            }
        }
        i = i + 1;
    }
    assert(lights@.subrange(0, lights.len() as int) =~= lights@);
    acc
}

proof fn lemma_modulate_saturated(scene: int, level: int)
    requires
        0 <= scene <= 255,
        level >= 0,
    ensures
        modulate(scene, saturate(level)) == modulate(scene, level),
{
    if level > u64::MAX {
        if scene > 0 {
            assert(scene * (u64::MAX as int) >= u64::MAX) by (nonlinear_arith)
                requires scene >= 1;
            assert(scene * level >= scene * (u64::MAX as int)) by (nonlinear_arith)
                requires scene >= 1, level > u64::MAX;
        } else {
            assert(scene * level == 0) by (nonlinear_arith)
                requires scene == 0;
            assert(scene * (u64::MAX as int) == 0) by (nonlinear_arith)
                requires scene == 0;
        }
    }
}

fn modulate_channel(scene: u8, level: u64) -> (r: u8)
    ensures
        r == modulate(scene as int, level as int),
{
    assert((scene as u128) * (level as u128) <= 0xFF * 0xFFFF_FFFF_FFFF_FFFF) by (nonlinear_arith)
        requires scene <= 0xFF, level <= 0xFFFF_FFFF_FFFF_FFFF;
    let v: u128 = (scene as u128) * (level as u128) / (LIGHT_ONE as u128);
    if v > 255 {
        255
    } else {
        v as u8
    }
}

/// The lit colour of one pixel: the scene colour times the light that
/// reaches it, clamped to the output range; alpha is kept.
pub fn shade_pixel(
    scene: Rgba8,
    ambient: &ExtractedAmbientLight2d,
    lights: &Vec<ExtractedPointLight2d>,
    occluders: &Vec<ExtractedCircularOccluder2d>,
    pixel: Vec2i,
) -> (r: Rgba8)
    requires
        lights_well_formed(lights@),
        occluders_well_formed(occluders@),
    ensures
        forall|k: int| 0 <= k < 3 ==> #[trigger] rgba_channel(r, k) == modulate(
            rgba_channel(scene, k),
            accumulated(*ambient, lights@, occluders@, pixel, k),
        ),
        r.a == scene.a,
{
    let level = accumulate_light(ambient, lights, occluders, pixel);
    let r = Rgba8 {
        r: modulate_channel(scene.r, level.r),
        g: modulate_channel(scene.g, level.g),
        b: modulate_channel(scene.b, level.b),
        a: scene.a,
    };
    proof {
        assert forall|k: int| 0 <= k < 3 implies #[trigger] rgba_channel(r, k) == modulate(
            rgba_channel(scene, k),
            accumulated(*ambient, lights@, occluders@, pixel, k),
        ) by {
            lemma_ambient_bounds(*ambient, k);
            lemma_lights_level_nonneg(lights@, occluders@, pixel, k);
            lemma_modulate_saturated(rgba_channel(scene, k), accumulated(*ambient, lights@, occluders@, pixel, k));
            assert(level_channel(level, k) == saturate(accumulated(*ambient, lights@, occluders@, pixel, k)));
        }
    }
    r
}


/// An orthographic 2d view: `center` is the world position shown at the
/// middle of a `width` by `height` pixel target, one world unit per pixel,
/// with world `y` growing upwards and pixel rows growing downwards.
#[derive(Clone, Copy, Debug, PartialEq, Eq, Structural)]
pub struct ViewParams {
    pub center: Vec2i,
    pub width: u32,
    pub height: u32,
}

/// World x of pixel column `px`.
pub open spec fn world_x(v: ViewParams, px: int) -> int {
    v.center.x + px - (v.width as int) / 2
}

/// World y of pixel row `py`.
pub open spec fn world_y(v: ViewParams, py: int) -> int {
    v.center.y + (v.height as int) / 2 - py
}

/// The world position of pixel (`px`, `py`), or `None` when it lies outside
/// the target or outside what an `i32` holds.
pub fn pixel_world_position(v: &ViewParams, px: u32, py: u32) -> (r: Option<Vec2i>)
    ensures
        r is Some <==> px < v.width && py < v.height && i32::MIN <= world_x(*v, px as int) <= i32::MAX
            && i32::MIN <= world_y(*v, py as int) <= i32::MAX,
        r is Some ==> r->Some_0 == (Vec2i { x: world_x(*v, px as int) as i32, y: world_y(*v, py as int) as i32 }),
{
    if px >= v.width || py >= v.height {
        return None;
    }
    let x: i64 = v.center.x as i64 + px as i64 - (v.width / 2) as i64;
    let y: i64 = v.center.y as i64 + (v.height / 2) as i64 - py as i64;
    if x < i32::MIN as i64 || x > i32::MAX as i64 || y < i32::MIN as i64 || y > i32::MAX as i64 {
        return None;
    }
    Some(Vec2i { x: x as i32, y: y as i32 })
}


/// The lit colour of a pixel, as `shade_pixel` computes it.
pub open spec fn lit_color(
    scene: Rgba8,
    ambient: ExtractedAmbientLight2d,
    lights: Seq<ExtractedPointLight2d>,
    occluders: Seq<ExtractedCircularOccluder2d>,
    pixel: Vec2i,
) -> Rgba8 {
    Rgba8 {
        r: modulate(scene.r as int, accumulated(ambient, lights, occluders, pixel, 0)) as u8,
        g: modulate(scene.g as int, accumulated(ambient, lights, occluders, pixel, 1)) as u8,
        b: modulate(scene.b as int, accumulated(ambient, lights, occluders, pixel, 2)) as u8,
        a: scene.a,
    }
}

/// Every pixel of the view has a world position that fits an `i32`.
pub open spec fn view_in_range(v: ViewParams) -> bool {
    &&& i32::MIN <= world_x(v, 0)
    &&& world_x(v, v.width as int) <= i32::MAX
    &&& world_y(v, v.height as int) >= i32::MIN
    &&& world_y(v, 0) <= i32::MAX
}

/// World position of the pixel at row-major index `i` of the view.
pub open spec fn pixel_at(v: ViewParams, i: int) -> Vec2i {
    Vec2i {
        x: world_x(v, i % (v.width as int)) as i32,
        y: world_y(v, i / (v.width as int)) as i32,
    }
}

/// The full-screen lighting pass: `scene` holds the view's pixels row by
/// row, and each comes out lit by the light that reaches its world position.
pub fn shade_frame(
    ambient: &ExtractedAmbientLight2d,
    lights: &Vec<ExtractedPointLight2d>,
    occluders: &Vec<ExtractedCircularOccluder2d>,
    view: &ViewParams,
    scene: &Vec<Rgba8>,
) -> (r: Vec<Rgba8>)
    requires
        lights_well_formed(lights@),
        occluders_well_formed(occluders@),
        view_in_range(*view),
        scene@.len() == view.width * view.height,
    ensures
        r@.len() == scene@.len(),
        forall|i: int| 0 <= i < r@.len() ==> #[trigger] r@[i] == lit_color(
            scene@[i],
            *ambient,
            lights@,
            occluders@,
            pixel_at(*view, i),
        ),
{
    let mut r: Vec<Rgba8> = Vec::new();
    let mut i: usize = 0;
    while i < scene.len()
        invariant
            i <= scene@.len(),
            scene@.len() == view.width * view.height,
            lights_well_formed(lights@),
            occluders_well_formed(occluders@),
            view_in_range(*view),
            r@.len() == i,
            forall|j: int| 0 <= j < i ==> #[trigger] r@[j] == lit_color(
                scene@[j],
                *ambient,
                lights@,
                occluders@,
                pixel_at(*view, j),
            ),
        decreases scene@.len() - i,
    {
        let w = view.width;
        proof {
            assert(w > 0) by (nonlinear_arith)
                requires i < w * view.height, i >= 0;
            assert((i as int) / (w as int) < view.height) by (nonlinear_arith)
                requires i < w * view.height, w > 0, i >= 0;
        }
        let px: u32 = (i % (w as usize)) as u32;
        let py: u32 = (i / (w as usize)) as u32;
        let pos = pixel_world_position(view, px, py);
        let pixel = match pos {
            Some(p) => p,
            None => Vec2i { x: 0, y: 0 },
        };
        assert(pos is Some);
        assert(pixel == pixel_at(*view, i as int));
        let c = shade_pixel(scene[i], ambient, lights, occluders, pixel);
        proof {
            assert(rgba_channel(c, 0) == modulate(rgba_channel(scene@[i as int], 0), accumulated(*ambient, lights@, occluders@, pixel, 0)));
            assert(rgba_channel(c, 1) == modulate(rgba_channel(scene@[i as int], 1), accumulated(*ambient, lights@, occluders@, pixel, 1)));
            assert(rgba_channel(c, 2) == modulate(rgba_channel(scene@[i as int], 2), accumulated(*ambient, lights@, occluders@, pixel, 2)));
        }
        r.push(c);
        i = i + 1;
    }
    r
}

} // verus!
