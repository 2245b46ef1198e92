//! Properties of the lighting model that relate several inputs or calls.
use vstd::prelude::*;

use crate::scene::{
    ExtractedAmbientLight2d, ExtractedCircularOccluder2d, ExtractedPointLight2d, LightColor, Vec2i,
};
use crate::shading::{
    accumulated, attenuation_num, blocks, channel, falloff_level, lights_level, modulate, occluded,
    point_contribution, segment_meets_disc, sq,
};
use crate::LIGHT_ONE;

verus! {

/// The falloff is full at the light's position and gives the light's own
/// level scaled by its intensity; it is zero at and beyond the radius; in
/// between it is the polynomial `1 - (d / radius)^2`, which never grows with
/// distance. It has no jump: between two squared distances inside the
/// radius it changes by exactly their difference, and just inside the
/// radius the light's level is bounded by its full level times
/// `1 - (d / radius)^2`, which goes to zero at the radius.
pub proof fn falloff_full_at_center_zero_at_radius(color: int, intensity: int, radius: int, d2: int, e2: int)
    requires
        radius > 0,
        0 <= d2,
        0 <= e2,
        0 <= color,
        0 <= intensity,
    ensures
        d2 <= sq(radius) && e2 <= sq(radius) ==> attenuation_num(d2, radius) - attenuation_num(e2, radius) == e2 - d2,
        d2 < sq(radius) ==> falloff_level(color, intensity, d2, radius) * (LIGHT_ONE * sq(radius))
            <= color * intensity * (sq(radius) - d2),
        d2 <= e2 ==> falloff_level(color, intensity, e2, radius) <= falloff_level(color, intensity, d2, radius),
        attenuation_num(0, radius) == sq(radius),
        falloff_level(color, intensity, 0, radius) == color * intensity / (LIGHT_ONE as int),
        d2 >= sq(radius) ==> attenuation_num(d2, radius) == 0 && falloff_level(color, intensity, d2, radius) == 0,
        d2 <= sq(radius) ==> attenuation_num(d2, radius) == sq(radius) - d2,
        d2 <= e2 ==> attenuation_num(e2, radius) <= attenuation_num(d2, radius),
{
    assert(sq(radius) > 0) by (nonlinear_arith)
        requires radius > 0;
    let ci = color * intensity;
    assert(ci * sq(radius) / (LIGHT_ONE * sq(radius)) == ci / (LIGHT_ONE as int)) by (nonlinear_arith)
        requires sq(radius) > 0;
    assert(ci >= 0) by (nonlinear_arith)
        requires color >= 0, intensity >= 0, ci == color * intensity;
    let den = LIGHT_ONE * sq(radius);
    if d2 < sq(radius) {
        let n = ci * (sq(radius) - d2);
        assert((n / den) * den <= n) by (nonlinear_arith)
            requires den > 0, n >= 0;
    }
    if d2 <= e2 && e2 < sq(radius) {
        let a = ci * (sq(radius) - e2);
        let b = ci * (sq(radius) - d2);
        let rr = sq(radius);
        assert(a <= b) by (nonlinear_arith)
            requires ci >= 0, d2 <= e2, a == ci * (rr - e2), b == ci * (rr - d2);
        assert(a / den <= b / den) by (nonlinear_arith)
            requires a <= b, den > 0;
    }
    if d2 < sq(radius) {
        let b = ci * (sq(radius) - d2);
        let rr = sq(radius);
        assert(b >= 0) by (nonlinear_arith)
            requires ci >= 0, d2 < rr, b == ci * (rr - d2);
        assert(b / den >= 0) by (nonlinear_arith)
            requires b >= 0, den > 0;
    }
}

/// Two coincident point lights with equal parameters give exactly twice
/// what one of them gives, at every pixel.
pub proof fn coincident_lights_add_linearly(
    l: ExtractedPointLight2d,
    occluders: Seq<ExtractedCircularOccluder2d>,
    pixel: Vec2i,
    k: int,
)
    ensures
        lights_level(seq![l, l], occluders, pixel, k) == 2 * point_contribution(l, occluders, pixel, k),
{
    let two = seq![l, l];
    assert(two.drop_last() =~= seq![l]);
    assert(seq![l].drop_last() =~= Seq::<ExtractedPointLight2d>::empty());
    assert(lights_level(Seq::<ExtractedPointLight2d>::empty(), occluders, pixel, k) == 0);
    assert(seq![l].last() == l);
    assert(two.last() == l);
    assert(lights_level(seq![l], occluders, pixel, k) == point_contribution(l, occluders, pixel, k));
}

/// With no point light and no occluder, a white ambient light of intensity
/// one leaves every scene colour channel as it was.
pub proof fn white_ambient_is_identity(scene_channel: u8, pixel: Vec2i, k: int)
    requires
        0 <= k < 3,
    ensures
        modulate(
            scene_channel as int,
            accumulated(
                ExtractedAmbientLight2d {
                    color: LightColor { r: 256, g: 256, b: 256 },
                    intensity: 256,
                },
                Seq::<ExtractedPointLight2d>::empty(),
                Seq::<ExtractedCircularOccluder2d>::empty(),
                pixel,
                k,
            ),
        ) == scene_channel as int,
{
    let a = ExtractedAmbientLight2d { color: LightColor { r: 256, g: 256, b: 256 }, intensity: 256 };
    assert(channel(a.color, k) == 256);
    let level = accumulated(a, Seq::<ExtractedPointLight2d>::empty(), Seq::<ExtractedCircularOccluder2d>::empty(), pixel, k);
    assert(level == 256);
    let s = scene_channel as int;
    assert(s * 256 / 256 == s) by (nonlinear_arith);
}


proof fn lemma_square_of_sum(p: int, q: int)
    ensures
        (p + q) * (p + q) == p * p + 2 * (p * q) + q * q,
{
    assert((p + q) * (p + q) == p * p + 2 * (p * q) + q * q) by (nonlinear_arith);
}

proof fn lemma_distribute(p: int, q: int, r: int, s: int)
    ensures
        (p + q) * (r + s) == p * r + p * s + q * r + q * s,
{
    assert((p + q) * (r + s) == p * r + p * s + q * r + q * s) by (nonlinear_arith);
}

proof fn lemma_regroup(a: int, b: int, c: int, d: int)
    ensures
        (a * b) * (c * d) == (a * c) * (b * d),
{
    vstd::arithmetic::mul::lemma_mul_is_associative(a, b, c * d);
    vstd::arithmetic::mul::lemma_mul_is_associative(b, c, d);
    vstd::arithmetic::mul::lemma_mul_is_commutative(b, c);
    vstd::arithmetic::mul::lemma_mul_is_associative(c, b, d);
    vstd::arithmetic::mul::lemma_mul_is_associative(a, c, b * d);
}

proof fn lemma_lagrange(vx: int, vy: int, wx: int, wy: int)
    ensures
        (vx * vx + vy * vy) * (wx * wx + wy * wy) - (wx * vx + wy * vy) * (wx * vx + wy * vy)
            == (wx * vy - wy * vx) * (wx * vy - wy * vx),
{
    lemma_distribute(vx * vx, vy * vy, wx * wx, wy * wy);
    lemma_square_of_sum(wx * vx, wy * vy);
    lemma_square_of_sum(wx * vy, -(wy * vx));
    assert(-(wy * vx) * -(wy * vx) == (wy * vx) * (wy * vx)) by (nonlinear_arith);
    assert((wx * vy) * -(wy * vx) == -((wx * vy) * (wy * vx))) by (nonlinear_arith);
    lemma_regroup(vx, vx, wx, wx);
    lemma_regroup(vx, wx, vx, wx);
    lemma_regroup(vy, vy, wy, wy);
    lemma_regroup(vy, wy, vy, wy);
    lemma_regroup(vx, vx, wy, wy);
    lemma_regroup(wy, vx, wy, vx);
    lemma_regroup(vy, vy, wx, wx);
    lemma_regroup(wx, vy, wx, vy);
    vstd::arithmetic::mul::lemma_mul_is_commutative(vx, wx);
    vstd::arithmetic::mul::lemma_mul_is_commutative(vy, wy);
    vstd::arithmetic::mul::lemma_mul_is_commutative(vx, wy);
    vstd::arithmetic::mul::lemma_mul_is_commutative(vy, wx);
    lemma_regroup(wx, vx, wy, vy);
    lemma_regroup(wx, vy, wy, vx);
    vstd::arithmetic::mul::lemma_mul_is_commutative(wx * wy, vx * vy);
    vstd::arithmetic::mul::lemma_mul_is_commutative(vy, vx);
}

proof fn lemma_closest_point(vx: int, vy: int, wx: int, wy: int, vv: int, wv: int, ww: int)
    requires
        vv == vx * vx + vy * vy,
        wv == wx * vx + wy * vy,
        ww == wx * wx + wy * wy,
    ensures
        sq(vv * (-wx) + wv * vx) + sq(vv * (-wy) + wv * vy) == vv * (vv * ww - wv * wv),
{
    lemma_square_of_sum(vv * (-wx), wv * vx);
    lemma_square_of_sum(vv * (-wy), wv * vy);
    lemma_regroup(vv, -wx, vv, -wx);
    lemma_regroup(vv, -wy, vv, -wy);
    assert((-wx) * (-wx) == wx * wx) by (nonlinear_arith);
    assert((-wy) * (-wy) == wy * wy) by (nonlinear_arith);
    lemma_regroup(vv, -wx, wv, vx);
    lemma_regroup(vv, -wy, wv, vy);
    assert((-wx) * vx == -(wx * vx)) by (nonlinear_arith);
    assert((-wy) * vy == -(wy * vy)) by (nonlinear_arith);
    assert((vv * wv) * -(wx * vx) == -((vv * wv) * (wx * vx))) by (nonlinear_arith);
    assert((vv * wv) * -(wy * vy) == -((vv * wv) * (wy * vy))) by (nonlinear_arith);
    lemma_regroup(wv, vx, wv, vx);
    lemma_regroup(wv, vy, wv, vy);
    vstd::arithmetic::mul::lemma_mul_is_distributive_add(vv * vv, wx * wx, wy * wy);
    vstd::arithmetic::mul::lemma_mul_is_distributive_add(vv * wv, wx * vx, wy * vy);
    vstd::arithmetic::mul::lemma_mul_is_distributive_add(wv * wv, vx * vx, vy * vy);
    vstd::arithmetic::mul::lemma_mul_is_associative(vv, wv, wv);
    vstd::arithmetic::mul::lemma_mul_is_commutative(wv * wv, vv);
    vstd::arithmetic::mul::lemma_mul_is_associative(vv, vv, ww);
    vstd::arithmetic::mul::lemma_mul_is_distributive_sub(vv, vv * ww, wv * wv);
}

/// An occluder that blocks the light has a point of the light-to-pixel
/// segment strictly inside its disc: blocking never comes from a disc that
/// misses the segment.
pub proof fn blocking_disc_meets_segment(light: Vec2i, pixel: Vec2i, o: ExtractedCircularOccluder2d)
    requires
        blocks(light, pixel, o),
    ensures
        segment_meets_disc(light, pixel, o),
{
    let vx = pixel.x - light.x;
    let vy = pixel.y - light.y;
    let wx = o.center.x - light.x;
    let wy = o.center.y - light.y;
    let vv = vx * vx + vy * vy;
    let wv = wx * vx + wy * vy;
    let ww = wx * wx + wy * wy;
    let cr = wx * vy - wy * vx;
    let r2 = sq(o.radius as int);
    if vv == 0 {
        let num: int = 0;
        let den: int = 1;
        assert(sq(den * (light.x - o.center.x) + num * (pixel.x - light.x)) == wx * wx) by (nonlinear_arith)
            requires den == 1, num == 0, wx == o.center.x - light.x;
        assert(sq(den * (light.y - o.center.y) + num * (pixel.y - light.y)) == wy * wy) by (nonlinear_arith)
            requires den == 1, num == 0, wy == o.center.y - light.y;
        assert(sq(den) == 1);
    } else {
        assert(vv > 0) by (nonlinear_arith)
            requires vv == vx * vx + vy * vy, vv != 0;
        let num = wv;
        let den = vv;
        lemma_lagrange(vx, vy, wx, wy);
        lemma_closest_point(vx, vy, wx, wy, vv, wv, ww);
        assert(light.x - o.center.x == -wx);
        assert(light.y - o.center.y == -wy);
        assert(vv * (cr * cr) < vv * (r2 * vv)) by (nonlinear_arith)
            requires vv > 0, cr * cr < r2 * vv;
        assert(vv * (r2 * vv) == r2 * sq(den)) by (nonlinear_arith)
            requires den == vv;
        assert(sq(den * (light.x - o.center.x) + num * (pixel.x - light.x)) + sq(
            den * (light.y - o.center.y) + num * (pixel.y - light.y),
        ) < sq(o.radius as int) * sq(den));
    }
}

/// Adding an occluder whose disc misses the light-to-pixel segment never
/// lowers that light's contribution at that pixel.
pub proof fn missing_occluder_changes_nothing(
    l: ExtractedPointLight2d,
    occluders: Seq<ExtractedCircularOccluder2d>,
    o: ExtractedCircularOccluder2d,
    pixel: Vec2i,
    k: int,
)
    requires
        !segment_meets_disc(l.center, pixel, o),
    ensures
        point_contribution(l, occluders.push(o), pixel, k) == point_contribution(l, occluders, pixel, k),
{
    if blocks(l.center, pixel, o) {
        blocking_disc_meets_segment(l.center, pixel, o);
    }
    let more = occluders.push(o);
    if occluded(l.center, pixel, more) {
        let i = choose|i: int| 0 <= i < more.len() && #[trigger] blocks(l.center, pixel, more[i]);
        assert(i < occluders.len());
        assert(more[i] == occluders[i]);
    }
    if occluded(l.center, pixel, occluders) {
        let i = choose|i: int| 0 <= i < occluders.len() && #[trigger] blocks(l.center, pixel, occluders[i]);
        assert(more[i] == occluders[i]);
    }
}


proof fn lemma_center_on_segment_blocks(light: Vec2i, pixel: Vec2i, o: ExtractedCircularOccluder2d, num: int, den: int)
    requires
        o.radius > 0,
        0 <= num <= den,
        den > 0,
        den * (o.center.x - light.x) == num * (pixel.x - light.x),
        den * (o.center.y - light.y) == num * (pixel.y - light.y),
    ensures
        blocks(light, pixel, o),
{
    let vx = pixel.x - light.x;
    let vy = pixel.y - light.y;
    let wx = o.center.x - light.x;
    let wy = o.center.y - light.y;
    let vv = vx * vx + vy * vy;
    let wv = wx * vx + wy * vy;
    let cr = wx * vy - wy * vx;
    let r2 = sq(o.radius as int);
    assert(r2 > 0) by (nonlinear_arith)
        requires r2 == (o.radius as int) * (o.radius as int), o.radius > 0;
    if vv == 0 {
        assert(vx == 0 && vy == 0) by (nonlinear_arith)
            requires vv == vx * vx + vy * vy, vv == 0;
        assert(wx == 0) by (nonlinear_arith)
            requires den * wx == num * vx, vx == 0, den > 0;
        assert(wy == 0) by (nonlinear_arith)
            requires den * wy == num * vy, vy == 0, den > 0;
        assert(wx * wx + wy * wy == 0);
    } else {
        assert(vv > 0) by (nonlinear_arith)
            requires vv == vx * vx + vy * vy, vv != 0;
        assert(den * wv == num * vv) by (nonlinear_arith)
            requires den * wx == num * vx, den * wy == num * vy, wv == wx * vx + wy * vy, vv == vx * vx + vy * vy;
        assert(0 <= wv) by (nonlinear_arith)
            requires den * wv == num * vv, num >= 0, vv > 0, den > 0;
        assert(wv <= vv) by (nonlinear_arith)
            requires den * wv == num * vv, num <= den, vv > 0, den > 0;
        assert(den * cr == 0) by (nonlinear_arith)
            requires den * wx == num * vx, den * wy == num * vy, cr == wx * vy - wy * vx;
        assert(cr == 0) by (nonlinear_arith)
            requires den * cr == 0, den > 0;
        assert(cr * cr < r2 * vv) by (nonlinear_arith)
            requires cr == 0, r2 > 0, vv > 0;
    }
}

/// An occluder of positive radius whose centre lies on the segment from the
/// light to the pixel (at `num / den` of the way) blocks that light
/// entirely: its contribution at that pixel is zero in every channel.
pub proof fn occluder_on_segment_blocks_light(
    l: ExtractedPointLight2d,
    occluders: Seq<ExtractedCircularOccluder2d>,
    i: int,
    pixel: Vec2i,
    num: int,
    den: int,
    k: int,
)
    requires
        0 <= i < occluders.len(),
        occluders[i].radius > 0,
        0 <= num <= den,
        den > 0,
        den * (occluders[i].center.x - l.center.x) == num * (pixel.x - l.center.x),
        den * (occluders[i].center.y - l.center.y) == num * (pixel.y - l.center.y),
    ensures
        point_contribution(l, occluders, pixel, k) == 0,
{
    lemma_center_on_segment_blocks(l.center, pixel, occluders[i], num, den);
    assert(occluded(l.center, pixel, occluders));
}

} // verus!
