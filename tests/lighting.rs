use light_2d::extract::{
    extract_ambient_lights, extract_circular_occluders, extract_point_lights, LightBuffers,
};
use light_2d::layout::{
    lighting_bind_group_layout, lighting_pipeline_settings, BindingKind, OutputFormat,
};
use light_2d::node::{CompileOutcome, CompileResponse, FrameAction, LightingPassState};
use light_2d::scene::{
    AmbientLight2d, CircularOccluder2d, ExtractedAmbientLight2d, ExtractedCircularOccluder2d,
    ExtractedPointLight2d, LightColor, PlacedOccluder, PlacedPointLight, PointLight2d, Scene2d,
    Vec2i,
};
use light_2d::shading::{
    accumulate_light, is_occluded, pixel_world_position, point_light_contribution, shade_frame,
    shade_pixel,
    LightLevel, Rgba8, ViewParams,
};

const WHITE: LightColor = LightColor { r: 256, g: 256, b: 256 };

fn v(x: i32, y: i32) -> Vec2i {
    Vec2i { x, y }
}

fn white_light(x: i32, y: i32, radius: u32, intensity: u32) -> ExtractedPointLight2d {
    ExtractedPointLight2d { center: v(x, y), radius, intensity, color: WHITE }
}

fn dark() -> ExtractedAmbientLight2d {
    ExtractedAmbientLight2d { color: LightColor { r: 0, g: 0, b: 0 }, intensity: 256 }
}

fn grey(level: u64) -> LightLevel {
    LightLevel { r: level, g: level, b: level }
}

#[test]
fn light_at_origin_gives_three_quarters_at_half_radius() {
    let light = white_light(0, 0, 100, 256);
    let none: Vec<ExtractedCircularOccluder2d> = Vec::new();
    // 1 - (50 / 100)^2 = 0.75 of full light, 192 / 256 in fixed point
    assert_eq!(point_light_contribution(&light, &none, v(50, 0)), grey(192));
    assert_eq!(point_light_contribution(&light, &none, v(0, -50)), grey(192));
    assert_eq!(point_light_contribution(&light, &none, v(150, 0)), grey(0));
    assert_eq!(point_light_contribution(&light, &none, v(100, 0)), grey(0));
}

#[test]
fn falloff_is_full_at_center_and_scaled_by_intensity() {
    let light = ExtractedPointLight2d {
        center: v(7, -3),
        radius: 400,
        intensity: 768,
        color: LightColor { r: 256, g: 128, b: 0 },
    };
    let none: Vec<ExtractedCircularOccluder2d> = Vec::new();
    assert_eq!(
        point_light_contribution(&light, &none, v(7, -3)),
        LightLevel { r: 768, g: 384, b: 0 }
    );
    assert_eq!(point_light_contribution(&light, &none, v(407, -3)), LightLevel { r: 0, g: 0, b: 0 });
    let near = point_light_contribution(&light, &none, v(107, -3));
    let far = point_light_contribution(&light, &none, v(307, -3));
    assert!(near.r > far.r && far.r > 0);
    // 768 * (160000 - 10000) / 160000 = 720
    assert_eq!(near.r, 720);
}

#[test]
fn occluder_between_light_and_pixel_blocks_it() {
    let light = white_light(0, 0, 100, 256);
    let occluders = vec![ExtractedCircularOccluder2d { center: v(20, 0), radius: 10 }];
    assert!(is_occluded(&light, &occluders, v(40, 0)));
    assert_eq!(point_light_contribution(&light, &occluders, v(40, 0)), grey(0));
    // the segment to (40, 30) passes 12 units from the occluder's centre
    assert!(!is_occluded(&light, &occluders, v(40, 30)));
    assert_eq!(point_light_contribution(&light, &occluders, v(40, 30)), grey(192));
}

#[test]
fn occlusion_is_decided_beyond_the_light_radius_too() {
    let light = white_light(0, 0, 10, 256);
    let occluders = vec![ExtractedCircularOccluder2d { center: v(1_000_000, 0), radius: 5 }];
    assert!(is_occluded(&light, &occluders, v(2_000_000, 3)));
    assert!(!is_occluded(&light, &occluders, v(2_000_000, 2_000_000)));
    let far = vec![ExtractedCircularOccluder2d { center: v(i32::MIN, i32::MIN), radius: i32::MAX as u32 }];
    assert!(is_occluded(&light, &far, v(i32::MIN, i32::MIN)));
    assert!(!is_occluded(&light, &far, v(i32::MAX, i32::MAX)));
}

#[test]
fn occluder_beyond_pixel_or_behind_light_does_not_block() {
    let light = white_light(0, 0, 100, 256);
    let behind_pixel = vec![ExtractedCircularOccluder2d { center: v(60, 0), radius: 5 }];
    let behind_light = vec![ExtractedCircularOccluder2d { center: v(-20, 0), radius: 5 }];
    assert_eq!(point_light_contribution(&light, &behind_pixel, v(50, 0)), grey(192));
    assert_eq!(point_light_contribution(&light, &behind_light, v(50, 0)), grey(192));
}

#[test]
fn occluder_centred_on_segment_zeroes_contribution() {
    let light = white_light(10, 10, 1000, 512);
    let occluders = vec![
        ExtractedCircularOccluder2d { center: v(500, -500), radius: 3 },
        ExtractedCircularOccluder2d { center: v(40, 70), radius: 1 },
    ];
    assert_eq!(point_light_contribution(&light, &occluders, v(70, 130)), grey(0));
}

#[test]
fn distant_occluder_changes_nothing() {
    let light = white_light(0, 0, 100, 256);
    let none: Vec<ExtractedCircularOccluder2d> = Vec::new();
    let far = vec![ExtractedCircularOccluder2d { center: v(0, 80), radius: 20 }];
    let zero = vec![ExtractedCircularOccluder2d { center: v(20, 0), radius: 0 }];
    for p in [v(50, 0), v(30, 20), v(-10, -60)] {
        assert_eq!(
            point_light_contribution(&light, &far, p),
            point_light_contribution(&light, &none, p)
        );
        assert_eq!(
            point_light_contribution(&light, &zero, p),
            point_light_contribution(&light, &none, p)
        );
    }
}

#[test]
fn coincident_lights_double_the_light() {
    let light = white_light(5, 5, 100, 256);
    let none: Vec<ExtractedCircularOccluder2d> = Vec::new();
    let one = vec![light];
    let two = vec![light, light];
    for p in [v(5, 5), v(55, 5), v(30, 40), v(500, 500)] {
        let single = accumulate_light(&dark(), &one, &none, p);
        let double = accumulate_light(&dark(), &two, &none, p);
        assert_eq!(double, LightLevel { r: 2 * single.r, g: 2 * single.g, b: 2 * single.b });
    }
    assert_eq!(accumulate_light(&dark(), &two, &none, v(55, 5)), grey(384));
}

#[test]
fn white_ambient_alone_keeps_scene_colour() {
    let ambient = ExtractedAmbientLight2d { color: WHITE, intensity: 256 };
    let lights: Vec<ExtractedPointLight2d> = Vec::new();
    let occluders: Vec<ExtractedCircularOccluder2d> = Vec::new();
    for c in [
        Rgba8 { r: 0, g: 0, b: 0, a: 0 },
        Rgba8 { r: 255, g: 255, b: 255, a: 255 },
        Rgba8 { r: 12, g: 200, b: 99, a: 128 },
    ] {
        assert_eq!(shade_pixel(c, &ambient, &lights, &occluders, v(3, -8)), c);
    }
}

#[test]
fn no_light_renders_black() {
    let lights: Vec<ExtractedPointLight2d> = Vec::new();
    let occluders: Vec<ExtractedCircularOccluder2d> = Vec::new();
    let c = Rgba8 { r: 200, g: 100, b: 50, a: 255 };
    assert_eq!(shade_pixel(c, &dark(), &lights, &occluders, v(0, 0)), Rgba8 { r: 0, g: 0, b: 0, a: 255 });
}

#[test]
fn shading_modulates_and_clamps() {
    let none: Vec<ExtractedCircularOccluder2d> = Vec::new();
    let lights = vec![white_light(0, 0, 100, 256)];
    let c = Rgba8 { r: 200, g: 100, b: 40, a: 7 };
    // 0.75 of full light at distance 50
    assert_eq!(shade_pixel(c, &dark(), &lights, &none, v(50, 0)), Rgba8 { r: 150, g: 75, b: 30, a: 7 });
    let bright = ExtractedAmbientLight2d { color: WHITE, intensity: 1024 };
    assert_eq!(shade_pixel(c, &bright, &lights, &none, v(50, 0)), Rgba8 { r: 255, g: 255, b: 190, a: 7 });
}

#[test]
fn ambient_lights_are_summed_and_clamped() {
    let none: Vec<AmbientLight2d> = Vec::new();
    assert_eq!(
        extract_ambient_lights(&none),
        ExtractedAmbientLight2d { color: LightColor { r: 0, g: 0, b: 0 }, intensity: 256 }
    );
    let one = vec![AmbientLight2d { color: LightColor { r: 256, g: 128, b: 64 }, intensity: 128 }];
    assert_eq!(
        extract_ambient_lights(&one),
        ExtractedAmbientLight2d { color: LightColor { r: 256, g: 128, b: 64 }, intensity: 128 }
    );
    let negative = vec![AmbientLight2d { color: LightColor { r: 9, g: 8, b: 7 }, intensity: -3 }];
    assert_eq!(
        extract_ambient_lights(&negative),
        ExtractedAmbientLight2d { color: LightColor { r: 9, g: 8, b: 7 }, intensity: 0 }
    );
    let two = vec![
        AmbientLight2d { color: LightColor { r: 256, g: 0, b: 0 }, intensity: 256 },
        AmbientLight2d { color: LightColor { r: 128, g: 128, b: 0 }, intensity: 512 },
    ];
    assert_eq!(
        extract_ambient_lights(&two),
        ExtractedAmbientLight2d { color: LightColor { r: 512, g: 256, b: 0 }, intensity: 256 }
    );
    let huge = vec![
        AmbientLight2d { color: LightColor { r: 65535, g: 1, b: 0 }, intensity: i32::MAX },
        AmbientLight2d { color: LightColor { r: 65535, g: 1, b: 0 }, intensity: i32::MAX },
        AmbientLight2d { color: LightColor { r: 5, g: 5, b: 5 }, intensity: -40 },
    ];
    assert_eq!(
        extract_ambient_lights(&huge),
        ExtractedAmbientLight2d { color: LightColor { r: 65535, g: 65535, b: 0 }, intensity: 256 }
    );
}

#[test]
fn negative_radius_and_intensity_become_zero() {
    let lights = vec![
        PlacedPointLight {
            position: v(1, 2),
            light: PointLight2d { color: WHITE, intensity: -5, radius: 30 },
        },
        PlacedPointLight {
            position: v(-4, 9),
            light: PointLight2d { color: WHITE, intensity: 300, radius: -1 },
        },
    ];
    let mut out = vec![white_light(9, 9, 9, 9)];
    extract_point_lights(&lights, &mut out);
    assert_eq!(
        out,
        vec![
            ExtractedPointLight2d { center: v(1, 2), radius: 30, intensity: 0, color: WHITE },
            ExtractedPointLight2d { center: v(-4, 9), radius: 0, intensity: 300, color: WHITE },
        ]
    );
    let occluders = vec![
        PlacedOccluder { position: v(3, 3), occluder: CircularOccluder2d { radius: -7 } },
        PlacedOccluder { position: v(100, 50), occluder: CircularOccluder2d { radius: 10 } },
    ];
    let mut oout: Vec<ExtractedCircularOccluder2d> = Vec::new();
    extract_circular_occluders(&occluders, &mut oout);
    assert_eq!(
        oout,
        vec![
            ExtractedCircularOccluder2d { center: v(3, 3), radius: 0 },
            ExtractedCircularOccluder2d { center: v(100, 50), radius: 10 },
        ]
    );
}

fn sample_scene() -> Scene2d {
    Scene2d {
        ambient_lights: vec![AmbientLight2d { color: WHITE, intensity: 64 }],
        point_lights: vec![PlacedPointLight {
            position: v(0, 0),
            light: PointLight2d { color: WHITE, intensity: 768, radius: 400 },
        }],
        occluders: vec![PlacedOccluder {
            position: v(100, 50),
            occluder: CircularOccluder2d { radius: 10 },
        }],
    }
}

#[test]
fn extracting_twice_gives_identical_buffers() {
    let scene = sample_scene();
    let mut a = LightBuffers::new();
    a.extract(&scene);
    let first = (a.ambient, a.point_lights.clone(), a.occluders.clone());
    a.extract(&scene);
    assert_eq!((a.ambient, a.point_lights.clone(), a.occluders.clone()), first);
    let mut b = LightBuffers::new();
    b.extract(&Scene2d { ambient_lights: Vec::new(), point_lights: Vec::new(), occluders: Vec::new() });
    b.extract(&scene);
    assert_eq!((b.ambient, b.point_lights.clone(), b.occluders.clone()), first);
    assert_eq!(b.point_lights.len(), 1);
    assert_eq!(b.occluders.len(), 1);
}

#[test]
fn frame_buffers_shade_the_scene() {
    let mut buffers = LightBuffers::new();
    buffers.extract(&sample_scene());
    let c = Rgba8 { r: 100, g: 100, b: 100, a: 255 };
    // ambient 0.25, plus 3 * (1 - (200 / 400)^2) = 2.25 from the light
    assert_eq!(buffers.shade(c, v(0, 200)), Rgba8 { r: 250, g: 250, b: 250, a: 255 });
    // the occluder at (100, 50) shadows (200, 100): only ambient remains
    assert_eq!(buffers.shade(c, v(200, 100)), Rgba8 { r: 25, g: 25, b: 25, a: 255 });
}

#[test]
fn binding_layout_is_in_fixed_order() {
    let layout = lighting_bind_group_layout();
    let kinds: Vec<BindingKind> = layout.iter().map(|s| s.kind).collect();
    assert_eq!(
        kinds,
        vec![
            BindingKind::ColorTexture,
            BindingKind::FilteringSampler,
            BindingKind::ViewUniform,
            BindingKind::AmbientUniform,
            BindingKind::PointLightArray,
            BindingKind::OccluderArray,
        ]
    );
    for (i, slot) in layout.iter().enumerate() {
        assert_eq!(slot.binding as usize, i);
    }
    let settings = lighting_pipeline_settings(OutputFormat { id: 3 });
    assert_eq!(settings.target_format, OutputFormat { id: 3 });
    assert!(!settings.blending && !settings.depth_stencil && settings.writes_all_channels);
    assert_eq!(settings.sample_count, 1);
    assert_eq!(settings.binding_slots, 6);
}

#[test]
fn pass_waits_for_pipeline_then_draws() {
    let f = OutputFormat { id: 1 };
    let mut pass = LightingPassState::new(f);
    assert_eq!(pass.on_frame(f), FrameAction::RequestPipeline { format: f });
    assert_eq!(pass.on_frame(f), FrameAction::PassThrough);
    assert_eq!(pass.on_compiled(f, CompileOutcome::Compiled { pipeline: 42 }), CompileResponse::Installed);
    assert_eq!(pass.on_frame(f), FrameAction::Draw { pipeline: 42 });
    assert_eq!(pass.on_frame(f), FrameAction::Draw { pipeline: 42 });
    assert_eq!(pass, LightingPassState::Ready { format: f, pipeline: 42 });
}

#[test]
fn format_change_and_failure_keep_pass_pending() {
    let f = OutputFormat { id: 1 };
    let g = OutputFormat { id: 2 };
    let mut pass = LightingPassState::Ready { format: f, pipeline: 7 };
    assert_eq!(pass.on_frame(g), FrameAction::RequestPipeline { format: g });
    assert_eq!(pass.on_compiled(f, CompileOutcome::Compiled { pipeline: 8 }), CompileResponse::Ignore);
    assert_eq!(pass.on_compiled(g, CompileOutcome::Failed), CompileResponse::ReportFailure);
    assert_eq!(pass.on_frame(g), FrameAction::PassThrough);
    assert_eq!(pass, LightingPassState::Pending { format: g, requested: true });
    pass.invalidate();
    assert_eq!(pass, LightingPassState::Pending { format: g, requested: false });
    assert_eq!(pass.on_frame(g), FrameAction::RequestPipeline { format: g });
}

#[test]
fn pixel_positions_map_to_world() {
    let view = ViewParams { center: v(100, -20), width: 640, height: 480 };
    assert_eq!(pixel_world_position(&view, 320, 240), Some(v(100, -20)));
    assert_eq!(pixel_world_position(&view, 0, 0), Some(v(-220, 220)));
    assert_eq!(pixel_world_position(&view, 639, 479), Some(v(419, -259)));
    assert_eq!(pixel_world_position(&view, 640, 0), None);
    let edge = ViewParams { center: v(i32::MAX, 0), width: 4, height: 4 };
    assert_eq!(pixel_world_position(&edge, 2, 2), Some(v(i32::MAX, 0)));
    assert_eq!(pixel_world_position(&edge, 3, 2), None);
}

#[test]
fn frame_is_shaded_pixel_by_pixel() {
    // a 4 by 2 view centred on the light: columns map to x = -2..=1, rows to y = 1, 0
    let view = ViewParams { center: v(0, 0), width: 4, height: 2 };
    let lights = vec![white_light(0, 0, 2, 256)];
    let occluders: Vec<ExtractedCircularOccluder2d> = Vec::new();
    let c = Rgba8 { r: 100, g: 100, b: 100, a: 255 };
    let scene = vec![c; 8];
    let out = shade_frame(&dark(), &lights, &occluders, &view, &scene);
    let level = |x: i32, y: i32| -> u8 {
        let d2 = (x * x + y * y) as u32;
        if d2 >= 4 { 0 } else { (100 * (4 - d2) / 4) as u8 }
    };
    let mut expected = Vec::new();
    for y in [1, 0] {
        for x in [-2, -1, 0, 1] {
            let l = level(x, y);
            expected.push(Rgba8 { r: l, g: l, b: l, a: 255 });
        }
    }
    assert_eq!(out, expected);
    assert_eq!(out[6], c);
}
