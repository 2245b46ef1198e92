//! The resources the lighting pass binds, in their fixed order, and the
//! settings of its full-screen pipeline.
use vstd::prelude::*;

verus! {

/// Label of the lighting pipeline.
pub const LIGHTING_PIPELINE: &'static str = "lighting_pipeline";

/// Label of the lighting pass's binding layout.
pub const LIGHTING_BIND_GROUP_LAYOUT: &'static str = "lighting_bind_group_layout";

/// Name of the fragment entry point of the lighting shader.
pub const LIGHTING_ENTRY_POINT: &'static str = "fragment";

/// One kind of resource that the lighting shader reads.
#[derive(Clone, Copy, Debug, PartialEq, Eq, Structural)]
pub enum BindingKind {
    /// The scene colour rendered before lighting, a filterable 2d float texture.
    ColorTexture,
    /// A filtering sampler for that texture.
    FilteringSampler,
    /// The view (camera) uniform, with a dynamic offset.
    ViewUniform,
    /// The ambient record, a uniform with a dynamic offset.
    AmbientUniform,
    /// The variable-length array of point-light records.
    PointLightArray,
    /// The variable-length array of occluder records.
    OccluderArray,
}

/// One slot of the binding layout; every slot is visible to the fragment stage only.
#[derive(Clone, Copy, Debug, PartialEq, Eq, Structural)]
pub struct BindingSlot {
    pub binding: u32,
    pub kind: BindingKind,
}

/// The kinds of the lighting pass's slots, in binding order.
pub open spec fn lighting_binding_kinds() -> Seq<BindingKind> {
    seq![
        BindingKind::ColorTexture,
        BindingKind::FilteringSampler,
        BindingKind::ViewUniform,
        BindingKind::AmbientUniform,
        BindingKind::PointLightArray,
        BindingKind::OccluderArray,
    ]
}

/// The binding layout of the lighting pass: slot `i` holds the `i`-th kind
/// of `lighting_binding_kinds`.
pub fn lighting_bind_group_layout() -> (r: Vec<BindingSlot>)
    ensures
        r@.len() == lighting_binding_kinds().len(),
        forall|i: int| 0 <= i < r@.len() ==> (#[trigger] r@[i]).binding == i && r@[i].kind == lighting_binding_kinds()[i],
{
    let kinds = [
        BindingKind::ColorTexture,
        BindingKind::FilteringSampler,
        BindingKind::ViewUniform,
        BindingKind::AmbientUniform,
        BindingKind::PointLightArray,
        BindingKind::OccluderArray,
    ];
    let mut r: Vec<BindingSlot> = Vec::new();
    let mut i: usize = 0;
    while i < 6
        invariant
            0 <= i <= 6,
            kinds@ == lighting_binding_kinds(),
            r@.len() == i,
            forall|j: int| 0 <= j < i ==> (#[trigger] r@[j]).binding == j && r@[j].kind == lighting_binding_kinds()[j],
        decreases 6 - i,
    {
        r.push(BindingSlot { binding: i as u32, kind: kinds[i] });
        i = i + 1;
    }
    r
}

/// A colour format of the output target, as the host numbers them.
#[derive(Clone, Copy, Debug, PartialEq, Eq, Structural)]
pub struct OutputFormat {
    pub id: u32,
}

/// Settings of the lighting pipeline: a full-screen draw that overwrites
/// the target opaquely.
#[derive(Clone, Copy, Debug, PartialEq, Eq, Structural)]
pub struct LightingPipelineSettings {
    pub target_format: OutputFormat,
    pub blending: bool,
    pub depth_stencil: bool,
    pub sample_count: u32,
    pub writes_all_channels: bool,
    pub binding_slots: u32,
}

/// The pipeline for `format`: no blending, no depth or stencil, one sample
/// per pixel, every channel written, the six slots of the layout.
pub fn lighting_pipeline_settings(format: OutputFormat) -> (r: LightingPipelineSettings)
    ensures
        r.target_format == format,
        !r.blending,
        !r.depth_stencil,
        r.sample_count == 1,
        r.writes_all_channels,
        r.binding_slots == lighting_binding_kinds().len(),
{
    LightingPipelineSettings {
        target_format: format,
        blending: false,
        depth_stencil: false,
        sample_count: 1,
        writes_all_channels: true,
        binding_slots: 6,
    }
}

} // verus!
