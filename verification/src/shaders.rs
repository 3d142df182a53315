use vstd::prelude::*;

verus! {

/// The compute and raster stages of the renderer.
#[derive(Clone, Copy, Debug, PartialEq, Eq, Structural)]
pub enum Shader {
    Atmosphere,
    BvhHeatmap,
    DirectDenoising,
    DirectRaster,
    DirectResolving,
    DirectShading,
    DirectSpatialResampling,
    DirectTemporalResampling,
    FrameComposition,
    FrameReprojection,
    GiDiffResolving,
    IndirectDiffuseDenoising,
    IndirectDiffuseResolving,
    IndirectDiffuseSpatialResampling,
    IndirectDiffuseTemporalResampling,
    IndirectShading,
    IndirectSpecularDenoising,
    IndirectSpecularResampling,
    IndirectSpecularResolving,
    IndirectTracing,
    ReferenceShading,
    ReferenceTracing,
}

/// Number of stages in the table.
pub const SHADER_COUNT: usize = 22;

impl Shader {
    /// The place of the stage in the table.
    pub open spec fn ordinal(self) -> int {
        match self {
            Shader::Atmosphere => 0,
            Shader::BvhHeatmap => 1,
            Shader::DirectDenoising => 2,
            Shader::DirectRaster => 3,
            Shader::DirectResolving => 4,
            Shader::DirectShading => 5,
            Shader::DirectSpatialResampling => 6,
            Shader::DirectTemporalResampling => 7,
            Shader::FrameComposition => 8,
            Shader::FrameReprojection => 9,
            Shader::GiDiffResolving => 10,
            Shader::IndirectDiffuseDenoising => 11,
            Shader::IndirectDiffuseResolving => 12,
            Shader::IndirectDiffuseSpatialResampling => 13,
            Shader::IndirectDiffuseTemporalResampling => 14,
            Shader::IndirectShading => 15,
            Shader::IndirectSpecularDenoising => 16,
            Shader::IndirectSpecularResampling => 17,
            Shader::IndirectSpecularResolving => 18,
            Shader::IndirectTracing => 19,
            Shader::ReferenceShading => 20,
            Shader::ReferenceTracing => 21,
        }
    }

    /// The name under which the stage's module is built and logged.
    pub open spec fn spec_name(self) -> Seq<char> {
        match self {
            Shader::Atmosphere => "atmosphere"@,
            Shader::BvhHeatmap => "bvh_heatmap"@,
            Shader::DirectDenoising => "direct_denoising"@,
            Shader::DirectRaster => "direct_raster"@,
            Shader::DirectResolving => "direct_resolving"@,
            Shader::DirectShading => "direct_shading"@,
            Shader::DirectSpatialResampling => "direct_spatial_resampling"@,
            Shader::DirectTemporalResampling => "direct_temporal_resampling"@,
            Shader::FrameComposition => "frame_composition"@,
            Shader::FrameReprojection => "frame_reprojection"@,
            Shader::GiDiffResolving => "gi_diff_resolving"@,
            Shader::IndirectDiffuseDenoising => "indirect_diffuse_denoising"@,
            Shader::IndirectDiffuseResolving => "indirect_diffuse_resolving"@,
            Shader::IndirectDiffuseSpatialResampling => "indirect_diffuse_spatial_resampling"@,
            Shader::IndirectDiffuseTemporalResampling => "indirect_diffuse_temporal_resampling"@,
            Shader::IndirectShading => "indirect_shading"@,
            Shader::IndirectSpecularDenoising => "indirect_specular_denoising"@,
            Shader::IndirectSpecularResampling => "indirect_specular_resampling"@,
            Shader::IndirectSpecularResolving => "indirect_specular_resolving"@,
            Shader::IndirectTracing => "indirect_tracing"@,
            Shader::ReferenceShading => "reference_shading"@,
            Shader::ReferenceTracing => "reference_tracing"@,
        }
    }

    pub fn name(self) -> (name: &'static str)
        ensures
            name@ == self.spec_name(),
    {
        match self {
            Shader::Atmosphere => "atmosphere",
            Shader::BvhHeatmap => "bvh_heatmap",
            Shader::DirectDenoising => "direct_denoising",
            Shader::DirectRaster => "direct_raster",
            Shader::DirectResolving => "direct_resolving",
            Shader::DirectShading => "direct_shading",
            Shader::DirectSpatialResampling => "direct_spatial_resampling",
            Shader::DirectTemporalResampling => "direct_temporal_resampling",
            Shader::FrameComposition => "frame_composition",
            Shader::FrameReprojection => "frame_reprojection",
            Shader::GiDiffResolving => "gi_diff_resolving",
            Shader::IndirectDiffuseDenoising => "indirect_diffuse_denoising",
            Shader::IndirectDiffuseResolving => "indirect_diffuse_resolving",
            Shader::IndirectDiffuseSpatialResampling => "indirect_diffuse_spatial_resampling",
            Shader::IndirectDiffuseTemporalResampling => "indirect_diffuse_temporal_resampling",
            Shader::IndirectShading => "indirect_shading",
            Shader::IndirectSpecularDenoising => "indirect_specular_denoising",
            Shader::IndirectSpecularResampling => "indirect_specular_resampling",
            Shader::IndirectSpecularResolving => "indirect_specular_resolving",
            Shader::IndirectTracing => "indirect_tracing",
            Shader::ReferenceShading => "reference_shading",
            Shader::ReferenceTracing => "reference_tracing",
        }
    }

    /// The table of stages, each once, in the order in which their modules
    /// are created.
    pub fn all() -> (table: Vec<Shader>)
        ensures
            table@.len() == SHADER_COUNT,
            forall|i: int| 0 <= i < table@.len() ==> (#[trigger] table@[i]).ordinal() == i,
    {
        let mut table: Vec<Shader> = Vec::new();
        table.push(Shader::Atmosphere);
        table.push(Shader::BvhHeatmap);
        table.push(Shader::DirectDenoising);
        table.push(Shader::DirectRaster);
        table.push(Shader::DirectResolving);
        table.push(Shader::DirectShading);
        table.push(Shader::DirectSpatialResampling);
        table.push(Shader::DirectTemporalResampling);
        table.push(Shader::FrameComposition);
        table.push(Shader::FrameReprojection);
        table.push(Shader::GiDiffResolving);
        table.push(Shader::IndirectDiffuseDenoising);
        table.push(Shader::IndirectDiffuseResolving);
        table.push(Shader::IndirectDiffuseSpatialResampling);
        table.push(Shader::IndirectDiffuseTemporalResampling);
        table.push(Shader::IndirectShading);
        table.push(Shader::IndirectSpecularDenoising);
        table.push(Shader::IndirectSpecularResampling);
        table.push(Shader::IndirectSpecularResolving);
        table.push(Shader::IndirectTracing);
        table.push(Shader::ReferenceShading);
        table.push(Shader::ReferenceTracing);
        table
    }
}

} // verus!
