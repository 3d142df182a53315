use strolle::bindings::{Access, Binding, Resource};
use strolle::camera::{Camera, CameraController, Viewport};
use strolle::math::{UVec2, Vec3};
use strolle::passes::{CameraComputePass, GiDiffResolvingPass, ReferenceTracingPass};
use strolle::shaders::{Shader, SHADER_COUNT};

fn controller(width: u32, height: u32) -> CameraController {
    CameraController {
        camera: Camera {
            viewport: Viewport { position: UVec2::new(0, 0), size: UVec2::new(width, height) },
            origin: Vec3::new(0, 0, 0),
            forward: Vec3::new(0, 0, -100),
            right: Vec3::new(10, 0, 0),
            up: Vec3::new(0, 10, 0),
        },
        frame: 31,
        seed: 4711,
    }
}

fn b(resource: Resource, access: Access) -> Binding {
    Binding { resource, access }
}

#[test]
fn gi_diff_resolving_reads_camera_gbuffer_and_reservoirs() {
    let pass = GiDiffResolvingPass::new();
    assert_eq!(pass.compute_pass().stage(), Shader::GiDiffResolving);
    assert_eq!(
        pass.compute_pass().bind_groups(),
        &vec![vec![
            b(Resource::Camera, Access::Readable),
            b(Resource::PrimGbufferD0, Access::Readable),
            b(Resource::PrimGbufferD1, Access::Readable),
            b(Resource::GiDiffSpatialReservoirsB, Access::Readable),
            b(Resource::GiDiffSamples, Access::Writable),
        ]]
    );
}

#[test]
fn gi_diff_resolving_covers_the_viewport_with_tiles() {
    let pass = GiDiffResolvingPass::new();
    for (size, tiles) in [(0u32, 0u32), (1, 1), (7, 1), (8, 1), (9, 2), (1920, 240), (1081, 136)] {
        let d = pass.run(&controller(size, 8));
        assert_eq!(d.size, UVec2::new(tiles, 1));
        assert_eq!(d.shader, Shader::GiDiffResolving);
        assert_eq!((d.params.seed, d.params.frame), (4711, 31));
    }
    let d = pass.run(&controller(u32::MAX, u32::MAX - 8));
    assert_eq!(d.size, UVec2::new(1 << 29, (1 << 29) - 1));
}

#[test]
fn reference_tracing_binds_scene_and_screen() {
    let pass = ReferenceTracingPass::new();
    assert_eq!(pass.compute_pass().stage(), Shader::ReferenceTracing);
    assert_eq!(
        pass.compute_pass().bind_groups(),
        &vec![
            vec![
                b(Resource::Triangles, Access::Readable),
                b(Resource::Bvh, Access::Readable),
                b(Resource::Materials, Access::Readable),
                b(Resource::ImagesAtlas, Access::Sampled),
            ],
            vec![
                b(Resource::Camera, Access::Readable),
                b(Resource::ReferenceRays, Access::Readable),
                b(Resource::ReferenceHits, Access::Writable),
            ],
        ]
    );
}

#[test]
fn reference_tracing_runs_the_whole_tiles() {
    let pass = ReferenceTracingPass::new();
    for (size, tiles) in [(0u32, 0u32), (7, 0), (8, 1), (15, 1), (16, 2), (1920, 240), (1081, 135)] {
        let d = pass.run_seeded(&controller(8, size), 3, 5);
        assert_eq!(d.size, UVec2::new(1, tiles));
        assert_eq!((d.params.seed, d.params.frame, d.params.depth), (5, 31, 3));
        let d = pass.run(&controller(8, size), 255);
        assert_eq!(d.size, UVec2::new(1, tiles));
        assert_eq!((d.params.frame, d.params.depth), (31, 255));
        assert_eq!(d.shader, Shader::ReferenceTracing);
    }
}

#[test]
fn builder_keeps_the_groups_in_order() {
    let pass = CameraComputePass::builder()
        .bind(vec![b(Resource::Bvh, Access::Readable)])
        .bind(vec![])
        .bind(vec![b(Resource::Camera, Access::Writable), b(Resource::Bvh, Access::Sampled)])
        .build(Shader::Atmosphere);
    assert_eq!(pass.bind_groups().len(), 3);
    assert_eq!(pass.bind_groups()[0], vec![b(Resource::Bvh, Access::Readable)]);
    assert!(pass.bind_groups()[1].is_empty());
    assert_eq!(pass.bind_groups()[2][1], b(Resource::Bvh, Access::Sampled));
    let d = pass.run(UVec2::new(3, 4), 9u8);
    assert_eq!((d.shader, d.size, d.params), (Shader::Atmosphere, UVec2::new(3, 4), 9u8));
}

#[test]
fn shader_table_lists_every_stage_once() {
    let all = Shader::all();
    assert_eq!(all.len(), SHADER_COUNT);
    assert_eq!(all[0], Shader::Atmosphere);
    assert_eq!(all[4], Shader::DirectResolving);
    assert_eq!(all[21], Shader::ReferenceTracing);
    for i in 0..all.len() {
        for j in 0..i {
            assert_ne!(all[i], all[j]);
            assert_ne!(all[i].name(), all[j].name());
        }
    }
    assert_eq!(Shader::Atmosphere.name(), "atmosphere");
    assert_eq!(Shader::GiDiffResolving.name(), "gi_diff_resolving");
    assert_eq!(Shader::DirectTemporalResampling.name(), "direct_temporal_resampling");
    assert_eq!(Shader::IndirectDiffuseSpatialResampling.name(), "indirect_diffuse_spatial_resampling");
    assert_eq!(Shader::ReferenceTracing.name(), "reference_tracing");
}
