use vstd::prelude::*;
use crate::bindings::{Access, Binding, Resource};
use crate::camera::{CameraController, PassParams};
use crate::math::UVec2;
use crate::shaders::Shader;

verus! {

/// Side of the square tile of pixels that one workgroup covers.
pub const TILE: u32 = 8;

/// A compute stage with the resources it is wired to, by bind group.
#[derive(Debug)]
pub struct CameraComputePass {
    shader: Shader,
    bind_groups: Vec<Vec<Binding>>,
}

/// Collects the bind groups of a pass in order.
#[derive(Debug)]
pub struct CameraComputePassBuilder {
    bind_groups: Vec<Vec<Binding>>,
}

/// One run of a stage: how many workgroups in each direction, and the
/// parameters pushed to them.
#[derive(Debug)]
pub struct Dispatch<P> {
    pub shader: Shader,
    pub size: UVec2,
    pub params: P,
}

/// Parameters of a dispatch of the reference path tracer.
#[derive(Clone, Copy, Debug, PartialEq, Eq, Structural)]
pub struct ReferencePassParams {
    pub seed: u32,
    pub frame: u32,
    pub depth: u32,
}

pub open spec fn groups_of(groups: Seq<Vec<Binding>>) -> Seq<Seq<Binding>> {
    Seq::new(groups.len(), |i: int| groups[i]@)
}

/// Number of tiles needed to cover `extent` pixels.
pub open spec fn tiles_covering(extent: int) -> int {
    (extent + 7) / 8
}

/// Number of whole tiles inside `extent` pixels.
pub open spec fn tiles_within(extent: int) -> int {
    extent / 8
}

pub open spec fn binding(resource: Resource, access: Access) -> Binding {
    Binding { resource, access }
}

impl CameraComputePassBuilder {
    pub closed spec fn layout(&self) -> Seq<Seq<Binding>> {
        groups_of(self.bind_groups@)
    }

    /// Adds a bind group after those already there.
    pub fn bind(self, group: Vec<Binding>) -> (builder: CameraComputePassBuilder)
        ensures
            builder.layout() == self.layout().push(group@),
    {
        let mut bind_groups = self.bind_groups;
        bind_groups.push(group);
        assert(groups_of(bind_groups@) =~= groups_of(self.bind_groups@).push(group@));
        CameraComputePassBuilder { bind_groups }
    }

    pub fn build(self, shader: Shader) -> (pass: CameraComputePass)
        ensures
            pass.shader() == shader,
            pass.layout() == self.layout(),
    {
        CameraComputePass { shader, bind_groups: self.bind_groups }
    }
}

impl CameraComputePass {
    pub closed spec fn shader(&self) -> Shader {
        self.shader
    }

    /// The bindings of the pass, group by group.
    pub closed spec fn layout(&self) -> Seq<Seq<Binding>> {
        groups_of(self.bind_groups@)
    }

    pub fn builder() -> (builder: CameraComputePassBuilder)
        ensures
            builder.layout() == Seq::<Seq<Binding>>::empty(),
    {
        let builder = CameraComputePassBuilder { bind_groups: Vec::new() };
        assert(builder.layout() =~= Seq::<Seq<Binding>>::empty());
        builder
    }

    pub fn bind_groups(&self) -> (groups: &Vec<Vec<Binding>>)
        ensures
            groups_of(groups@) == self.layout(),
    {
        &self.bind_groups
    }

    pub fn stage(&self) -> (shader: Shader)
        ensures
            shader == self.shader(),
    {
        self.shader
    }

    /// A dispatch of this pass over `size` workgroups.
    pub fn run<P>(&self, size: UVec2, params: P) -> (dispatch: Dispatch<P>)
        ensures
            dispatch == (Dispatch { shader: self.shader(), size, params }),
    {
        Dispatch { shader: self.shader, size, params }
    }
}

fn readable(resource: Resource) -> (b: Binding)
    ensures
        b == binding(resource, Access::Readable),
{
    Binding { resource, access: Access::Readable }
}

fn writable(resource: Resource) -> (b: Binding)
    ensures
        b == binding(resource, Access::Writable),
{
    Binding { resource, access: Access::Writable }
}

/// Resolves the diffuse global-illumination reservoirs into samples.
#[derive(Debug)]
pub struct GiDiffResolvingPass {
    pass: CameraComputePass,
}

impl GiDiffResolvingPass {
    pub closed spec fn pass(&self) -> CameraComputePass {
        self.pass
    }

    pub fn new() -> (r: Self)
        ensures
            r.pass().shader() == Shader::GiDiffResolving,
            r.pass().layout() == seq![
                seq![
                    binding(Resource::Camera, Access::Readable),
                    binding(Resource::PrimGbufferD0, Access::Readable),
                    binding(Resource::PrimGbufferD1, Access::Readable),
                    binding(Resource::GiDiffSpatialReservoirsB, Access::Readable),
                    binding(Resource::GiDiffSamples, Access::Writable),
                ],
            ],
    {
        let mut group: Vec<Binding> = Vec::new();
        group.push(readable(Resource::Camera));
        group.push(readable(Resource::PrimGbufferD0));
        group.push(readable(Resource::PrimGbufferD1));
        group.push(readable(Resource::GiDiffSpatialReservoirsB));
        group.push(writable(Resource::GiDiffSamples));
        let ghost g = group@;
        assert(g =~= seq![
            binding(Resource::Camera, Access::Readable),
            binding(Resource::PrimGbufferD0, Access::Readable),
            binding(Resource::PrimGbufferD1, Access::Readable),
            binding(Resource::GiDiffSpatialReservoirsB, Access::Readable),
            binding(Resource::GiDiffSamples, Access::Writable),
        ]);
        let pass = CameraComputePass::builder().bind(group).build(Shader::GiDiffResolving);
        assert(pass.layout() =~= seq![g]);
        GiDiffResolvingPass { pass }
    }

    pub fn compute_pass(&self) -> (pass: &CameraComputePass)
        ensures
            *pass == self.pass(),
    {
        &self.pass
    }

    /// The dispatch for one frame: enough 8 x 8 tiles to cover the viewport,
    /// with the camera's parameters.
    pub fn run(&self, camera: &CameraController) -> (dispatch: Dispatch<PassParams>)
        ensures
            dispatch.shader == self.pass().shader(),
            dispatch.size.x == tiles_covering(camera.camera.viewport.size.x as int),
            dispatch.size.y == tiles_covering(camera.camera.viewport.size.y as int),
            dispatch.params == camera.pass_params(),
    {
        let size = UVec2 {
            x: tiles_to_cover(camera.camera.viewport.size.x),
            y: tiles_to_cover(camera.camera.viewport.size.y),
        };
        self.pass.run(size, camera.pass_params())
    }
}

fn tiles_to_cover(extent: u32) -> (n: u32)
    ensures
        n == tiles_covering(extent as int),
{
    if extent % TILE == 0 {
        extent / TILE
    } else {
        extent / TILE + 1
    }
}

/// Every pixel of the viewport lies in one of the tiles that cover it, and
/// no tile is wholly outside.
pub proof fn lemma_tiles_cover(extent: int, pixel: int)
    requires
        0 <= pixel < extent,
    ensures
        pixel / 8 < tiles_covering(extent),
        8 * (tiles_covering(extent) - 1) < extent,
{
}

/// A fresh seed from `rand::thread_rng`; nothing is known of it.
#[verifier::external_body]
fn random_seed() -> (seed: u32)
{
    rand::Rng::gen(&mut rand::thread_rng())
}

/// Traces the rays of the reference path tracer.
#[derive(Debug)]
pub struct ReferenceTracingPass {
    pass: CameraComputePass,
}

impl ReferenceTracingPass {
    pub closed spec fn pass(&self) -> CameraComputePass {
        self.pass
    }

    pub fn new() -> (r: Self)
        ensures
            r.pass().shader() == Shader::ReferenceTracing,
            r.pass().layout() == seq![
                seq![
                    binding(Resource::Triangles, Access::Readable),
                    binding(Resource::Bvh, Access::Readable),
                    binding(Resource::Materials, Access::Readable),
                    binding(Resource::ImagesAtlas, Access::Sampled),
                ],
                seq![
                    binding(Resource::Camera, Access::Readable),
                    binding(Resource::ReferenceRays, Access::Readable),
                    binding(Resource::ReferenceHits, Access::Writable),
                ],
            ],
    {
        let mut scene: Vec<Binding> = Vec::new();
        scene.push(readable(Resource::Triangles));
        scene.push(readable(Resource::Bvh));
        scene.push(readable(Resource::Materials));
        scene.push(Binding { resource: Resource::ImagesAtlas, access: Access::Sampled });
        let mut screen: Vec<Binding> = Vec::new();
        screen.push(readable(Resource::Camera));
        screen.push(readable(Resource::ReferenceRays));
        screen.push(writable(Resource::ReferenceHits));
        let ghost g0 = scene@;
        let ghost g1 = screen@;
        assert(g0 =~= seq![
            binding(Resource::Triangles, Access::Readable),
            binding(Resource::Bvh, Access::Readable),
            binding(Resource::Materials, Access::Readable),
            binding(Resource::ImagesAtlas, Access::Sampled),
        ]);
        assert(g1 =~= seq![
            binding(Resource::Camera, Access::Readable),
            binding(Resource::ReferenceRays, Access::Readable),
            binding(Resource::ReferenceHits, Access::Writable),
        ]);
        let pass = CameraComputePass::builder().bind(scene).bind(screen).build(
            Shader::ReferenceTracing,
        );
        assert(pass.layout() =~= seq![g0, g1]);
        ReferenceTracingPass { pass }
    }

    pub fn compute_pass(&self) -> (pass: &CameraComputePass)
        ensures
            *pass == self.pass(),
    {
        &self.pass
    }

    /// The dispatch for one bounce under a given seed: the whole 8 x 8 tiles
    /// of the viewport.
    pub fn run_seeded(&self, camera: &CameraController, depth: u8, seed: u32) -> (dispatch:
        Dispatch<ReferencePassParams>)
        ensures
            dispatch == (Dispatch {
                shader: self.pass().shader(),
                size: UVec2 {
                    x: tiles_within(camera.camera.viewport.size.x as int) as u32,
                    y: tiles_within(camera.camera.viewport.size.y as int) as u32,
                },
                params: ReferencePassParams { seed, frame: camera.frame, depth: depth as u32 },
            }),
    {
        let size = UVec2 { x: camera.camera.viewport.size.x / TILE, y: camera.camera.viewport.size.y / TILE };
        let params = ReferencePassParams { seed, frame: camera.frame, depth: depth as u32 };
        self.pass.run(size, params)
    }

    /// The dispatch for one bounce, under a seed drawn for it; see
    /// [`ReferenceTracingPass::run_seeded`].
    pub fn run(&self, camera: &CameraController, depth: u8) -> (dispatch: Dispatch<
        ReferencePassParams,
    >)
        ensures
            dispatch.shader == self.pass().shader(),
            dispatch.size.x == tiles_within(camera.camera.viewport.size.x as int),
            dispatch.size.y == tiles_within(camera.camera.viewport.size.y as int),
            dispatch.params.frame == camera.frame,
            dispatch.params.depth == depth,
    {
        let seed = random_seed();
        self.run_seeded(camera, depth, seed)
    }
}

} // verus!
