use vstd::prelude::*;
use crate::math::UVec2;

verus! {

/// The buffers and textures that the passes read and write.
#[derive(Clone, Copy, Debug, PartialEq, Eq, Structural)]
pub enum Resource {
    Triangles,
    Bvh,
    Materials,
    ImagesAtlas,
    Camera,
    PrimGbufferD0,
    PrimGbufferD1,
    GiDiffSpatialReservoirsB,
    GiDiffSamples,
    ReferenceRays,
    ReferenceHits,
    BlueNoise,
    BlueNoiseSobol,
    BlueNoiseScramblingTile,
    BlueNoiseRankingTile,
}

/// How a pass reaches a resource.
#[derive(Clone, Copy, Debug, PartialEq, Eq, Structural)]
pub enum Access {
    Readable,
    Writable,
    Sampled,
}

/// One slot of a bind group.
#[derive(Clone, Copy, Debug, PartialEq, Eq, Structural)]
pub struct Binding {
    pub resource: Resource,
    pub access: Access,
}

#[derive(Clone, Copy, Debug, PartialEq, Eq, Structural)]
pub enum TextureFormat {
    Rgba8Unorm,
    Rgba16Float,
    Rgba32Float,
}

/// What a texture may be used for.
#[derive(Clone, Copy, Debug, PartialEq, Eq, Structural)]
pub struct TextureUsages {
    pub copy_dst: bool,
    pub storage_binding: bool,
    pub texture_binding: bool,
}

/// A texture of the host, as far as the passes need to know it.
#[derive(Clone, Copy, Debug, PartialEq, Eq, Structural)]
pub struct Texture {
    pub resource: Resource,
    pub size: UVec2,
    pub format: TextureFormat,
    pub usages: TextureUsages,
}

impl Texture {
    pub fn bind_readable(&self) -> (b: Binding)
        ensures
            b == (Binding { resource: self.resource, access: Access::Readable }),
    {
        Binding { resource: self.resource, access: Access::Readable }
    }

    pub fn bind_writable(&self) -> (b: Binding)
        ensures
            b == (Binding { resource: self.resource, access: Access::Writable }),
    {
        Binding { resource: self.resource, access: Access::Writable }
    }
}

/// A storage buffer whose contents are kept on the host and written to the
/// device when they have changed.
#[derive(Debug)]
pub struct MappedStorageBuffer {
    resource: Resource,
    data: Vec<i32>,
    dirty: bool,
}

impl MappedStorageBuffer {
    pub closed spec fn resource(&self) -> Resource {
        self.resource
    }

    pub closed spec fn data(&self) -> Seq<i32> {
        self.data@
    }

    /// The host's copy is newer than the device's.
    pub closed spec fn dirty(&self) -> bool {
        self.dirty
    }

    pub fn new(resource: Resource, data: Vec<i32>) -> (buffer: MappedStorageBuffer)
        ensures
            buffer.resource() == resource,
            buffer.data() == data@,
            buffer.dirty(),
    {
        MappedStorageBuffer { resource, data, dirty: true }
    }

    pub fn contents(&self) -> (data: &Vec<i32>)
        ensures
            data@ == self.data(),
    {
        &self.data
    }

    pub fn bind_readable(&self) -> (b: Binding)
        ensures
            b == (Binding { resource: self.resource(), access: Access::Readable }),
    {
        Binding { resource: self.resource, access: Access::Readable }
    }

    /// Says whether the contents have to be written to the device, and
    /// counts them as written.
    pub fn flush(&mut self) -> (write: bool)
        ensures
            write == old(self).dirty(),
            !final(self).dirty(),
            final(self).data() == old(self).data(),
            final(self).resource() == old(self).resource(),
        no_unwind
    {
        let write = self.dirty;
        self.dirty = false;
        write
    }
}

} // verus!
