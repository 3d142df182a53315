use std::collections::HashMap;
use vstd::prelude::*;
use crate::math::{Radiance, UVec2, Vec3};
use crate::shading::{Light, Material};

verus! {

broadcast use vstd::std_specs::hash::group_hash_axioms;

/// Scene objects of one kind, each under the handle it was extracted with.
#[derive(Debug)]
pub struct Registry<T> {
    entries: HashMap<u64, T>,
}

impl<T> View for Registry<T> {
    type V = Map<u64, T>;

    closed spec fn view(&self) -> Map<u64, T> {
        self.entries@
    }
}

/// What one frame's extraction found for one kind of object: the objects that
/// are new or have changed, in extraction order, and the handles that are gone.
#[derive(Debug)]
pub struct Extracted<T> {
    pub changed: Vec<(u64, T)>,
    pub removed: Vec<u64>,
}

/// The map `m` after each entry of `entries` was stored under its handle, in
/// order: of two entries under one handle the later one stays.
pub open spec fn added_all<T>(m: Map<u64, T>, entries: Seq<(u64, T)>) -> Map<u64, T>
    decreases entries.len(),
{
    if entries.len() == 0 {
        m
    } else {
        added_all(m, entries.drop_last()).insert(entries.last().0, entries.last().1)
    }
}

impl<T> Registry<T> {
    pub fn new() -> (r: Self)
        ensures
            r@ == Map::<u64, T>::empty(),
    {
        Registry { entries: HashMap::new() }
    }

    /// Stores `value` under `handle`, replacing what was there.
    pub fn add(&mut self, handle: u64, value: T)
        ensures
            final(self)@ == old(self)@.insert(handle, value),
    {
        self.entries.insert(handle, value);
    }

    /// Forgets `handle`; a handle that is not present is ignored.
    pub fn remove(&mut self, handle: u64)
        ensures
            final(self)@ == old(self)@.remove(handle),
    {
        self.entries.remove(&handle);
    }

    pub fn get(&self, handle: u64) -> (r: Option<&T>)
        ensures
            match r {
                Some(v) => self@.contains_key(handle) && *v == self@[handle],
                None => !self@.contains_key(handle),
            },
    {
        self.entries.get(&handle)
    }

    pub fn len(&self) -> (n: usize)
        ensures
            n == self@.len(),
    {
        self.entries.len()
    }

    /// Forgets every handle of `handles`.
    pub fn remove_all(&mut self, handles: &Vec<u64>)
        ensures
            final(self)@ == old(self)@.remove_keys(handles@.to_set()),
    {
        let mut i: usize = 0;
        while i < handles.len()
            invariant
                i <= handles.len(),
                self@ == old(self)@.remove_keys(handles@.take(i as int).to_set()),
            decreases handles.len() - i,
        {
            self.remove(handles[i]);
            proof {
                let before = handles@.take(i as int);
                let after = handles@.take(i + 1);
                assert(after == before.push(handles@[i as int]));
                before.lemma_push_to_set_commute(handles@[i as int]);
                assert(self@ =~= old(self)@.remove_keys(after.to_set()));
            }
            i += 1;
        }
        proof {
            assert(handles@.take(handles.len() as int) == handles@);
        }
    }

    /// Stores every entry of `entries` under its handle, in order.
    pub fn add_all(&mut self, entries: Vec<(u64, T)>)
        ensures
            final(self)@ == added_all(old(self)@, entries@),
    {
        let ghost all = entries@;
        for entry in it: entries
            invariant
                it.seq() == all,
                self@ == added_all(old(self)@, all.take(it.index() as int)),
        {
            proof {
                let k = it.index() as int;
                assert(all.take(k + 1).drop_last() == all.take(k));
            }
            self.add(entry.0, entry.1);
        }
        proof {
            assert(all.take(all.len() as int) == all);
        }
    }
}

/// Texture coordinates of a vertex, in 1/65536ths of the texture's extent.
#[derive(Clone, Copy, Debug, PartialEq, Eq, Structural)]
pub struct Uv {
    pub u: u16,
    pub v: u16,
}

/// Tangent of a vertex; `w` carries the handedness.
#[derive(Clone, Copy, Debug, PartialEq, Eq, Structural)]
pub struct Tangent {
    pub x: i16,
    pub y: i16,
    pub z: i16,
    pub w: i16,
}

impl Uv {
    pub open spec fn spec_zero() -> Uv {
        Uv { u: 0, v: 0 }
    }

    #[verifier::when_used_as_spec(spec_zero)]
    pub fn zero() -> (r: Uv)
        ensures
            r == Uv::spec_zero(),
    {
        Uv { u: 0, v: 0 }
    }
}

impl Tangent {
    pub open spec fn spec_zero() -> Tangent {
        Tangent { x: 0, y: 0, z: 0, w: 0 }
    }

    #[verifier::when_used_as_spec(spec_zero)]
    pub fn zero() -> (r: Tangent)
        ensures
            r == Tangent::spec_zero(),
    {
        Tangent { x: 0, y: 0, z: 0, w: 0 }
    }
}

/// One triangle of a mesh, in the mesh's own space.
#[derive(Clone, Copy, Debug)]
pub struct MeshTriangle {
    pub positions: [Vec3; 3],
    pub normals: [Vec3; 3],
    pub uvs: [Uv; 3],
    pub tangents: [Tangent; 3],
}

impl MeshTriangle {
    pub fn with_positions(self, positions: [Vec3; 3]) -> (r: MeshTriangle)
        ensures
            r == (MeshTriangle { positions, ..self }),
    {
        MeshTriangle { positions, ..self }
    }

    pub fn with_normals(self, normals: [Vec3; 3]) -> (r: MeshTriangle)
        ensures
            r == (MeshTriangle { normals, ..self }),
    {
        MeshTriangle { normals, ..self }
    }

    pub fn with_uvs(self, uvs: [Uv; 3]) -> (r: MeshTriangle)
        ensures
            r == (MeshTriangle { uvs, ..self }),
    {
        MeshTriangle { uvs, ..self }
    }

    pub fn with_tangents(self, tangents: [Tangent; 3]) -> (r: MeshTriangle)
        ensures
            r == (MeshTriangle { tangents, ..self }),
    {
        MeshTriangle { tangents, ..self }
    }
}

impl Default for MeshTriangle {
    fn default() -> (r: MeshTriangle)
        ensures
            r.positions@ == seq![Vec3 { x: 0, y: 0, z: 0 }; 3],
            r.normals@ == seq![Vec3 { x: 0, y: 0, z: 0 }; 3],
            r.uvs@ == seq![Uv::zero(); 3],
            r.tangents@ == seq![Tangent::zero(); 3],
    {
        let o = Vec3::zero();
        MeshTriangle {
            positions: [o, o, o],
            normals: [o, o, o],
            uvs: [Uv::zero(), Uv::zero(), Uv::zero()],
            tangents: [Tangent::zero(), Tangent::zero(), Tangent::zero()],
        }
    }
}

/// How the index list of a mesh is read.
#[derive(Clone, Copy, Debug, PartialEq, Eq, Structural)]
pub enum PrimitiveTopology {
    PointList,
    LineList,
    LineStrip,
    TriangleList,
    TriangleStrip,
}

/// The vertex data of a mesh as it was extracted: one entry per vertex in each
/// attribute list, `uvs` and `tangents` empty when the mesh has none.
#[derive(Debug)]
pub struct MeshData {
    pub topology: PrimitiveTopology,
    pub positions: Vec<Vec3>,
    pub normals: Vec<Vec3>,
    pub uvs: Vec<Uv>,
    pub tangents: Vec<Tangent>,
    pub indices: Vec<u32>,
}

pub open spec fn uv_or_zero(uvs: Seq<Uv>, i: int) -> Uv {
    if 0 <= i < uvs.len() {
        uvs[i]
    } else {
        Uv::zero()
    }
}

pub open spec fn tangent_or_zero(tangents: Seq<Tangent>, i: int) -> Tangent {
    if 0 <= i < tangents.len() {
        tangents[i]
    } else {
        Tangent::zero()
    }
}

impl MeshData {
    /// Every index names a vertex that has a position and a normal, and the
    /// indices come in whole triples.
    pub open spec fn indexable(&self) -> bool {
        &&& self.indices@.len() % 3 == 0
        &&& forall|i: int|
            0 <= i < self.indices@.len() ==> (#[trigger] self.indices@[i]) < self.positions@.len()
                && self.indices@[i] < self.normals@.len()
    }

    /// A mesh that is not a triangle list is passed over; a triangle list
    /// must be indexable.
    pub open spec fn well_formed(&self) -> bool {
        self.topology == PrimitiveTopology::TriangleList ==> self.indexable()
    }

    /// The three corners of triangle `k`, as vertex numbers.
    pub open spec fn corners(&self, k: int) -> (int, int, int) {
        (
            self.indices@[3 * k] as int,
            self.indices@[3 * k + 1] as int,
            self.indices@[3 * k + 2] as int,
        )
    }

    pub open spec fn triangle_count(&self) -> nat {
        self.indices@.len() / 3
    }

    pub fn is_well_formed(&self) -> (ok: bool)
        ensures
            ok == self.well_formed(),
    {
        if self.topology != PrimitiveTopology::TriangleList {
            return true;
        }
        if self.indices.len() % 3 != 0 {
            return false;
        }
        let mut i: usize = 0;
        while i < self.indices.len()
            invariant
                self.topology == PrimitiveTopology::TriangleList,
                self.indices@.len() % 3 == 0,
                i <= self.indices@.len(),
                forall|j: int|
                    0 <= j < i ==> (#[trigger] self.indices@[j]) < self.positions@.len()
                        && self.indices@[j] < self.normals@.len(),
            decreases self.indices@.len() - i,
        {
            let v = self.indices[i] as usize;
            if v >= self.positions.len() || v >= self.normals.len() {
                assert(self.indices@[i as int] == v);
                return false;
            }
            i += 1;
        }
        true
    }

    /// The triangles that the index list describes, in order.
    pub fn triangulate(&self) -> (triangles: Vec<MeshTriangle>)
        requires
            self.indexable(),
        ensures
            triangles@ == self.triangles(),
    {
        let mut triangles: Vec<MeshTriangle> = Vec::new();
        let mut i: usize = 0;
        while i < self.indices.len()
            invariant
                self.indexable(),
                i <= self.indices@.len(),
                i % 3 == 0,
                triangles@.len() == i / 3,
                forall|k: int|
                    0 <= k < triangles@.len() ==> #[trigger] triangles@[k] == self.triangle(k),
            decreases self.indices@.len() - i,
        {
            let a = self.indices[i] as usize;
            let b = self.indices[i + 1] as usize;
            let c = self.indices[i + 2] as usize;
            let triangle = MeshTriangle::default().with_positions(
                [self.positions[a], self.positions[b], self.positions[c]],
            ).with_normals([self.normals[a], self.normals[b], self.normals[c]]).with_uvs(
                [uv_at(&self.uvs, a), uv_at(&self.uvs, b), uv_at(&self.uvs, c)],
            ).with_tangents(
                [
                    tangent_at(&self.tangents, a),
                    tangent_at(&self.tangents, b),
                    tangent_at(&self.tangents, c),
                ],
            );
            assert(triangle == self.triangle((i / 3) as int)) by {
                let t = self.triangle((i / 3) as int);
                assert(triangle.positions =~= t.positions);
                assert(triangle.normals =~= t.normals);
                assert(triangle.uvs =~= t.uvs);
                assert(triangle.tangents =~= t.tangents);
            }
            triangles.push(triangle);
            i += 3;
        }
        assert(triangles@ =~= self.triangles());
        triangles
    }

    /// Triangle `k` of this mesh: each corner carries the position and normal
    /// of its vertex, and the vertex's texture coordinates and tangent where
    /// the mesh has them, zeros where not.
    pub open spec fn triangle(&self, k: int) -> MeshTriangle {
        let (a, b, c) = self.corners(k);
        MeshTriangle {
            positions: [self.positions@[a], self.positions@[b], self.positions@[c]],
            normals: [self.normals@[a], self.normals@[b], self.normals@[c]],
            uvs: [uv_or_zero(self.uvs@, a), uv_or_zero(self.uvs@, b), uv_or_zero(self.uvs@, c)],
            tangents: [
                tangent_or_zero(self.tangents@, a),
                tangent_or_zero(self.tangents@, b),
                tangent_or_zero(self.tangents@, c),
            ],
        }
    }

    /// The triangles that the index list describes, in order.
    pub open spec fn triangles(&self) -> Seq<MeshTriangle> {
        Seq::new(self.triangle_count(), |k: int| self.triangle(k))
    }
}

fn uv_at(uvs: &Vec<Uv>, i: usize) -> (r: Uv)
    ensures
        r == uv_or_zero(uvs@, i as int),
{
    if i < uvs.len() {
        uvs[i]
    } else {
        Uv::zero()
    }
}

fn tangent_at(tangents: &Vec<Tangent>, i: usize) -> (r: Tangent)
    ensures
        r == tangent_or_zero(tangents@, i as int),
{
    if i < tangents.len() {
        tangents[i]
    } else {
        Tangent::zero()
    }
}

/// A mesh as the tracer keeps it: its triangles in index order.
#[derive(Debug)]
pub struct Mesh {
    triangles: Vec<MeshTriangle>,
}

impl View for Mesh {
    type V = Seq<MeshTriangle>;

    closed spec fn view(&self) -> Seq<MeshTriangle> {
        self.triangles@
    }
}

impl Mesh {
    pub fn new(triangles: Vec<MeshTriangle>) -> (mesh: Mesh)
        ensures
            mesh@ == triangles@,
    {
        Mesh { triangles }
    }

    pub fn triangles(&self) -> (triangles: &Vec<MeshTriangle>)
        ensures
            triangles@ == self@,
    {
        &self.triangles
    }
}

/// A mesh that is new or has changed, under its handle.
#[derive(Debug)]
pub struct ExtractedMesh {
    pub handle: u64,
    pub mesh: MeshData,
}

#[derive(Debug)]
pub struct ExtractedMeshes {
    pub changed: Vec<ExtractedMesh>,
    pub removed: Vec<u64>,
}

/// The triangles of each registered mesh.
pub open spec fn mesh_views(m: Map<u64, Mesh>) -> Map<u64, Seq<MeshTriangle>> {
    Map::new(|h: u64| m.contains_key(h), |h: u64| m[h]@)
}

pub open spec fn mesh_handles(changed: Seq<ExtractedMesh>) -> Set<u64> {
    Set::new(|h: u64| exists|i: int| 0 <= i < changed.len() && (#[trigger] changed[i]).handle == h)
}

/// The registered triangles after the changed meshes were taken in, in order:
/// a triangle list is stored under its handle, anything else is passed over.
pub open spec fn meshes_added(
    m: Map<u64, Seq<MeshTriangle>>,
    changed: Seq<ExtractedMesh>,
) -> Map<u64, Seq<MeshTriangle>>
    decreases changed.len(),
{
    if changed.len() == 0 {
        m
    } else {
        let rest = meshes_added(m, changed.drop_last());
        let entry = changed.last();
        if entry.mesh.topology == PrimitiveTopology::TriangleList {
            rest.insert(entry.handle, entry.mesh.triangles())
        } else {
            rest
        }
    }
}

/// Brings the registered meshes up to date with one frame's extraction. Every
/// removed and every changed handle is dropped first; then each changed mesh
/// that is a triangle list is triangulated and stored. The extraction is left
/// empty.
pub fn meshes(meshes: &mut Registry<Mesh>, extracted: &mut ExtractedMeshes)
    requires
        forall|i: int|
            0 <= i < old(extracted).changed@.len() ==> (#[trigger] old(extracted).changed@[i]).mesh.well_formed(),
    ensures
        final(extracted).changed@.len() == 0,
        final(extracted).removed@.len() == 0,
        mesh_views(final(meshes)@) == meshes_added(
            mesh_views(old(meshes)@).remove_keys(
                old(extracted).removed@.to_set() + mesh_handles(old(extracted).changed@),
            ),
            old(extracted).changed@,
        ),
{
    let mut removed: Vec<u64> = Vec::new();
    std::mem::swap(&mut removed, &mut extracted.removed);
    let mut changed: Vec<ExtractedMesh> = Vec::new();
    std::mem::swap(&mut changed, &mut extracted.changed);

    meshes.remove_all(&removed);
    let ghost cleared = meshes@;
    let mut i: usize = 0;
    while i < changed.len()
        invariant
            i <= changed@.len(),
            meshes@ == cleared.remove_keys(mesh_handles(changed@.take(i as int))),
        decreases changed@.len() - i,
    {
        meshes.remove(changed[i].handle);
        proof {
            let before = mesh_handles(changed@.take(i as int));
            let after = mesh_handles(changed@.take(i + 1));
            assert(after =~= before.insert(changed@[i as int].handle)) by {
                assert forall|h: u64| after.contains(h) <==> before.insert(
                    changed@[i as int].handle,
                ).contains(h) by {
                    if before.contains(h) {
                        let j = choose|j: int|
                            0 <= j < i && (#[trigger] changed@.take(i as int)[j]).handle == h;
                        assert(changed@.take(i + 1)[j].handle == h);
                    }
                    if h == changed@[i as int].handle {
                        assert(changed@.take(i + 1)[i as int].handle == h);
                    }
                    if after.contains(h) {
                        let j = choose|j: int|
                            0 <= j < i + 1 && (#[trigger] changed@.take(i + 1)[j]).handle == h;
                        if j < i {
                            assert(changed@.take(i as int)[j].handle == h);
                        }
                    }
                }
            }
            assert(meshes@ =~= cleared.remove_keys(after));
        }
        i += 1;
    }
    proof {
        assert(changed@.take(changed@.len() as int) == changed@);
    }
    let ghost base = mesh_views(meshes@);
    assert(base =~= mesh_views(old(meshes)@).remove_keys(
        removed@.to_set() + mesh_handles(changed@),
    ));

    let mut i: usize = 0;
    while i < changed.len()
        invariant
            i <= changed@.len(),
            forall|j: int| 0 <= j < changed@.len() ==> (#[trigger] changed@[j]).mesh.well_formed(),
            mesh_views(meshes@) == meshes_added(base, changed@.take(i as int)),
        decreases changed@.len() - i,
    {
        proof {
            assert(changed@.take(i + 1).drop_last() == changed@.take(i as int));
        }
        let ghost before = mesh_views(meshes@);
        let entry = &changed[i];
        if entry.mesh.topology == PrimitiveTopology::TriangleList {
            let triangles = entry.mesh.triangulate();
            meshes.add(entry.handle, Mesh::new(triangles));
            assert(mesh_views(meshes@) =~= before.insert(entry.handle, entry.mesh.triangles()));
        }
        i += 1;
    }
    proof {
        assert(changed@.take(changed@.len() as int) == changed@);
    }
}

/// Brings a registry up to date with one frame's extraction: every removed
/// handle is dropped, then every changed object is stored under its handle.
/// The extraction is left empty.
pub fn sync<T>(registry: &mut Registry<T>, extracted: &mut Extracted<T>)
    ensures
        final(extracted).changed@.len() == 0,
        final(extracted).removed@.len() == 0,
        final(registry)@ == added_all(
            old(registry)@.remove_keys(old(extracted).removed@.to_set()),
            old(extracted).changed@,
        ),
{
    let mut removed: Vec<u64> = Vec::new();
    std::mem::swap(&mut removed, &mut extracted.removed);
    let mut changed: Vec<(u64, T)> = Vec::new();
    std::mem::swap(&mut changed, &mut extracted.changed);
    registry.remove_all(&removed);
    registry.add_all(changed);
}

/// Brings the registered materials up to date with one frame's extraction;
/// see [`sync`].
pub fn materials(materials: &mut Registry<Material>, extracted: &mut Extracted<Material>)
    ensures
        final(extracted).changed@.len() == 0,
        final(extracted).removed@.len() == 0,
        final(materials)@ == added_all(
            old(materials)@.remove_keys(old(extracted).removed@.to_set()),
            old(extracted).changed@,
        ),
{
    sync(materials, extracted)
}

/// Brings the registered lights up to date with one frame's extraction; see
/// [`sync`].
pub fn lights(lights: &mut Registry<Light>, extracted: &mut Extracted<Light>)
    ensures
        final(extracted).changed@.len() == 0,
        final(extracted).removed@.len() == 0,
        final(lights)@ == added_all(
            old(lights)@.remove_keys(old(extracted).removed@.to_set()),
            old(extracted).changed@,
        ),
{
    sync(lights, extracted)
}

/// The number of axes of a texture.
#[derive(Clone, Copy, Debug, PartialEq, Eq, Structural)]
pub enum TextureDimension {
    D1,
    D2,
    D3,
}

/// The pixels of an extracted image: its bytes, or a note that they live in a
/// texture of the host.
#[derive(Debug)]
pub enum ExtractedImageData {
    Raw { data: Vec<u8> },
    Texture { is_dynamic: bool },
}

#[derive(Debug)]
pub struct ExtractedImage {
    pub handle: u64,
    pub dimension: TextureDimension,
    pub size: UVec2,
    pub data: ExtractedImageData,
}

#[derive(Debug)]
pub struct ExtractedImages {
    pub changed: Vec<ExtractedImage>,
    pub removed: Vec<u64>,
}

/// The pixels of a registered image: its bytes, or the host texture that
/// holds them.
#[derive(Debug)]
pub enum ImageData {
    Raw { data: Vec<u8> },
    Texture { texture: u64, is_dynamic: bool },
}

#[derive(Debug)]
pub struct Image {
    pub data: ImageData,
    pub size: UVec2,
}

impl Image {
    pub fn new(data: ImageData, size: UVec2) -> (image: Image)
        ensures
            image == (Image { data, size }),
    {
        Image { data, size }
    }
}

/// The image that is registered for `entry`, given the host's textures by
/// image handle.
pub open spec fn image_of(entry: ExtractedImage, textures: Map<u64, u64>) -> Image {
    Image {
        data: match entry.data {
            ExtractedImageData::Raw { data } => ImageData::Raw { data },
            ExtractedImageData::Texture { is_dynamic } => ImageData::Texture {
                texture: textures[entry.handle],
                is_dynamic,
            },
        },
        size: entry.size,
    }
}

/// The registered images after the changed ones were taken in, in order: a
/// two-dimensional image is stored under its handle, any other passed over.
pub open spec fn images_added(
    m: Map<u64, Image>,
    changed: Seq<ExtractedImage>,
    textures: Map<u64, u64>,
) -> Map<u64, Image>
    decreases changed.len(),
{
    if changed.len() == 0 {
        m
    } else {
        let rest = images_added(m, changed.drop_last(), textures);
        let entry = changed.last();
        if entry.dimension == TextureDimension::D2 {
            rest.insert(entry.handle, image_of(entry, textures))
        } else {
            rest
        }
    }
}

/// A changed image whose pixels live in a host texture needs that texture.
pub open spec fn texture_known(entry: ExtractedImage, textures: Map<u64, u64>) -> bool {
    entry.dimension == TextureDimension::D2 && entry.data is Texture ==> textures.contains_key(
        entry.handle,
    )
}

/// Brings the registered images up to date with one frame's extraction; see
/// [`images_added`]. The extraction is left empty.
pub fn images(
    images: &mut Registry<Image>,
    textures: &Registry<u64>,
    extracted: &mut ExtractedImages,
)
    requires
        forall|i: int|
            0 <= i < old(extracted).changed@.len() ==> texture_known(
                #[trigger] old(extracted).changed@[i],
                textures@,
            ),
    ensures
        final(extracted).changed@.len() == 0,
        final(extracted).removed@.len() == 0,
        final(images)@ == images_added(
            old(images)@.remove_keys(old(extracted).removed@.to_set()),
            old(extracted).changed@,
            textures@,
        ),
{
    let mut removed: Vec<u64> = Vec::new();
    std::mem::swap(&mut removed, &mut extracted.removed);
    let mut changed: Vec<ExtractedImage> = Vec::new();
    std::mem::swap(&mut changed, &mut extracted.changed);
    images.remove_all(&removed);

    let ghost base = images@;
    let ghost all = changed@;
    for entry in it: changed
        invariant
            it.seq() == all,
            forall|i: int| 0 <= i < all.len() ==> texture_known(#[trigger] all[i], textures@),
            images@ == images_added(base, all.take(it.index() as int), textures@),
    {
        proof {
            let k = it.index() as int;
            assert(all.take(k + 1).drop_last() == all.take(k));
            assert(texture_known(all[k], textures@));
        }
        if entry.dimension == TextureDimension::D2 {
            let handle = entry.handle;
            let size = entry.size;
            let data = match entry.data {
                ExtractedImageData::Raw { data } => ImageData::Raw { data },
                ExtractedImageData::Texture { is_dynamic } => {
                    let texture = textures.get(handle).unwrap();
                    ImageData::Texture { texture: *texture, is_dynamic }
                },
            };
            images.add(handle, Image::new(data, size));
        }
    }
    proof {
        assert(all.take(all.len() as int) == all);
    }
}

/// Placement of an instance: a 3x4 matrix in row-major order, each entry in
/// 1/65536ths.
#[derive(Clone, Copy, Debug)]
pub struct Xform {
    pub matrix: [i32; 12],
}

#[derive(Debug)]
pub struct ExtractedInstance {
    pub handle: u64,
    pub mesh_handle: u64,
    pub material_handle: u64,
    pub xform: Xform,
}

#[derive(Debug)]
pub struct ExtractedInstances {
    pub changed: Vec<ExtractedInstance>,
    pub removed: Vec<u64>,
}

/// A mesh placed in the world with a material.
#[derive(Clone, Copy, Debug)]
pub struct Instance {
    pub mesh_handle: u64,
    pub material_handle: u64,
    pub xform: Xform,
}

impl Instance {
    pub fn new(mesh_handle: u64, material_handle: u64, xform: Xform) -> (instance: Instance)
        ensures
            instance == (Instance { mesh_handle, material_handle, xform }),
    {
        Instance { mesh_handle, material_handle, xform }
    }
}

/// The registered instances after the changed ones were taken in, in order.
pub open spec fn instances_added(
    m: Map<u64, Instance>,
    changed: Seq<ExtractedInstance>,
) -> Map<u64, Instance>
    decreases changed.len(),
{
    if changed.len() == 0 {
        m
    } else {
        let entry = changed.last();
        instances_added(m, changed.drop_last()).insert(
            entry.handle,
            Instance {
                mesh_handle: entry.mesh_handle,
                material_handle: entry.material_handle,
                xform: entry.xform,
            },
        )
    }
}

/// Brings the registered instances up to date with one frame's extraction;
/// see [`instances_added`]. The extraction is left empty.
pub fn instances(instances: &mut Registry<Instance>, extracted: &mut ExtractedInstances)
    ensures
        final(extracted).changed@.len() == 0,
        final(extracted).removed@.len() == 0,
        final(instances)@ == instances_added(
            old(instances)@.remove_keys(old(extracted).removed@.to_set()),
            old(extracted).changed@,
        ),
{
    let mut removed: Vec<u64> = Vec::new();
    std::mem::swap(&mut removed, &mut extracted.removed);
    let mut changed: Vec<ExtractedInstance> = Vec::new();
    std::mem::swap(&mut changed, &mut extracted.changed);
    instances.remove_all(&removed);

    let ghost base = instances@;
    let mut i: usize = 0;
    while i < changed.len()
        invariant
            i <= changed@.len(),
            instances@ == instances_added(base, changed@.take(i as int)),
        decreases changed@.len() - i,
    {
        proof {
            assert(changed@.take(i + 1).drop_last() == changed@.take(i as int));
        }
        let entry = &changed[i];
        instances.add(
            entry.handle,
            Instance::new(entry.mesh_handle, entry.material_handle, entry.xform),
        );
        i += 1;
    }
    proof {
        assert(changed@.take(changed@.len() as int) == changed@);
    }
}

/// The sun: where it stands, as a direction from the scene, and the light
/// it gives.
#[derive(Clone, Copy, Debug, PartialEq, Eq, Structural)]
pub struct Sun {
    pub direction: Vec3,
    pub radiance: Radiance,
}

#[derive(Debug)]
pub struct ExtractedSun {
    pub sun: Option<Sun>,
}

/// Takes over the extracted sun, if there is one, and leaves none behind.
pub fn sun(sun: &mut Sun, extracted: &mut ExtractedSun)
    ensures
        final(extracted).sun == None::<Sun>,
        *final(sun) == match old(extracted).sun {
            Some(s) => s,
            None => *old(sun),
        },
{
    let mut taken: Option<Sun> = None;
    std::mem::swap(&mut taken, &mut extracted.sun);
    match taken {
        Some(extracted_sun) => {
            *sun = extracted_sun;
        },
        None => {},
    }
}

} // verus!
