use strolle::math::{UVec2, Vec3};
use strolle::scene::{
    images, instances, meshes, sun, sync, Extracted, ExtractedImage, ExtractedImageData,
    ExtractedImages, ExtractedInstance, ExtractedInstances, ExtractedMesh, ExtractedMeshes,
    ExtractedSun, Image, ImageData, Instance, Mesh, MeshData, MeshTriangle, PrimitiveTopology,
    Registry, Sun, Tangent, TextureDimension, Uv, Xform,
};
use strolle::math::Radiance;
use strolle::scene::{lights, materials};
use strolle::shading::{Light, LightKind, Material};

fn p(x: i16) -> Vec3 {
    Vec3::new(x, x + 1, x + 2)
}

fn quad(topology: PrimitiveTopology) -> MeshData {
    MeshData {
        topology,
        positions: vec![p(0), p(10), p(20), p(30)],
        normals: vec![p(100), p(110), p(120), p(130)],
        uvs: vec![Uv { u: 1, v: 2 }, Uv { u: 3, v: 4 }],
        tangents: vec![Tangent { x: 1, y: 2, z: 3, w: 4 }],
        indices: vec![0, 1, 2, 2, 1, 3],
    }
}

#[test]
fn triangles_take_the_attributes_of_their_corners() {
    let t = quad(PrimitiveTopology::TriangleList).triangulate();
    assert_eq!(t.len(), 2);
    assert_eq!(t[0].positions, [p(0), p(10), p(20)]);
    assert_eq!(t[0].normals, [p(100), p(110), p(120)]);
    assert_eq!(t[1].positions, [p(20), p(10), p(30)]);
    assert_eq!(t[1].normals, [p(120), p(110), p(130)]);
    // texture coordinates and tangents are zero where the mesh has none
    assert_eq!(t[0].uvs, [Uv { u: 1, v: 2 }, Uv { u: 3, v: 4 }, Uv { u: 0, v: 0 }]);
    assert_eq!(t[1].uvs, [Uv { u: 0, v: 0 }, Uv { u: 3, v: 4 }, Uv { u: 0, v: 0 }]);
    let zero = Tangent { x: 0, y: 0, z: 0, w: 0 };
    assert_eq!(t[0].tangents, [Tangent { x: 1, y: 2, z: 3, w: 4 }, zero, zero]);
    assert_eq!(t[1].tangents, [zero, zero, zero]);
}

#[test]
fn mesh_data_is_checked_before_it_is_triangulated() {
    assert!(quad(PrimitiveTopology::TriangleList).is_well_formed());
    let mut short = quad(PrimitiveTopology::TriangleList);
    short.indices.pop();
    assert!(!short.is_well_formed());
    let mut wild = quad(PrimitiveTopology::TriangleList);
    wild.indices[4] = 4;
    assert!(!wild.is_well_formed());
    let mut bare = quad(PrimitiveTopology::TriangleList);
    bare.normals.pop();
    assert!(!bare.is_well_formed());
    // anything but a triangle list is passed over, so anything goes
    wild.topology = PrimitiveTopology::LineList;
    assert!(wild.is_well_formed());
    let mut empty = quad(PrimitiveTopology::TriangleList);
    empty.indices.clear();
    assert!(empty.is_well_formed());
    assert!(empty.triangulate().is_empty());
}

#[test]
fn builder_of_a_triangle_sets_one_attribute_at_a_time() {
    let t = MeshTriangle::default();
    assert_eq!(t.positions, [Vec3::zero(); 3]);
    assert_eq!(t.normals, [Vec3::zero(); 3]);
    assert_eq!(t.uvs, [Uv::zero(); 3]);
    assert_eq!(t.tangents, [Tangent::zero(); 3]);
    let t = t.with_positions([p(1), p(2), p(3)]).with_uvs([Uv { u: 9, v: 9 }; 3]);
    assert_eq!(t.positions, [p(1), p(2), p(3)]);
    assert_eq!(t.normals, [Vec3::zero(); 3]);
    assert_eq!(t.uvs, [Uv { u: 9, v: 9 }; 3]);
    let t = t.with_normals([p(4), p(5), p(6)]).with_tangents([Tangent { x: 1, y: 1, z: 1, w: 1 }; 3]);
    assert_eq!(t.positions, [p(1), p(2), p(3)]);
    assert_eq!(t.normals, [p(4), p(5), p(6)]);
    assert_eq!(t.tangents, [Tangent { x: 1, y: 1, z: 1, w: 1 }; 3]);
}

#[test]
fn meshes_drops_removed_and_changed_and_stores_triangle_lists() {
    let mut registry: Registry<Mesh> = Registry::new();
    registry.add(1, Mesh::new(quad(PrimitiveTopology::TriangleList).triangulate()));
    registry.add(2, Mesh::new(Vec::new()));
    registry.add(3, Mesh::new(Vec::new()));
    registry.add(4, Mesh::new(Vec::new()));
    let mut fan = quad(PrimitiveTopology::TriangleList);
    fan.indices = vec![0, 1, 2];
    let mut extracted = ExtractedMeshes {
        changed: vec![
            // a changed mesh that is no triangle list is dropped
            ExtractedMesh { handle: 2, mesh: quad(PrimitiveTopology::LineStrip) },
            ExtractedMesh { handle: 3, mesh: quad(PrimitiveTopology::TriangleList) },
            ExtractedMesh { handle: 5, mesh: quad(PrimitiveTopology::TriangleList) },
            // the later of two entries stays
            ExtractedMesh { handle: 5, mesh: fan },
        ],
        removed: vec![1, 9],
    };
    meshes(&mut registry, &mut extracted);
    assert!(extracted.changed.is_empty());
    assert!(extracted.removed.is_empty());
    assert_eq!(registry.len(), 3);
    assert!(registry.get(1).is_none());
    assert!(registry.get(2).is_none());
    assert_eq!(registry.get(3).unwrap().triangles().len(), 2);
    assert_eq!(registry.get(4).unwrap().triangles().len(), 0);
    assert_eq!(registry.get(5).unwrap().triangles().len(), 1);
    assert_eq!(registry.get(5).unwrap().triangles()[0].positions, [p(0), p(10), p(20)]);
}

#[test]
fn sync_removes_then_adds_in_order() {
    let mut registry: Registry<u32> = Registry::new();
    registry.add(1, 10);
    registry.add(2, 20);
    registry.add(3, 30);
    let mut extracted = Extracted { changed: vec![(2, 21), (4, 40), (4, 41), (1, 11)], removed: vec![1, 3, 7] };
    sync(&mut registry, &mut extracted);
    assert!(extracted.changed.is_empty());
    assert!(extracted.removed.is_empty());
    assert_eq!(registry.len(), 3);
    // removed and changed in one frame: the change stays
    assert_eq!(registry.get(1), Some(&11));
    assert_eq!(registry.get(2), Some(&21));
    assert_eq!(registry.get(3), None);
    assert_eq!(registry.get(4), Some(&41));
}

#[test]
fn registry_adds_replaces_and_removes() {
    let mut registry: Registry<&str> = Registry::new();
    assert_eq!(registry.len(), 0);
    registry.add(7, "a");
    registry.add(7, "b");
    registry.add(8, "c");
    assert_eq!(registry.len(), 2);
    assert_eq!(registry.get(7), Some(&"b"));
    registry.remove(9);
    registry.remove(7);
    assert_eq!(registry.get(7), None);
    registry.remove_all(&vec![8, 8, 1]);
    assert_eq!(registry.len(), 0);
    registry.add_all(vec![(1, "x"), (2, "y"), (1, "z")]);
    assert_eq!(registry.get(1), Some(&"z"));
    assert_eq!(registry.len(), 2);
}

#[test]
fn images_stores_two_dimensional_images_only() {
    let mut registry: Registry<Image> = Registry::new();
    registry.add(1, Image::new(ImageData::Raw { data: vec![9] }, UVec2::new(1, 1)));
    registry.add(2, Image::new(ImageData::Raw { data: vec![8] }, UVec2::new(1, 1)));
    let mut textures: Registry<u64> = Registry::new();
    textures.add(3, 333);
    let entry = |handle, dimension, data| ExtractedImage { handle, dimension, size: UVec2::new(2, 2), data };
    let mut extracted = ExtractedImages {
        changed: vec![
            entry(1, TextureDimension::D3, ExtractedImageData::Raw { data: vec![1, 2] }),
            entry(3, TextureDimension::D2, ExtractedImageData::Texture { is_dynamic: true }),
            entry(4, TextureDimension::D2, ExtractedImageData::Raw { data: vec![5, 6, 7] }),
            // no texture is needed for what is passed over
            entry(5, TextureDimension::D1, ExtractedImageData::Texture { is_dynamic: false }),
        ],
        removed: vec![2],
    };
    images(&mut registry, &textures, &mut extracted);
    assert!(extracted.changed.is_empty());
    assert!(extracted.removed.is_empty());
    assert_eq!(registry.len(), 3);
    // a changed image of another dimension leaves the old one in place
    assert!(matches!(&registry.get(1).unwrap().data, ImageData::Raw { data } if data == &vec![9]));
    assert!(registry.get(2).is_none());
    assert!(matches!(
        registry.get(3).unwrap().data,
        ImageData::Texture { texture: 333, is_dynamic: true }
    ));
    assert!(matches!(&registry.get(4).unwrap().data, ImageData::Raw { data } if data == &vec![5, 6, 7]));
    assert_eq!(registry.get(4).unwrap().size, UVec2::new(2, 2));
    assert!(registry.get(5).is_none());
}

#[test]
fn instances_are_built_from_what_was_extracted() {
    let mut registry: Registry<Instance> = Registry::new();
    let xform = Xform { matrix: [65536, 0, 0, 1, 0, 65536, 0, 2, 0, 0, 65536, 3] };
    registry.add(1, Instance::new(5, 6, xform));
    let mut extracted = ExtractedInstances {
        changed: vec![
            ExtractedInstance { handle: 2, mesh_handle: 10, material_handle: 20, xform },
            ExtractedInstance { handle: 2, mesh_handle: 11, material_handle: 21, xform },
        ],
        removed: vec![1],
    };
    instances(&mut registry, &mut extracted);
    assert!(extracted.changed.is_empty());
    assert!(extracted.removed.is_empty());
    assert_eq!(registry.len(), 1);
    let i = registry.get(2).unwrap();
    assert_eq!((i.mesh_handle, i.material_handle, i.xform.matrix[3]), (11, 21, 1));
}

#[test]
fn sun_is_replaced_only_by_an_extracted_one() {
    let old = Sun { direction: Vec3::new(0, 0, 1), radiance: Radiance { r: 1, g: 1, b: 1 } };
    let new = Sun { direction: Vec3::new(0, 1, 0), radiance: Radiance { r: 2, g: 2, b: 2 } };
    let mut current = old;
    let mut extracted = ExtractedSun { sun: None };
    sun(&mut current, &mut extracted);
    assert_eq!(current, old);
    extracted.sun = Some(new);
    sun(&mut current, &mut extracted);
    assert_eq!(current, new);
    assert!(extracted.sun.is_none());
}

#[test]
fn materials_and_lights_are_synced_like_any_registry() {
    let white = Radiance { r: 65536, g: 65536, b: 65536 };
    let grey = Radiance { r: 32768, g: 32768, b: 32768 };
    let mut m: Registry<Material> = Registry::new();
    m.add(1, Material { albedo: white, roughness: 0, metallic: 0 });
    let mut em = Extracted {
        changed: vec![(2, Material { albedo: grey, roughness: 5, metallic: 6 })],
        removed: vec![1],
    };
    materials(&mut m, &mut em);
    assert_eq!(m.len(), 1);
    assert_eq!(m.get(2).unwrap().albedo, grey);
    let mut l: Registry<Light> = Registry::new();
    let lamp = Light { kind: LightKind::Point, position: Vec3::new(1, 2, 3), radiance: white };
    let mut el = Extracted { changed: vec![(1, lamp), (1, Light { kind: LightKind::Area, ..lamp })], removed: vec![] };
    lights(&mut l, &mut el);
    assert_eq!(l.get(1).unwrap().kind, LightKind::Area);
    assert!(el.changed.is_empty());
}
