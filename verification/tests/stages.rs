use strolle::bvh::{BvhNode, BvhNodeKind};
use strolle::camera::{Camera, PassParams, Viewport};
use strolle::geometry::{Aabb, Ray, Triangle};
use strolle::hit::Hit;
use strolle::math::{Radiance, UVec2, Vec3, Vec4};
use strolle::noise::{LdsBlueNoise, Noise, WhiteNoise};
use strolle::reservoir::{LightId, Reservoir, Sample};
use strolle::shading::{
    contribute, is_visible, resolve, shadowed_target, target, Light, LightKind, Material, Scene,
};
use strolle::stages::direct_initial_sampling;
use strolle::stages::direct_resolving;
use strolle::stages::direct_spatial_resampling;
use strolle::stages::direct_spatial_resampling::Neighbourhood;
use strolle::stages::direct_temporal_resampling;
use strolle::stages::direct_temporal_resampling::History;
use strolle::stages::indirect_initial_tracing;
use strolle::texture::Tex;

fn grey(v: u32) -> Radiance {
    Radiance { r: v, g: v, b: v }
}

fn lamp(position: (i16, i16, i16), radiance: u32) -> Light {
    Light {
        kind: LightKind::Point,
        position: Vec3::new(position.0, position.1, position.2),
        radiance: grey(radiance),
    }
}

fn matte(albedo: u32) -> Material {
    Material { albedo: grey(albedo), roughness: 65536, metallic: 0 }
}

fn floor_hit(point: (i16, i16, i16)) -> Hit {
    Hit {
        point: Vec3::new(point.0, point.1, point.2),
        normal: Vec3::new(0, 0, 1),
        material_id: 0,
        distance: 65536,
    }
}

fn camera(width: u32, height: u32) -> Camera {
    Camera {
        viewport: Viewport { position: UVec2::new(0, 0), size: UVec2::new(width, height) },
        origin: Vec3::new(0, 0, 100),
        forward: Vec3::new(0, 0, -100),
        right: Vec3::new(10, 0, 0),
        up: Vec3::new(0, 10, 0),
    }
}

fn put_hit(d0: &mut Tex, d1: &mut Tex, pos: UVec2, hit: Hit) {
    let d = hit.serialize();
    d0.write(pos, d[0]);
    d1.write(pos, d[1]);
}

#[test]
fn diffuse_light_falls_off_with_cosine_and_squared_distance() {
    // 0.5 / pi * 100 / 2^2, straight above
    assert_eq!(lamp((0, 0, 2), 6553600).radiance(floor_hit((0, 0, 0)), &matte(32768)), grey(260762));
    // 1.0 / pi * 100 * (4/5) / 5^2
    assert_eq!(lamp((3, 0, 4), 6553600).radiance(floor_hit((0, 0, 0)), &matte(65536)), grey(66755));
    // the same from another point of the surface
    assert_eq!(lamp((13, -5, 4), 6553600).radiance(floor_hit((10, -5, 0)), &matte(65536)), grey(66755));
    // a longer normal does not change it much
    let mut hit = floor_hit((0, 0, 0));
    hit.normal = Vec3::new(0, 0, 100);
    assert_eq!(lamp((30, 0, 40), 6553600).radiance(hit, &matte(65536)), grey(667));
    // from behind, and from the surface point itself, nothing arrives
    assert_eq!(lamp((0, 0, -2), 6553600).radiance(floor_hit((0, 0, 0)), &matte(65536)), grey(0));
    assert_eq!(lamp((5, 0, 0), 6553600).radiance(floor_hit((0, 0, 0)), &matte(65536)), grey(0));
    assert_eq!(lamp((0, 0, 0), 6553600).radiance(floor_hit((0, 0, 0)), &matte(65536)), grey(0));
    // each channel by itself
    let light = Light {
        kind: LightKind::Area,
        position: Vec3::new(0, 0, 2),
        radiance: Radiance { r: 6553600, g: 0, b: 65536 },
    };
    let material = Material { albedo: Radiance { r: 32768, g: 65536, b: 65536 }, roughness: 0, metallic: 0 };
    assert_eq!(light.radiance(floor_hit((0, 0, 0)), &material), Radiance { r: 260762, g: 0, b: 5215 });
}

#[test]
fn one_candidate_of_one_light_resolves_to_the_formula() {
    let lights = vec![lamp((0, 0, 2), 6553600)];
    let materials = vec![matte(32768)];
    let (triangles, bvh): (Vec<Triangle>, Vec<BvhNode>) = (Vec::new(), Vec::new());
    let scene = Scene { lights: &lights, materials: &materials, triangles: &triangles, bvh: &bvh };
    let hit = floor_hit((0, 0, 0));
    let tables = Noise::new();
    let mut lds = LdsBlueNoise::seeded(UVec2::new(0, 0), 5, 0);
    let (reservoir, fallback) =
        direct_initial_sampling::main_inner(&mut lds, &tables, 1, hit, &scene, grey(7));
    assert_eq!(reservoir.m, 1);
    assert_eq!(reservoir.sample.light_id, LightId::new(0));
    assert_eq!(reservoir.sample.point, Vec3::new(0, 0, 2));
    assert_eq!(reservoir.sample.pdf, 260762);
    assert_eq!(reservoir.w_sum, 260762);
    // a single sample drawn with certainty has the weight 1
    assert_eq!(reservoir.w, 65536);
    assert_eq!(fallback, grey(260762));
    // rho / pi * L * cos / d^2 * W
    assert_eq!(resolve(&reservoir, hit, &lights, &materials), grey(260762));
}

#[test]
fn initial_sampling_counts_every_candidate() {
    let lights = vec![lamp((0, 0, 2), 6553600), lamp((3, 0, 4), 6553600), lamp((0, 0, -5), 6553600)];
    let materials = vec![matte(65536)];
    let (triangles, bvh): (Vec<Triangle>, Vec<BvhNode>) = (Vec::new(), Vec::new());
    let scene = Scene { lights: &lights, materials: &materials, triangles: &triangles, bvh: &bvh };
    let hit = floor_hit((0, 0, 0));
    let tables = Noise::new();
    let mut seen = [0u32; 3];
    for seed in 0..300 {
        let mut lds = LdsBlueNoise::new(UVec2::new(seed % 20, seed / 20), seed, 0);
        let start = lds;
        let (r, fallback) =
            direct_initial_sampling::main_inner(&mut lds, &tables, 4, hit, &scene, grey(0));
        assert_eq!(r.m, 4);
        assert_eq!(fallback, r.sample.radiance);
        // six numbers for each candidate
        assert_eq!(lds, LdsBlueNoise { dimension: 24, ..start });
        if r.w_sum > 0 {
            let id = r.sample.light_id.id as usize;
            seen[id] += 1;
            assert_eq!(r.sample.point, lights[id].position);
            assert_eq!(r.sample.radiance, lights[id].radiance(hit, &materials[0]));
            assert_eq!(r.sample.pdf as u64, r.sample.radiance.luminance());
            assert_eq!(r.w, r.w_sum * 65536 / (4 * r.sample.pdf as u64));
        } else {
            assert_eq!(r.w, 0);
        }
        // each weight is the density times the number of lights
        assert_eq!(r.w_sum % 3, 0);
    }
    // the light behind the surface has no weight and is never kept over one that has
    assert!(seen[0] > seen[1] && seen[1] > 0);
    assert!(seen[2] == 0);
}

#[test]
fn initial_sampling_without_a_surface_gives_the_sky() {
    let lights = vec![lamp((0, 0, 2), 6553600)];
    let materials = vec![matte(65536)];
    let (triangles, bvh): (Vec<Triangle>, Vec<BvhNode>) = (Vec::new(), Vec::new());
    let scene = Scene { lights: &lights, materials: &materials, triangles: &triangles, bvh: &bvh };
    let tables = Noise::new();
    let mut lds = LdsBlueNoise::new(UVec2::new(0, 0), 5, 0);
    let (r, fallback) =
        direct_initial_sampling::main_inner(&mut lds, &tables, 3, Hit::none(), &scene, grey(7));
    // nothing is drawn for a pixel without a surface
    assert_eq!(lds.dimension, 0);
    assert_eq!(r, Reservoir::empty());
    assert_eq!(fallback, grey(7));
    let none: Vec<Light> = Vec::new();
    let dark = Scene { lights: &none, ..scene };
    let (r, fallback) =
        direct_initial_sampling::main_inner(&mut lds, &tables, 3, floor_hit((0, 0, 0)), &dark, grey(7));
    assert_eq!(r, Reservoir::empty());
    assert_eq!(fallback, grey(0));
    let (r, _) = direct_initial_sampling::main_inner(
        &mut lds,
        &tables,
        0,
        floor_hit((0, 0, 0)),
        &scene,
        grey(7),
    );
    assert_eq!(r, Reservoir::empty());
}

#[test]
fn reservoir_of_zero_weight_resolves_to_no_light() {
    let lights = vec![lamp((0, 0, 2), 6553600)];
    let materials = vec![matte(65536)];
    let (triangles, bvh): (Vec<Triangle>, Vec<BvhNode>) = (Vec::new(), Vec::new());
    let scene = Scene { lights: &lights, materials: &materials, triangles: &triangles, bvh: &bvh };
    let hit = floor_hit((0, 0, 0));
    for id in [0u32, 1, LightId::sun().id, LightId::sky().id] {
        let sample = Sample {
            light_id: LightId::new(id),
            point: Vec3::new(0, 0, 2),
            pdf: 65536,
            radiance: grey(u32::MAX),
        };
        for (w_sum, m) in [(0u64, 0u32), (0, 5), (1 << 40, 7)] {
            let r = Reservoir { sample, w_sum, m, w: 0 };
            assert_eq!(resolve(&r, hit, &lights, &materials), grey(0));
        }
        // what the statistics make of a zero density or a zero sum is a zero weight
        let degenerate = Reservoir::new(Sample { pdf: 0, ..sample }, 1 << 40);
        assert_eq!(degenerate.w, 0);
        assert_eq!(resolve(&degenerate, hit, &lights, &materials), grey(0));
        let nothing = Reservoir::new(sample, 0);
        assert_eq!(resolve(&nothing, hit, &lights, &materials), grey(0));
    }
}

#[test]
fn sun_and_sky_resolve_to_the_radiance_they_carry() {
    let lights = vec![lamp((0, 0, 2), 6553600)];
    let materials = vec![matte(65536)];
    let (triangles, bvh): (Vec<Triangle>, Vec<BvhNode>) = (Vec::new(), Vec::new());
    let scene = Scene { lights: &lights, materials: &materials, triangles: &triangles, bvh: &bvh };
    let hit = floor_hit((0, 0, 0));
    for id in [LightId::sun(), LightId::sky()] {
        let sample = Sample {
            light_id: id,
            point: Vec3::new(0, 0, 0),
            pdf: 65536,
            radiance: Radiance { r: 100, g: 200, b: 300 },
        };
        assert_eq!(contribute(&sample, hit, &lights, &materials), sample.radiance);
        assert_eq!(target(&sample, hit, &lights, &materials), 200);
        let r = Reservoir::new(sample, 131072);
        assert_eq!(r.w, 131072);
        assert_eq!(resolve(&r, hit, &lights, &materials), Radiance { r: 200, g: 400, b: 600 });
    }
    // a light or a material that the tables do not hold gives nothing
    let stray = Sample {
        light_id: LightId::new(1),
        point: Vec3::new(0, 0, 2),
        pdf: 65536,
        radiance: grey(5),
    };
    assert_eq!(contribute(&stray, hit, &lights, &materials), grey(0));
    let mut other = hit;
    other.material_id = 1;
    let known = Sample { light_id: LightId::new(0), ..stray };
    assert_eq!(contribute(&known, other, &lights, &materials), grey(0));
    assert_eq!(contribute(&known, hit, &lights, &materials), grey(521525));
}

#[test]
fn temporal_stage_without_history_in_view_passes_the_reservoir_through() {
    let lights = vec![lamp((0, 0, 20), 6553600)];
    let materials = vec![matte(65536)];
    let (triangles, bvh): (Vec<Triangle>, Vec<BvhNode>) = (Vec::new(), Vec::new());
    let scene = Scene { lights: &lights, materials: &materials, triangles: &triangles, bvh: &bvh };
    let previous_camera = camera(4, 4);
    let mut d0 = Tex::new(UVec2::new(4, 4)).unwrap();
    let mut d1 = Tex::new(UVec2::new(4, 4)).unwrap();
    let mut reservoirs = vec![Vec4::new(0, 0, 0, 0); 48];
    // every pixel of the previous frame holds a similar hit and a heavy reservoir
    let stored = Reservoir::new(
        Sample { light_id: LightId::new(0), point: Vec3::new(0, 0, 20), pdf: 65536, radiance: grey(9) },
        1 << 30,
    );
    for y in 0..4 {
        for x in 0..4 {
            put_hit(&mut d0, &mut d1, UVec2::new(x, y), floor_hit((0, 0, 0)));
            stored.write(&mut reservoirs, previous_camera.screen_to_idx(UVec2::new(x, y)));
        }
    }
    let history = History { camera: &previous_camera, hits_d0: &d0, hits_d1: &d1, reservoirs: &reservoirs };
    let current = Reservoir::new(
        Sample { light_id: LightId::new(0), point: Vec3::new(0, 0, 20), pdf: 300, radiance: grey(300) },
        300,
    );
    // the surface point was outside of the previous frame's view, or behind its camera
    for point in [(1000, 0, 0), (0, -1000, 0), (0, 0, 200)] {
        assert_eq!(previous_camera.project(Vec3::new(point.0, point.1, point.2)), None);
        let mut noise = WhiteNoise::new(1, UVec2::new(0, 0));
        let r = direct_temporal_resampling::main_inner(
            &mut noise,
            current,
            floor_hit(point),
            &history,
            &scene,
            20,
        );
        assert_eq!(r, current);
        assert_eq!(r.m, 1);
    }
    // in view the history is merged in
    let mut noise = WhiteNoise::new(1, UVec2::new(0, 0));
    let r = direct_temporal_resampling::main_inner(
        &mut noise,
        current,
        floor_hit((0, 0, 0)),
        &history,
        &scene,
        20,
    );
    assert_eq!(r.m, 2);
    assert!(r.w_sum > current.w_sum);
}

#[test]
fn temporal_stage_reweights_clamps_and_merges_history() {
    let lights = vec![lamp((0, 0, 20), 6553600)];
    let materials = vec![matte(65536)];
    let (triangles, bvh): (Vec<Triangle>, Vec<BvhNode>) = (Vec::new(), Vec::new());
    let scene = Scene { lights: &lights, materials: &materials, triangles: &triangles, bvh: &bvh };
    let previous_camera = camera(4, 4);
    let mut d0 = Tex::new(UVec2::new(4, 4)).unwrap();
    let mut d1 = Tex::new(UVec2::new(4, 4)).unwrap();
    let mut reservoirs = vec![Vec4::new(0, 0, 0, 0); 48];
    let hit = floor_hit((0, 0, 0));
    let seen_at = previous_camera.project(hit.point).unwrap();
    assert_eq!(seen_at, UVec2::new(2, 2));
    put_hit(&mut d0, &mut d1, seen_at, hit);
    let sample =
        Sample { light_id: LightId::new(0), point: Vec3::new(0, 0, 20), pdf: 1000, radiance: grey(9) };
    let stored = Reservoir { sample, w_sum: 50 * 2000, m: 50, w: 50 * 2000 * 65536 / (50 * 1000) };
    stored.write(&mut reservoirs, previous_camera.screen_to_idx(seen_at));
    let history = History { camera: &previous_camera, hits_d0: &d0, hits_d1: &d1, reservoirs: &reservoirs };
    let current = Reservoir::new(Sample { pdf: 5, ..sample }, 5);
    let mut noise = WhiteNoise::new(1, UVec2::new(0, 0));
    let mut draws = noise;
    let u = draws.sample_int();
    let r = direct_temporal_resampling::main_inner(&mut noise, current, hit, &history, &scene, 20);
    assert_eq!(noise, draws);
    let density = target(&sample, hit, &lights, &materials);
    // 1.0 / pi * 100 / 20^2
    assert_eq!(density, 5215);
    let expected = Reservoir::merge(current, stored.reweighted(density).clamped(20), u);
    assert_eq!(r, expected);
    assert_eq!(r.m, 21);
    // sum of the history at the new density: 5215 * 2.0 * 50, cut down to 20 of 50
    assert_eq!(r.w_sum, 5 + 5215 * 2 * 50 * 20 / 50);
    // a dissimilar hit in the previous frame is no history
    put_hit(&mut d0, &mut d1, seen_at, Hit { material_id: 1, ..hit });
    let history = History { camera: &previous_camera, hits_d0: &d0, hits_d1: &d1, reservoirs: &reservoirs };
    let mut noise = WhiteNoise::new(1, UVec2::new(0, 0));
    assert_eq!(
        direct_temporal_resampling::main_inner(&mut noise, current, hit, &history, &scene, 20),
        current
    );
    // nor is there any for a pixel that sees no surface
    assert_eq!(
        direct_temporal_resampling::main_inner(
            &mut noise,
            current,
            Hit::none(),
            &history,
            &scene,
            20
        ),
        current
    );
}

#[test]
fn spatial_stage_merges_similar_neighbours_in_view() {
    let lights = vec![lamp((0, 0, 20), 6553600)];
    let materials = vec![matte(65536), matte(65536)];
    let (triangles, bvh): (Vec<Triangle>, Vec<BvhNode>) = (Vec::new(), Vec::new());
    let scene = Scene { lights: &lights, materials: &materials, triangles: &triangles, bvh: &bvh };
    let cam = camera(6, 6);
    let mut d0 = Tex::new(UVec2::new(6, 6)).unwrap();
    let mut d1 = Tex::new(UVec2::new(6, 6)).unwrap();
    let mut reservoirs = vec![Vec4::new(0, 0, 0, 0); 3 * 36];
    let sample =
        Sample { light_id: LightId::new(0), point: Vec3::new(0, 0, 20), pdf: 1000, radiance: grey(9) };
    // the left half of the image shows one surface, the right half another
    for y in 0..6 {
        for x in 0..6 {
            let pos = UVec2::new(x, y);
            let material_id = if x < 3 { 0 } else { 1 };
            put_hit(&mut d0, &mut d1, pos, Hit { material_id, ..floor_hit((0, 0, 0)) });
            Reservoir::new(Sample { point: Vec3::new(x as i16, y as i16, 20), ..sample }, 1000)
                .write(&mut reservoirs, cam.screen_to_idx(pos));
        }
    }
    let frame = Neighbourhood { camera: &cam, hits_d0: &d0, hits_d1: &d1, reservoirs: &reservoirs };
    let pos = UVec2::new(1, 1);
    let hit = floor_hit((0, 0, 0));
    let current = Reservoir::read(&reservoirs, cam.screen_to_idx(pos));
    let mut merged_some = false;
    let mut skipped_some = false;
    for seed in 0..200 {
        let mut noise = WhiteNoise::new(seed, pos);
        let mut draws = noise;
        let r = direct_spatial_resampling::main_inner(
            &mut noise, 3, current, pos, hit, &frame, &scene,
        );
        // follow the same draws by hand
        let mut expected = current;
        for _ in 0..3 {
            let word = draws.sample_int();
            let u = draws.sample_int();
            let x = pos.x as i64 + (word % 17) as i64 - 8;
            let y = pos.y as i64 + ((word / 17) % 17) as i64 - 8;
            if 0 <= x && x < 3 && 0 <= y && y < 6 {
                let other = Reservoir::read(&reservoirs, cam.screen_to_idx(UVec2::new(x as u32, y as u32)));
                let density = target(&other.sample, hit, &lights, &materials);
                expected = Reservoir::merge(expected, other.reweighted(density), u);
                merged_some = true;
            } else {
                skipped_some = true;
            }
        }
        assert_eq!(noise, draws);
        assert_eq!(r, expected);
        // only neighbours on the same surface were taken in
        assert!(r.sample.point.x < 3);
    }
    assert!(merged_some && skipped_some);
    // with no neighbours to look at the reservoir stays as it is
    let mut noise = WhiteNoise::new(0, pos);
    assert_eq!(
        direct_spatial_resampling::main_inner(&mut noise, 0, current, pos, hit, &frame, &scene),
        current
    );
}

#[test]
fn resolving_writes_the_resolved_colour_or_the_fallback() {
    let lights = vec![lamp((0, 0, 2), 6553600)];
    let materials = vec![matte(32768)];
    let (triangles, bvh): (Vec<Triangle>, Vec<BvhNode>) = (Vec::new(), Vec::new());
    let scene = Scene { lights: &lights, materials: &materials, triangles: &triangles, bvh: &bvh };
    let cam = camera(3, 2);
    let mut d0 = Tex::new(UVec2::new(3, 2)).unwrap();
    let mut d1 = Tex::new(UVec2::new(3, 2)).unwrap();
    let mut out = Tex::new(UVec2::new(3, 2)).unwrap();
    let mut initial = vec![Vec4::new(0, 0, 0, 0); 12];
    let mut reservoirs = vec![Vec4::new(0, 0, 0, 0); 18];
    let lit = UVec2::new(1, 1);
    let sky = UVec2::new(2, 0);
    put_hit(&mut d0, &mut d1, lit, floor_hit((0, 0, 0)));
    let sample = Sample {
        light_id: LightId::new(0),
        point: Vec3::new(0, 0, 2),
        pdf: 260762,
        radiance: grey(260762),
    };
    // weight 1.5
    Reservoir::new(sample, 260762 * 3 / 2).write(&mut reservoirs, cam.screen_to_idx(lit));
    initial[2 * cam.screen_to_idx(sky) as usize] = Vec4::new(11, 22, 33, 44);
    initial[2 * cam.screen_to_idx(lit) as usize] = Vec4::new(5, 5, 5, 5);
    for y in 0..2 {
        for x in 0..3 {
            direct_resolving::main(
                UVec2::new(x, y), &lights, &materials, &cam, &d0, &d1, &initial, &mut out, &reservoirs,
            );
        }
    }
    assert_eq!(Reservoir::read(&reservoirs, cam.screen_to_idx(lit)).w, 98304);
    assert_eq!(out.read(lit), Vec4::new(391143, 391143, 391143, 65536));
    assert_eq!(out.read(sky), Vec4::new(11, 22, 33, 65536));
    assert_eq!(out.read(UVec2::new(0, 0)), Vec4::new(0, 0, 0, 65536));
    // a pixel outside of the image writes nothing
    direct_resolving::main(
        UVec2::new(3, 0), &lights, &materials, &cam, &d0, &d1, &initial, &mut out, &reservoirs,
    );
    assert_eq!(out.read(UVec2::new(0, 1)), Vec4::new(0, 0, 0, 65536));
}

#[test]
fn stages_write_the_slot_of_their_pixel_only() {
    let lights = vec![lamp((0, 0, 20), 6553600)];
    let materials = vec![matte(65536)];
    let (triangles, bvh): (Vec<Triangle>, Vec<BvhNode>) = (Vec::new(), Vec::new());
    let scene = Scene { lights: &lights, materials: &materials, triangles: &triangles, bvh: &bvh };
    let cam = camera(3, 3);
    let mut d0 = Tex::new(UVec2::new(3, 3)).unwrap();
    let mut d1 = Tex::new(UVec2::new(3, 3)).unwrap();
    for y in 0..3 {
        for x in 0..3 {
            put_hit(&mut d0, &mut d1, UVec2::new(x, y), floor_hit((0, 0, 0)));
        }
    }
    let params = PassParams { seed: 42, frame: 1 };
    let pos = UVec2::new(2, 1);
    let idx = cam.screen_to_idx(pos);
    let blank = vec![Vec4::new(7, 7, 7, 7); 27];
    let mut samples = vec![Vec4::new(7, 7, 7, 7); 18];
    let mut first = blank.clone();
    let tables = Noise::new();
    direct_initial_sampling::main(
        pos, &params, 2, &scene, grey(1), &cam, &tables, &d0, &d1, &mut samples, &mut first,
    );
    // seed 42 moves the pixel by (42, 0) in the tile; frame 1 picks the sample
    let mut lds = LdsBlueNoise::seeded(pos, 42, 1);
    assert_eq!(lds, LdsBlueNoise { pixel: UVec2::new(44, 1), frame: 1, dimension: 0 });
    let (r, fallback) = direct_initial_sampling::main_inner(
        &mut lds, &tables, 2, floor_hit((0, 0, 0)), &scene, grey(1),
    );
    assert_eq!(r.m, 2);
    assert_eq!(Reservoir::read(&first, idx), r);
    assert_eq!(samples[2 * idx as usize], Vec4::new(fallback.r, fallback.g, fallback.b, 0));
    for i in 0..27 {
        if i / 3 != idx as usize {
            assert_eq!(first[i], blank[i]);
        }
    }
    let mut second = blank.clone();
    let history = History { camera: &cam, hits_d0: &d0, hits_d1: &d1, reservoirs: &first };
    direct_temporal_resampling::main(
        pos, &params, 20, &scene, &cam, &d0, &d1, &history, &first, &mut second,
    );
    let mut noise = WhiteNoise::new(42, pos);
    let expected = direct_temporal_resampling::main_inner(
        &mut noise, r, floor_hit((0, 0, 0)), &history, &scene, 20,
    );
    assert_eq!(Reservoir::read(&second, idx), expected);
    let mut third = blank.clone();
    let frame = Neighbourhood { camera: &cam, hits_d0: &d0, hits_d1: &d1, reservoirs: &second };
    direct_spatial_resampling::main(pos, &params, 2, &scene, &frame, &mut third);
    let mut noise = WhiteNoise::new(42, pos);
    let expected = direct_spatial_resampling::main_inner(
        &mut noise, 2, expected, pos, floor_hit((0, 0, 0)), &frame, &scene,
    );
    assert_eq!(Reservoir::read(&third, idx), expected);
    // a pixel outside of the viewport writes nothing
    let mut untouched = blank.clone();
    direct_spatial_resampling::main(UVec2::new(3, 0), &params, 2, &scene, &frame, &mut untouched);
    direct_temporal_resampling::main(
        UVec2::new(0, 3), &params, 20, &scene, &cam, &d0, &d1, &history, &first, &mut untouched,
    );
    assert_eq!(untouched, blank);
}

#[test]
fn bounce_is_traced_from_the_primary_hit() {
    let floor = Triangle {
        v0: Vec3::new(-30000, -30000, 0),
        v1: Vec3::new(30000, -30000, 0),
        v2: Vec3::new(0, 30000, 0),
        n0: Vec3::new(0, 0, 100),
        n1: Vec3::new(0, 0, 100),
        n2: Vec3::new(0, 0, 100),
        material_id: 1,
    };
    let ceiling = Triangle {
        v0: Vec3::new(-30000, -30000, 50),
        v1: Vec3::new(30000, -30000, 50),
        v2: Vec3::new(0, 30000, 50),
        material_id: 2,
        ..floor
    };
    let triangles = vec![floor, ceiling];
    let all = Aabb { min: Vec3::new(-30000, -30000, 0), max: Vec3::new(30000, 30000, 50) };
    let nodes = vec![
        BvhNode { bounds: all, kind: BvhNodeKind::Inner { left: 1, right: 2 } },
        BvhNode {
            bounds: Aabb { min: all.min, max: Vec3::new(30000, 30000, 0) },
            kind: BvhNodeKind::Leaf { triangle: 0 },
        },
        BvhNode {
            bounds: Aabb { min: Vec3::new(-30000, -30000, 50), max: all.max },
            kind: BvhNodeKind::Leaf { triangle: 1 },
        },
    ];
    assert!(strolle::bvh::is_bvh_ok(&nodes, &triangles));
    let size = UVec2::new(2, 2);
    let mut primary_d0 = Tex::new(size).unwrap();
    let mut primary_d1 = Tex::new(size).unwrap();
    let mut out_d0 = Tex::new(size).unwrap();
    let mut out_d1 = Tex::new(size).unwrap();
    let seen = UVec2::new(1, 0);
    let primary = Hit { point: Vec3::new(0, 0, 0), normal: Vec3::new(0, 0, 100), material_id: 1, distance: 9 };
    put_hit(&mut primary_d0, &mut primary_d1, seen, primary);
    let params = PassParams { seed: 0, frame: 0 };
    for y in 0..2 {
        for x in 0..2 {
            indirect_initial_tracing::main(
                UVec2::new(x, y), &params, &triangles, &nodes, &primary_d0, &primary_d1,
                &mut out_d0, &mut out_d1,
            );
        }
    }
    // seed 0 at pixel (1, 0) starts the generator at 48619
    let mut noise = WhiteNoise::new(0, seen);
    let direction = noise.sample_hemisphere(primary.normal);
    assert!(direction.z > 0);
    let ray = Ray::new(primary.point, direction);
    let expected = ceiling.hit(&ray);
    assert!(expected.is_some());
    assert_eq!(expected.material_id, 2);
    assert_eq!(expected.point.z, 50);
    // the normal of the ceiling is turned towards the ray
    assert_eq!(expected.normal, Vec3::new(0, 0, -4096));
    assert_eq!(Hit::deserialize(out_d0.read(seen), out_d1.read(seen)), expected);
    let record = indirect_initial_tracing::main_inner(
        WhiteNoise::new(0, seen), &triangles, &nodes, primary_d0.read(seen), primary_d1.read(seen),
    );
    assert_eq!(Hit::deserialize(record[0], record[1]), expected);
    // a pixel that saw no surface has no bounce
    assert!(Hit::deserialize(out_d0.read(UVec2::new(0, 0)), out_d1.read(UVec2::new(0, 0))).is_none());
    assert_eq!(out_d0.read(UVec2::new(0, 1)), Vec4::new(0, 0, 0, 0));
}

fn wall(z: i16) -> (Vec<Triangle>, Vec<BvhNode>) {
    let t = Triangle {
        v0: Vec3::new(-50, -50, z),
        v1: Vec3::new(50, -50, z),
        v2: Vec3::new(0, 50, z),
        n0: Vec3::new(0, 0, 1),
        n1: Vec3::new(0, 0, 1),
        n2: Vec3::new(0, 0, 1),
        material_id: 0,
    };
    let bounds = Aabb { min: Vec3::new(-50, -50, z), max: Vec3::new(50, 50, z) };
    (vec![t], vec![BvhNode { bounds, kind: BvhNodeKind::Leaf { triangle: 0 } }])
}

#[test]
fn a_surface_between_hit_and_light_hides_the_light() {
    let hit = floor_hit((0, 0, 0));
    let light = Vec3::new(0, 0, 20);
    let (between, between_bvh) = wall(10);
    let (beyond, beyond_bvh) = wall(30);
    let (at_light, at_light_bvh) = wall(20);
    let (at_hit, at_hit_bvh) = wall(0);
    assert!(!is_visible(hit, light, &between, &between_bvh));
    assert!(is_visible(hit, light, &beyond, &beyond_bvh));
    // the light's own surface does not hide it, nor does the surface that was hit
    assert!(is_visible(hit, light, &at_light, &at_light_bvh));
    assert!(is_visible(hit, light, &at_hit, &at_hit_bvh));
    // nothing hides a light at the hit point itself
    assert!(is_visible(hit, Vec3::new(0, 0, 1), &between, &between_bvh));
    // beside the wall the light is seen
    assert!(is_visible(floor_hit((200, 0, 0)), Vec3::new(200, 0, 20), &between, &between_bvh));
}

#[test]
fn a_light_too_far_for_one_step_is_tested_with_half_steps() {
    let hit = Hit {
        point: Vec3::new(0, 0, -20000),
        normal: Vec3::new(0, 0, 1),
        material_id: 0,
        distance: 65536,
    };
    let light = Vec3::new(0, 0, 20000);
    let (between, between_bvh) = wall(0);
    let (behind, behind_bvh) = wall(-20010);
    let (beyond, beyond_bvh) = wall(20010);
    assert!(!is_visible(hit, light, &between, &between_bvh));
    assert!(is_visible(hit, light, &behind, &behind_bvh));
    assert!(is_visible(hit, light, &beyond, &beyond_bvh));
}

#[test]
fn a_hidden_light_has_no_weight() {
    let lights = vec![lamp((0, 0, 20), 6553600)];
    let materials = vec![matte(65536)];
    let (triangles, bvh) = wall(10);
    let scene = Scene { lights: &lights, materials: &materials, triangles: &triangles, bvh: &bvh };
    let hit = floor_hit((0, 0, 0));
    let sample =
        Sample { light_id: LightId::new(0), point: Vec3::new(0, 0, 20), pdf: 1000, radiance: grey(9) };
    assert_eq!(target(&sample, hit, &lights, &materials), 5215);
    assert_eq!(shadowed_target(&sample, hit, &scene), 0);
    let aside = Sample { point: Vec3::new(200, 0, 20), ..sample };
    assert_eq!(shadowed_target(&aside, floor_hit((200, 0, 0)), &scene), 5215);
    // the sun and the sky are not tested against the scene
    let sun = Sample { light_id: LightId::sun(), radiance: grey(77), ..sample };
    assert_eq!(shadowed_target(&sun, hit, &scene), 77);
    // initial sampling gives the hidden light no weight
    let tables = Noise::new();
    let mut lds = LdsBlueNoise::new(UVec2::new(0, 0), 3, 0);
    let (r, fallback) = direct_initial_sampling::main_inner(&mut lds, &tables, 2, hit, &scene, grey(1));
    assert_eq!((r.m, r.w_sum, r.w), (2, 0, 0));
    assert_eq!(fallback, grey(0));
    assert_eq!(resolve(&r, hit, &lights, &materials), grey(0));
}
