use vstd::prelude::*;
use crate::camera::{Camera, PassParams};
use crate::hit::{unpacked_hit, Hit};
use crate::math::{sat64, sat_mul, Radiance, UVec2, Vec4};
use crate::noise::{LdsBlueNoise, Noise};
use crate::reservoir::{merged, output_weight, reservoir_put, LightId, Reservoir, Sample};
use crate::shading::{contribute, contribution, is_visible, sees, Scene};
use crate::texture::{store, stored, Tex};

verus! {

/// The reservoir of the one candidate that a random word of 16 bits picks
/// at a surface hit: a light of the table, each equally likely, sampled at
/// its position.
/// The sample carries what it contributes at the hit, which is nothing
/// where the scene hides the light from the hit; it counts with the
/// brightness of that, and since it was picked with probability one in the
/// number of lights, it weighs that brightness times the number of lights.
pub open spec fn candidate(word: u32, hit: Hit, scene: Scene) -> Reservoir {
    let lights = scene.lights@;
    let id = LightId { id: (word as int * lights.len() as int / 65536) as u32 };
    let point = lights[id.id as int].position;
    let bare = Sample { light_id: id, point, pdf: 0, radiance: Radiance::spec_zero() };
    let radiance = if id.is_sun() || id.is_sky() || sees(hit, point, scene.triangles@, scene.bvh@) {
        contribution(bare, hit, lights, scene.materials@)
    } else {
        Radiance::spec_zero()
    };
    let pdf = radiance.spec_luminance() as u32;
    let weight = sat64(pdf as int * lights.len() as int);
    Reservoir {
        sample: Sample { light_id: id, point, pdf, radiance },
        w_sum: weight,
        m: 1,
        w: output_weight(weight, 1, pdf),
    }
}

/// The reservoir after `count` candidates were drawn from the blue-noise
/// walk `lds` and taken in one after the other, and the walk afterwards:
/// two numbers are drawn to pick each candidate and four to decide whether
/// it is kept.
pub open spec fn sampled(
    lds: LdsBlueNoise,
    count: nat,
    hit: Hit,
    scene: Scene,
    noise: &Noise,
) -> (Reservoir, LdsBlueNoise)
    decreases count,
{
    if count == 0 {
        (Reservoir::spec_empty(), lds)
    } else {
        let (r, s) = sampled(lds, (count - 1) as nat, hit, scene, noise);
        let picked = s.word16(noise);
        let kept = s.advanced(2).word32(noise);
        (merged(r, candidate(picked, hit, scene), kept), s.advanced(2).advanced(4))
    }
}

/// What initial sampling gives for a pixel: the reservoir of its candidates
/// and the radiance to fall back on. A pixel that sees no surface gets the
/// empty reservoir and the radiance of the sky; so does, with no radiance,
/// a pixel in a scene without lights.
pub open spec fn initial_result(
    lds: LdsBlueNoise,
    count: u32,
    hit: Hit,
    scene: Scene,
    sky: Radiance,
    noise: &Noise,
) -> (Reservoir, Radiance) {
    if hit.is_none() {
        (Reservoir::spec_empty(), sky)
    } else if scene.lights@.len() == 0 {
        (Reservoir::spec_empty(), Radiance::spec_zero())
    } else {
        let r = sampled(lds, count as nat, hit, scene, noise).0;
        (r, r.sample.radiance)
    }
}

fn draw_candidate(word: u32, hit: Hit, scene: &Scene) -> (r: Reservoir)
    requires
        scene.well_formed(),
        scene.lights@.len() > 0,
        word < 65536,
    ensures
        r == candidate(word, hit, *scene),
        r.well_formed(),
{
    let lights = scene.lights;
    let n = lights.len();
    proof {
        crate::math::lemma_product_fits(word as int, n as int, 65535, usize::MAX as int);
        assert(word as int * n as int / 65536 < n) by (nonlinear_arith)
            requires
                0 <= word < 65536,
                n > 0,
        ;
    }
    let id = LightId { id: (word as u128 * n as u128 / 65536) as u32 };
    let point = lights[id.id as usize].position;
    let bare = Sample { light_id: id, point, pdf: 0, radiance: Radiance::zero() };
    let radiance = if id.is_sun() || id.is_sky() || is_visible(
        hit,
        point,
        scene.triangles,
        scene.bvh,
    ) {
        contribute(&bare, hit, lights, scene.materials)
    } else {
        Radiance::zero()
    };
    let pdf = radiance.luminance() as u32;
    let weight = sat_mul(pdf as u64, lights.len() as u64);
    Reservoir::new(Sample { light_id: id, point, pdf, radiance }, weight)
}

/// Initial sampling for one pixel; see [`initial_result`].
pub fn main_inner(
    lds: &mut LdsBlueNoise,
    noise: &Noise,
    count: u32,
    hit: Hit,
    scene: &Scene,
    sky: Radiance,
) -> (r: (Reservoir, Radiance))
    requires
        scene.well_formed(),
    ensures
        r == initial_result(*old(lds), count, hit, *scene, sky, noise),
        r.0.well_formed(),
        hit.is_some() && scene.lights@.len() > 0 ==> *final(lds) == sampled(
            *old(lds),
            count as nat,
            hit,
            *scene,
            noise,
        ).1,
{
    if hit.is_none() {
        return (Reservoir::empty(), sky);
    }
    if scene.lights.len() == 0 {
        return (Reservoir::empty(), Radiance::zero());
    }
    let ghost start = *lds;
    let mut reservoir = Reservoir::empty();
    let mut i: u32 = 0;
    while i < count
        invariant
            i <= count,
            scene.well_formed(),
            scene.lights@.len() > 0,
            reservoir.well_formed(),
            (reservoir, *lds) == sampled(start, i as nat, hit, *scene, noise),
        decreases count - i,
    {
        let picked = lds.sample_u16(noise);
        let kept = lds.sample_u32(noise);
        reservoir = Reservoir::merge(reservoir, draw_candidate(picked, hit, scene), kept);
        i += 1;
    }
    (reservoir, reservoir.sample.radiance)
}

/// Initial sampling for the pixel `global_id` of a dispatch, under the
/// blue-noise walk of the pixel, the frame and the seed: the pixel's
/// reservoir goes to its slot of the reservoir buffer and the
/// fallback radiance to the first of its two slots of the sample buffer. A
/// pixel outside of the viewport is left alone.
pub fn main(
    global_id: UVec2,
    params: &PassParams,
    count: u32,
    scene: &Scene,
    sky: Radiance,
    camera: &Camera,
    noise: &Noise,
    gbuffer_d0: &Tex,
    gbuffer_d1: &Tex,
    initial_samples: &mut Vec<Vec4>,
    initial_reservoirs: &mut Vec<Vec4>,
)
    requires
        scene.well_formed(),
    ensures
        ({
            let idx = camera.spec_screen_to_idx(global_id);
            let result = initial_result(
                LdsBlueNoise::spec_seeded(global_id, params.seed, params.frame),
                count,
                unpacked_hit(gbuffer_d0.texel(global_id), gbuffer_d1.texel(global_id)),
                *scene,
                sky,
                noise,
            );
            if camera.viewport.spec_contains(global_id) {
                &&& final(initial_reservoirs)@ == reservoir_put(
                    old(initial_reservoirs)@,
                    idx,
                    result.0,
                )
                &&& final(initial_samples)@ == stored(
                    old(initial_samples)@,
                    2 * idx,
                    Vec4 { x: result.1.r, y: result.1.g, z: result.1.b, w: 0 },
                )
            } else {
                &&& final(initial_reservoirs)@ == old(initial_reservoirs)@
                &&& final(initial_samples)@ == old(initial_samples)@
            }
        }),
{
    if !camera.viewport.contains(global_id) {
        return ;
    }
    let idx = camera.screen_to_idx(global_id);
    let mut lds = LdsBlueNoise::seeded(global_id, params.seed, params.frame);
    let hit = Hit::deserialize(gbuffer_d0.read(global_id), gbuffer_d1.read(global_id));
    let (reservoir, radiance) = main_inner(&mut lds, noise, count, hit, scene, sky);
    reservoir.write(initial_reservoirs, idx);
    store(
        initial_samples,
        2 * (idx as u128),
        Vec4 { x: radiance.r, y: radiance.g, z: radiance.b, w: 0 },
    );
}

} // verus!
