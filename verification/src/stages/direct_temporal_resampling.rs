use vstd::prelude::*;
use crate::camera::{Camera, PassParams};
use crate::hit::{similar, unpacked_hit, Hit};
use crate::math::{UVec2, Vec4};
use crate::noise::{pcg_output, pcg_step, white_noise_start, WhiteNoise};
use crate::reservoir::{
    clamped_to, merged, reservoir_at, reservoir_put, reweighted_to, Reservoir,
};
use crate::shading::{shadowed_density, shadowed_target, Scene};
use crate::texture::Tex;

verus! {

/// The previous frame as the temporal stage reads it: its camera, the hit
/// records of its pixels and their reservoirs.
pub struct History<'a> {
    pub camera: &'a Camera,
    pub hits_d0: &'a Tex,
    pub hits_d1: &'a Tex,
    pub reservoirs: &'a Vec<Vec4>,
}

/// The pixel of the previous frame that showed the surface point of `hit`,
/// if the point was in view and the previous frame's hit there is similar
/// to `hit`.
pub open spec fn reprojected(hit: Hit, history: History) -> Option<UVec2> {
    if hit.is_none() {
        None
    } else {
        match history.camera.spec_project(hit.point) {
            None => None,
            Some(pos) => if similar(
                hit,
                unpacked_hit(history.hits_d0.texel(pos), history.hits_d1.texel(pos)),
            ) {
                Some(pos)
            } else {
                None
            },
        }
    }
}

/// The reservoir of a pixel after the temporal stage. Where the pixel's
/// surface point is found again in the previous frame, the reservoir stored
/// there is weighted anew for the current hit, cut down to `max_history`
/// candidates and merged into the current one under the draw `u`; where it
/// is not, the current reservoir passes through.
pub open spec fn temporal_result(
    current: Reservoir,
    hit: Hit,
    history: History,
    scene: Scene,
    max_history: u32,
    u: u32,
) -> Reservoir {
    match reprojected(hit, history) {
        None => current,
        Some(pos) => {
            let previous = reservoir_at(history.reservoirs@, history.camera.spec_screen_to_idx(pos));
            let density = shadowed_density(previous.sample, hit, scene);
            merged(current, clamped_to(reweighted_to(previous, density), max_history), u)
        },
    }
}

/// The temporal stage for one pixel; see [`temporal_result`]. One number is
/// drawn from the generator, whether or not history is found.
pub fn main_inner(
    wnoise: &mut WhiteNoise,
    current: Reservoir,
    hit: Hit,
    history: &History,
    scene: &Scene,
    max_history: u32,
) -> (r: Reservoir)
    requires
        scene.well_formed(),
    ensures
        final(wnoise).state == pcg_step(old(wnoise).state),
        r == temporal_result(
            current,
            hit,
            *history,
            *scene,
            max_history,
            pcg_output(final(wnoise).state),
        ),
        history.camera.spec_project(hit.point) is None ==> r == current,
{
    let u = wnoise.sample_int();
    if hit.is_none() {
        return current;
    }
    let pos = match history.camera.project(hit.point) {
        None => {
            return current;
        },
        Some(pos) => pos,
    };
    let previous_hit = Hit::deserialize(history.hits_d0.read(pos), history.hits_d1.read(pos));
    if !hit.is_similar_to(&previous_hit) {
        return current;
    }
    let previous = Reservoir::read(history.reservoirs, history.camera.screen_to_idx(pos));
    let density = shadowed_target(&previous.sample, hit, scene);
    Reservoir::merge(current, previous.reweighted(density).clamped(max_history), u)
}

/// The temporal stage for the pixel `global_id` of a dispatch: the pixel's
/// reservoir from initial sampling is read, resampled against the previous
/// frame, and written to the pixel's slot of the stage's own buffer. A
/// pixel outside of the viewport is left alone.
pub fn main(
    global_id: UVec2,
    params: &PassParams,
    max_history: u32,
    scene: &Scene,
    camera: &Camera,
    gbuffer_d0: &Tex,
    gbuffer_d1: &Tex,
    history: &History,
    initial_reservoirs: &Vec<Vec4>,
    temporal_reservoirs: &mut Vec<Vec4>,
)
    requires
        scene.well_formed(),
    ensures
        final(temporal_reservoirs)@ == if camera.viewport.spec_contains(global_id) {
            reservoir_put(
                old(temporal_reservoirs)@,
                camera.spec_screen_to_idx(global_id),
                temporal_result(
                    reservoir_at(initial_reservoirs@, camera.spec_screen_to_idx(global_id)),
                    unpacked_hit(gbuffer_d0.texel(global_id), gbuffer_d1.texel(global_id)),
                    *history,
                    *scene,
                    max_history,
                    pcg_output(pcg_step(white_noise_start(params.seed, global_id.x, global_id.y))),
                ),
            )
        } else {
            old(temporal_reservoirs)@
        },
{
    if !camera.viewport.contains(global_id) {
        return ;
    }
    let idx = camera.screen_to_idx(global_id);
    let mut wnoise = WhiteNoise::new(params.seed, global_id);
    let hit = Hit::deserialize(gbuffer_d0.read(global_id), gbuffer_d1.read(global_id));
    let current = Reservoir::read(initial_reservoirs, idx);
    let r = main_inner(&mut wnoise, current, hit, history, scene, max_history);
    r.write(temporal_reservoirs, idx);
}

/// Without a place in the previous frame to look at, the temporal stage
/// hands the current reservoir on as it is, its count of candidates
/// included.
pub proof fn lemma_no_history_passes_through(
    current: Reservoir,
    hit: Hit,
    history: History,
    scene: Scene,
    max_history: u32,
    u: u32,
)
    requires
        history.camera.spec_project(hit.point) is None,
    ensures
        temporal_result(current, hit, history, scene, max_history, u) == current,
        temporal_result(current, hit, history, scene, max_history, u).m == current.m,
{
}

/// History adds no more than `max_history` candidates to the count of a
/// reservoir.
pub proof fn lemma_history_bounded(
    current: Reservoir,
    hit: Hit,
    history: History,
    scene: Scene,
    max_history: u32,
    u: u32,
)
    ensures
        current.m <= temporal_result(current, hit, history, scene, max_history, u).m,
        temporal_result(current, hit, history, scene, max_history, u).m <= current.m + max_history,
{
}

} // verus!
