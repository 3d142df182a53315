use vstd::prelude::*;
use crate::camera::{Camera, PassParams};
use crate::hit::{similar, unpacked_hit, Hit};
use crate::math::{UVec2, Vec4};
use crate::noise::{pcg_output, pcg_step, white_noise_start, WhiteNoise};
use crate::reservoir::{merged, reservoir_at, reservoir_put, reweighted_to, Reservoir};
use crate::shading::{shadowed_density, shadowed_target, Scene};
use crate::texture::Tex;

verus! {

/// The greatest distance, along either axis, at which a neighbour is looked
/// for.
pub const RADIUS: u32 = 8;

/// One frame as the spatial stage reads it: its camera, the hit records of
/// its pixels and their reservoirs after the temporal stage.
pub struct Neighbourhood<'a> {
    pub camera: &'a Camera,
    pub hits_d0: &'a Tex,
    pub hits_d1: &'a Tex,
    pub reservoirs: &'a Vec<Vec4>,
}

/// The pixel that a random word picks near `pos`: up to `RADIUS` pixels
/// away along each axis; none where that is outside of the viewport.
pub open spec fn neighbour(word: u32, pos: UVec2, camera: Camera) -> Option<UVec2> {
    let x = pos.x as int + (word % 17) as int - 8;
    let y = pos.y as int + ((word / 17) % 17) as int - 8;
    if 0 <= x < camera.viewport.size.x && 0 <= y < camera.viewport.size.y {
        Some(UVec2 { x: x as u32, y: y as u32 })
    } else {
        None
    }
}

/// The reservoir after one neighbour was looked at: where the picked pixel
/// is in the viewport and shows a surface similar to `hit`, its reservoir,
/// weighted anew for `hit`, is merged in under the draw `u`; else nothing
/// changes.
pub open spec fn with_neighbour(
    r: Reservoir,
    word: u32,
    u: u32,
    pos: UVec2,
    hit: Hit,
    frame: Neighbourhood,
    scene: Scene,
) -> Reservoir {
    match neighbour(word, pos, *frame.camera) {
        None => r,
        Some(at) => if similar(hit, unpacked_hit(frame.hits_d0.texel(at), frame.hits_d1.texel(at))) {
            let other = reservoir_at(frame.reservoirs@, frame.camera.spec_screen_to_idx(at));
            let density = shadowed_density(other.sample, hit, scene);
            merged(r, reweighted_to(other, density), u)
        } else {
            r
        },
    }
}

/// The reservoir of the pixel `pos` after `count` neighbours were looked at
/// one after the other, starting from `current`, and the generator's state
/// afterwards: two numbers are drawn for each neighbour, one to pick it and
/// one for the merge.
pub open spec fn spatial_result(
    state: u32,
    count: nat,
    current: Reservoir,
    pos: UVec2,
    hit: Hit,
    frame: Neighbourhood,
    scene: Scene,
) -> (Reservoir, u32)
    decreases count,
{
    if count == 0 {
        (current, state)
    } else {
        let (r, s) = spatial_result(
            state,
            (count - 1) as nat,
            current,
            pos,
            hit,
            frame,
            scene,
        );
        let picked = pcg_step(s);
        let kept = pcg_step(picked);
        (
            with_neighbour(
                r,
                pcg_output(picked),
                pcg_output(kept),
                pos,
                hit,
                frame,
                scene,
            ),
            kept,
        )
    }
}

fn pick_neighbour(word: u32, pos: UVec2, camera: &Camera) -> (at: Option<UVec2>)
    ensures
        at == neighbour(word, pos, *camera),
{
    let x = pos.x as i64 + (word % 17) as i64 - 8;
    let y = pos.y as i64 + ((word / 17) % 17) as i64 - 8;
    if 0 <= x && x < camera.viewport.size.x as i64 && 0 <= y && y < camera.viewport.size.y as i64 {
        Some(UVec2 { x: x as u32, y: y as u32 })
    } else {
        None
    }
}

fn take_neighbour(
    r: Reservoir,
    word: u32,
    u: u32,
    pos: UVec2,
    hit: Hit,
    frame: &Neighbourhood,
    scene: &Scene,
) -> (out: Reservoir)
    requires
        scene.well_formed(),
    ensures
        out == with_neighbour(r, word, u, pos, hit, *frame, *scene),
{
    match pick_neighbour(word, pos, frame.camera) {
        None => r,
        Some(at) => {
            let other_hit = Hit::deserialize(frame.hits_d0.read(at), frame.hits_d1.read(at));
            if hit.is_similar_to(&other_hit) {
                let other = Reservoir::read(frame.reservoirs, frame.camera.screen_to_idx(at));
                let density = shadowed_target(&other.sample, hit, scene);
                Reservoir::merge(r, other.reweighted(density), u)
            } else {
                r
            }
        },
    }
}

/// The spatial stage for one pixel; see [`spatial_result`].
pub fn main_inner(
    wnoise: &mut WhiteNoise,
    count: u32,
    current: Reservoir,
    pos: UVec2,
    hit: Hit,
    frame: &Neighbourhood,
    scene: &Scene,
) -> (r: Reservoir)
    requires
        scene.well_formed(),
    ensures
        (r, final(wnoise).state) == spatial_result(
            old(wnoise).state,
            count as nat,
            current,
            pos,
            hit,
            *frame,
            *scene,
        ),
{
    let ghost start = wnoise.state;
    let mut reservoir = current;
    let mut i: u32 = 0;
    while i < count
        invariant
            i <= count,
            scene.well_formed(),
            (reservoir, wnoise.state) == spatial_result(
                start,
                i as nat,
                current,
                pos,
                hit,
                *frame,
                *scene,
            ),
        decreases count - i,
    {
        let picked = wnoise.sample_int();
        let kept = wnoise.sample_int();
        reservoir = take_neighbour(reservoir, picked, kept, pos, hit, frame, scene);
        i += 1;
    }
    reservoir
}

/// The spatial stage for the pixel `global_id` of a dispatch: the pixel's
/// reservoir after the temporal stage is read, resampled against `count`
/// neighbours, and written to the pixel's slot of the stage's own buffer. A
/// pixel outside of the viewport is left alone.
pub fn main(
    global_id: UVec2,
    params: &PassParams,
    count: u32,
    scene: &Scene,
    frame: &Neighbourhood,
    spatial_reservoirs: &mut Vec<Vec4>,
)
    requires
        scene.well_formed(),
    ensures
        final(spatial_reservoirs)@ == if frame.camera.viewport.spec_contains(global_id) {
            let idx = frame.camera.spec_screen_to_idx(global_id);
            reservoir_put(
                old(spatial_reservoirs)@,
                idx,
                spatial_result(
                    white_noise_start(params.seed, global_id.x, global_id.y),
                    count as nat,
                    reservoir_at(frame.reservoirs@, idx),
                    global_id,
                    unpacked_hit(frame.hits_d0.texel(global_id), frame.hits_d1.texel(global_id)),
                    *frame,
                    *scene,
                ).0,
            )
        } else {
            old(spatial_reservoirs)@
        },
{
    if !frame.camera.viewport.contains(global_id) {
        return ;
    }
    let idx = frame.camera.screen_to_idx(global_id);
    let mut wnoise = WhiteNoise::new(params.seed, global_id);
    let hit = Hit::deserialize(frame.hits_d0.read(global_id), frame.hits_d1.read(global_id));
    let current = Reservoir::read(frame.reservoirs, idx);
    let r = main_inner(&mut wnoise, count, current, global_id, hit, frame, scene);
    r.write(spatial_reservoirs, idx);
}

/// A neighbour lies in the viewport, no more than `RADIUS` pixels from the
/// pixel along either axis.
pub proof fn lemma_neighbour_near(word: u32, pos: UVec2, camera: Camera)
    requires
        neighbour(word, pos, camera) is Some,
    ensures
        camera.viewport.spec_contains(neighbour(word, pos, camera).unwrap()),
        -RADIUS <= neighbour(word, pos, camera).unwrap().x - pos.x <= RADIUS,
        -RADIUS <= neighbour(word, pos, camera).unwrap().y - pos.y <= RADIUS,
{
}

/// The spatial stage only ever adds to the count of candidates.
pub proof fn lemma_neighbours_add(
    state: u32,
    count: nat,
    current: Reservoir,
    pos: UVec2,
    hit: Hit,
    frame: Neighbourhood,
    scene: Scene,
)
    ensures
        current.m <= spatial_result(state, count, current, pos, hit, frame, scene).0.m,
    decreases count,
{
    if count > 0 {
        lemma_neighbours_add(state, (count - 1) as nat, current, pos, hit, frame, scene);
    }
}

} // verus!
