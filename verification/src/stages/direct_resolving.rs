use vstd::prelude::*;
use crate::camera::Camera;
use crate::hit::{unpacked_hit, Hit};
use crate::math::{Radiance, UVec2, Vec4};
use crate::reservoir::{reservoir_at, Reservoir};
use crate::shading::{resolve, resolved, Light, Material};
use crate::texture::{fetch, fetched, Tex};

verus! {

/// The value of an opaque alpha channel.
pub const OPAQUE: u32 = 65536;

/// The colour that the stage gives the pixel in slot `idx`: where the pixel
/// sees a surface, the radiance that its reservoir resolves to there; where
/// it sees none, the radiance that initial sampling stored for it.
pub open spec fn resolved_pixel(
    idx: int,
    lights: Seq<Light>,
    materials: Seq<Material>,
    d0: Vec4,
    d1: Vec4,
    initial_samples: Seq<Vec4>,
    reservoirs: Seq<Vec4>,
) -> Vec4 {
    let hit = unpacked_hit(d0, d1);
    let out = if hit.is_some() {
        resolved(reservoir_at(reservoirs, idx), hit, lights, materials)
    } else {
        let fallback = fetched(initial_samples, 2 * idx);
        Radiance { r: fallback.x, g: fallback.y, b: fallback.z }
    };
    Vec4 { x: out.r, y: out.g, z: out.b, w: OPAQUE }
}

/// The stage for the pixel `global_id`: its resolved colour is written to
/// its texel of the output, opaque; see [`resolved_pixel`].
pub fn main(
    global_id: UVec2,
    lights: &Vec<Light>,
    materials: &Vec<Material>,
    camera: &Camera,
    direct_gbuffer_d0: &Tex,
    direct_gbuffer_d1: &Tex,
    direct_initial_samples: &Vec<Vec4>,
    direct_samples: &mut Tex,
    direct_spatial_reservoirs: &Vec<Vec4>,
)
    ensures
        final(direct_samples).size() == old(direct_samples).size(),
        forall|pos: UVec2|
            #[trigger] final(direct_samples).texel(pos) == if pos == global_id && old(
                direct_samples,
            ).inside(pos) {
                resolved_pixel(
                    camera.spec_screen_to_idx(global_id),
                    lights@,
                    materials@,
                    direct_gbuffer_d0.texel(global_id),
                    direct_gbuffer_d1.texel(global_id),
                    direct_initial_samples@,
                    direct_spatial_reservoirs@,
                )
            } else {
                old(direct_samples).texel(pos)
            },
{
    let screen_pos = global_id;
    let screen_idx = camera.screen_to_idx(screen_pos);
    let hit = Hit::deserialize(direct_gbuffer_d0.read(screen_pos), direct_gbuffer_d1.read(screen_pos));
    let out = if hit.is_some() {
        let reservoir = Reservoir::read(direct_spatial_reservoirs, screen_idx);
        resolve(&reservoir, hit, lights, materials)
    } else {
        let fallback = fetch(direct_initial_samples, 2 * (screen_idx as u128));
        Radiance { r: fallback.x, g: fallback.y, b: fallback.z }
    };
    direct_samples.write(screen_pos, Vec4 { x: out.r, y: out.g, z: out.b, w: OPAQUE });
}

} // verus!
