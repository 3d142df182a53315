use vstd::prelude::*;
use crate::bvh::{bvh_ok, is_nearest, trace_nearest, BvhNode};
use crate::camera::PassParams;
use crate::geometry::{Ray, Triangle};
use crate::hit::{packed_hit, unpacked_hit, Hit};
use crate::math::{UVec2, Vec4};
use crate::noise::{hemisphere_direction, pcg_output, pcg_step, white_noise_start, WhiteNoise};
use crate::texture::Tex;

verus! {

/// The ray that leaves a surface hit for one bounce, under the state of the
/// pixel's generator: from the hit point, in a direction sampled around the
/// hit's normal.
pub open spec fn bounce_ray(state: u32, hit: Hit) -> Ray {
    Ray::spec_new(hit.point, hemisphere_direction(pcg_output(pcg_step(state)), hit.normal))
}

/// `record` is what the stage stores for a pixel whose stored primary hit is
/// (`d0`, `d1`): the record of no hit where the pixel saw no surface, and
/// else the record of a nearest hit of the pixel's bounce ray.
pub open spec fn is_bounce_record(
    state: u32,
    triangles: Seq<Triangle>,
    nodes: Seq<BvhNode>,
    d0: Vec4,
    d1: Vec4,
    record: (Vec4, Vec4),
) -> bool {
    let direct = unpacked_hit(d0, d1);
    if direct.is_none() {
        record == packed_hit(Hit::spec_none())
    } else {
        exists|hit: Hit, id: u32|
            #![trigger is_nearest(bounce_ray(state, direct), triangles, nodes, u32::MAX, hit, id)]
            is_nearest(bounce_ray(state, direct), triangles, nodes, u32::MAX, hit, id) && record
                == packed_hit(hit)
    }
}

/// Traces one bounce for one pixel: reads the pixel's primary hit, and where
/// there is one, follows a ray sampled around its normal to the nearest
/// surface.
pub fn main_inner(
    wnoise: WhiteNoise,
    triangles: &Vec<Triangle>,
    bvh: &Vec<BvhNode>,
    d0: Vec4,
    d1: Vec4,
) -> (record: [Vec4; 2])
    requires
        bvh_ok(bvh@, triangles@),
    ensures
        is_bounce_record(wnoise.state, triangles@, bvh@, d0, d1, (record[0], record[1])),
{
    let ghost start = wnoise.state;
    let mut wnoise = wnoise;
    let direct_hit = Hit::deserialize(d0, d1);
    let indirect_hit = if direct_hit.is_none() {
        Hit::none()
    } else {
        let ray = Ray::new(direct_hit.point, wnoise.sample_hemisphere(direct_hit.normal));
        let traced = trace_nearest(&ray, triangles, bvh, u32::MAX);
        assert(ray == bounce_ray(start, direct_hit));
        assert(is_nearest(
            bounce_ray(start, direct_hit),
            triangles@,
            bvh@,
            u32::MAX,
            traced.hit,
            traced.triangle,
        ));
        traced.hit
    };
    indirect_hit.serialize()
}

/// The stage for the pixel `global_id` of a dispatch: the bounce record of
/// the pixel's primary hit is stored in the pixel's slot of the two
/// indirect-hit textures, under a generator seeded for the pixel. A texture
/// that has no such slot is left as it is.
pub fn main(
    global_id: UVec2,
    params: &PassParams,
    triangles: &Vec<Triangle>,
    bvh: &Vec<BvhNode>,
    direct_primary_hits_d0: &Tex,
    direct_primary_hits_d1: &Tex,
    indirect_hits_d0: &mut Tex,
    indirect_hits_d1: &mut Tex,
)
    requires
        bvh_ok(bvh@, triangles@),
    ensures
        final(indirect_hits_d0).size() == old(indirect_hits_d0).size(),
        final(indirect_hits_d1).size() == old(indirect_hits_d1).size(),
        forall|pos: UVec2|
            pos != global_id ==> #[trigger] final(indirect_hits_d0).texel(pos) == old(
                indirect_hits_d0,
            ).texel(pos),
        forall|pos: UVec2|
            pos != global_id ==> #[trigger] final(indirect_hits_d1).texel(pos) == old(
                indirect_hits_d1,
            ).texel(pos),
        exists|r0: Vec4, r1: Vec4|
            {
                &&& #[trigger] is_bounce_record(
                    white_noise_start(params.seed, global_id.x, global_id.y),
                    triangles@,
                    bvh@,
                    direct_primary_hits_d0.texel(global_id),
                    direct_primary_hits_d1.texel(global_id),
                    (r0, r1),
                )
                &&& final(indirect_hits_d0).texel(global_id) == if old(indirect_hits_d0).inside(
                    global_id,
                ) {
                    r0
                } else {
                    old(indirect_hits_d0).texel(global_id)
                }
                &&& final(indirect_hits_d1).texel(global_id) == if old(indirect_hits_d1).inside(
                    global_id,
                ) {
                    r1
                } else {
                    old(indirect_hits_d1).texel(global_id)
                }
            },
{
    let record = main_inner(
        WhiteNoise::new(params.seed, global_id),
        triangles,
        bvh,
        direct_primary_hits_d0.read(global_id),
        direct_primary_hits_d1.read(global_id),
    );
    indirect_hits_d0.write(global_id, record[0]);
    indirect_hits_d1.write(global_id, record[1]);
    assert(is_bounce_record(
        white_noise_start(params.seed, global_id.x, global_id.y),
        triangles@,
        bvh@,
        direct_primary_hits_d0.texel(global_id),
        direct_primary_hits_d1.texel(global_id),
        (record[0], record[1]),
    ));
}

} // verus!
