use vstd::prelude::*;
use crate::bvh::{bvh_ok, occluded, trace_any, BvhNode};
use crate::geometry::{Ray, Triangle};
use crate::vector::{dot, minus, v, V};
use crate::hit::Hit;
use crate::math::{isqrt, lemma_product_fits, mul_i64, sat32, sat_div, spec_isqrt, Radiance, Vec3};
use crate::reservoir::{LightId, Reservoir, Sample};

verus! {

/// How a light of the table gives off its light.
#[derive(Clone, Copy, Debug, PartialEq, Eq, Structural)]
pub enum LightKind {
    Area,
    Point,
}

/// A light of the light table.
#[derive(Clone, Copy, Debug, PartialEq, Eq, Structural)]
pub struct Light {
    pub kind: LightKind,
    pub position: Vec3,
    pub radiance: Radiance,
}

/// A surface material. The albedo is the share of the light that the
/// surface gives back, per channel, in 1/65536ths.
#[derive(Clone, Copy, Debug, PartialEq, Eq, Structural)]
pub struct Material {
    pub albedo: Radiance,
    pub roughness: u32,
    pub metallic: u32,
}

/// 1 / pi in 1/65536ths.
pub const INV_PI: u64 = 20861;

/// The geometry between a surface point with normal `n` and a point at the
/// offset `l` from it: the share of `n . l` that is not negative, the
/// lengths of both vectors, and the square of the distance.
pub struct Facing {
    pub along: int,
    pub normal_length: int,
    pub distance: int,
    pub distance_squared: int,
}

pub open spec fn facing(n: V, l: V) -> Facing {
    Facing {
        along: if dot(n, l) > 0 {
            dot(n, l)
        } else {
            0
        },
        normal_length: spec_isqrt(dot(n, n)),
        distance: spec_isqrt(dot(l, l)),
        distance_squared: dot(l, l),
    }
}

/// One channel of the light that a diffuse surface of the given albedo
/// sends on from a point light of the given radiance:
/// `albedo / pi * radiance * cos / distance^2`, with the cosine taken as
/// `along / (normal_length * distance)`. Zero where the light is not in
/// front of the surface.
pub open spec fn diffuse_channel(radiance: u32, albedo: u32, f: Facing) -> u32 {
    if f.along <= 0 || f.normal_length <= 0 || f.distance <= 0 {
        0
    } else {
        sat32(
            (radiance as int * albedo as int * 20861 * f.along) / (0x1_0000_0000
                * f.normal_length * f.distance * f.distance_squared),
        )
    }
}

/// The light that the surface at `hit` with the given albedo sends on from
/// the point `from` that shines with `radiance`.
pub open spec fn diffuse(radiance: Radiance, albedo: Radiance, hit: Hit, from: Vec3) -> Radiance {
    let f = facing(v(hit.normal), minus(v(from), v(hit.point)));
    Radiance {
        r: diffuse_channel(radiance.r, albedo.r, f),
        g: diffuse_channel(radiance.g, albedo.g, f),
        b: diffuse_channel(radiance.b, albedo.b, f),
    }
}

/// The geometry in machine integers.
struct FacingExec {
    along: u64,
    normal_length: u64,
    distance: u64,
    distance_squared: u64,
}

impl FacingExec {
    spec fn view(self) -> Facing {
        Facing {
            along: self.along as int,
            normal_length: self.normal_length as int,
            distance: self.distance as int,
            distance_squared: self.distance_squared as int,
        }
    }

    spec fn small(self) -> bool {
        &&& self.along <= 0x2_0000_0000
        &&& self.normal_length <= 0x1_0000
        &&& self.distance <= 0x2_0000
        &&& self.distance_squared <= 0x4_0000_0000
        &&& self.distance > 0 ==> self.distance_squared > 0
    }
}

proof fn lemma_root_small(x: int, r: int, bound: int)
    by (nonlinear_arith)
    requires
        0 <= r,
        0 <= bound,
        r * r <= x,
        x < bound * bound,
    ensures
        r < bound,
{
}

fn face(hit: &Hit, from: Vec3) -> (f: FacingExec)
    ensures
        f.view() == facing(v(hit.normal), minus(v(from), v(hit.point))),
        f.small(),
{
    let nx = hit.normal.x as i64;
    let ny = hit.normal.y as i64;
    let nz = hit.normal.z as i64;
    let lx = from.x as i64 - hit.point.x as i64;
    let ly = from.y as i64 - hit.point.y as i64;
    let lz = from.z as i64 - hit.point.z as i64;
    let ghost c = 32768int;
    let ghost e = 65535int;
    let nl = mul_i64(nx, lx, Ghost(c), Ghost(e)) + mul_i64(ny, ly, Ghost(c), Ghost(e)) + mul_i64(
        nz,
        lz,
        Ghost(c),
        Ghost(e),
    );
    let nxx = mul_i64(nx, nx, Ghost(c), Ghost(c));
    let nyy = mul_i64(ny, ny, Ghost(c), Ghost(c));
    let nzz = mul_i64(nz, nz, Ghost(c), Ghost(c));
    let lxx = mul_i64(lx, lx, Ghost(e), Ghost(e));
    let lyy = mul_i64(ly, ly, Ghost(e), Ghost(e));
    let lzz = mul_i64(lz, lz, Ghost(e), Ghost(e));
    proof {
        assert(nxx >= 0 && nyy >= 0 && nzz >= 0 && lxx >= 0 && lyy >= 0 && lzz >= 0)
            by (nonlinear_arith)
            requires
                nxx == nx * nx,
                nyy == ny * ny,
                nzz == nz * nz,
                lxx == lx * lx,
                lyy == ly * ly,
                lzz == lz * lz,
        ;
    }
    let nn = (nxx + nyy + nzz) as u64;
    let ll = (lxx + lyy + lzz) as u64;
    let normal_length = isqrt(nn) as u64;
    let distance = isqrt(ll) as u64;
    proof {
        lemma_root_small(nn as int, normal_length as int, 0x1_0000);
        lemma_root_small(ll as int, distance as int, 0x2_0000);
        assert(distance > 0 ==> ll > 0) by (nonlinear_arith)
            requires
                distance * distance <= ll,
                0 <= distance,
        ;
    }
    FacingExec {
        along: if nl > 0 {
            nl as u64
        } else {
            0
        },
        normal_length,
        distance,
        distance_squared: ll,
    }
}

fn mul_u128(a: u128, b: u128, Ghost(ba): Ghost<int>, Ghost(bb): Ghost<int>) -> (r: u128)
    requires
        a <= ba,
        b <= bb,
        ba * bb <= 0xffff_ffff_ffff_ffff_ffff_ffff_ffff_ffff,
    ensures
        r == a * b,
        r <= ba * bb,
{
    proof {
        lemma_product_fits(a as int, b as int, ba, bb);
    }
    a * b
}

fn diffuse_channel_of(radiance: u32, albedo: u32, f: &FacingExec) -> (c: u32)
    requires
        f.small(),
    ensures
        c == diffuse_channel(radiance, albedo, f.view()),
{
    if f.along == 0 || f.normal_length == 0 || f.distance == 0 {
        return 0;
    }
    let ra = mul_u128(radiance as u128, albedo as u128, Ghost(0xffff_ffff), Ghost(0xffff_ffff));
    let rap = mul_u128(ra, 20861, Ghost(0xffff_ffffint * 0xffff_ffff), Ghost(20861));
    let num = mul_u128(
        rap,
        f.along as u128,
        Ghost(0xffff_ffffint * 0xffff_ffff * 20861),
        Ghost(0x2_0000_0000),
    );
    let d1 = mul_u128(0x1_0000_0000, f.normal_length as u128, Ghost(0x1_0000_0000), Ghost(0x1_0000));
    let d2 = mul_u128(d1, f.distance as u128, Ghost(0x1_0000_0000int * 0x1_0000), Ghost(0x2_0000));
    let den = mul_u128(
        d2,
        f.distance_squared as u128,
        Ghost(0x1_0000_0000int * 0x1_0000 * 0x2_0000),
        Ghost(0x4_0000_0000),
    );
    proof {
        assert(den > 0) by (nonlinear_arith)
            requires
                den == 0x1_0000_0000 * f.normal_length * f.distance * f.distance_squared,
                f.normal_length > 0,
                f.distance > 0,
                f.distance_squared > 0,
        ;
    }
    let q = sat_div(num, den);
    if q > u32::MAX as u64 {
        u32::MAX
    } else {
        q as u32
    }
}

impl Light {
    /// The light that the surface at `hit` sends on from this light; see
    /// [`diffuse`].
    pub fn radiance(&self, hit: Hit, material: &Material) -> (r: Radiance)
        ensures
            r == diffuse(self.radiance, material.albedo, hit, self.position),
    {
        self.radiance_from(self.position, hit, material)
    }

    /// The light that the surface at `hit` sends on from the point `from` of
    /// this light.
    pub fn radiance_from(&self, from: Vec3, hit: Hit, material: &Material) -> (r: Radiance)
        ensures
            r == diffuse(self.radiance, material.albedo, hit, from),
    {
        let f = face(&hit, from);
        Radiance {
            r: diffuse_channel_of(self.radiance.r, material.albedo.r, &f),
            g: diffuse_channel_of(self.radiance.g, material.albedo.g, &f),
            b: diffuse_channel_of(self.radiance.b, material.albedo.b, &f),
        }
    }
}

/// What a light sample contributes at a surface hit: for the sun and the
/// sky the radiance that the sample carries, for a light of the table the
/// light that the surface sends on from the sampled point, and nothing for
/// a light or a material that the tables do not hold.
pub open spec fn contribution(
    sample: Sample,
    hit: Hit,
    lights: Seq<Light>,
    materials: Seq<Material>,
) -> Radiance {
    if sample.light_id.is_sun() || sample.light_id.is_sky() {
        sample.radiance
    } else if sample.light_id.id < lights.len() && hit.material_id < materials.len() {
        diffuse(
            lights[sample.light_id.id as int].radiance,
            materials[hit.material_id as int].albedo,
            hit,
            sample.point,
        )
    } else {
        Radiance::spec_zero()
    }
}

/// The density with which a sample counts at a surface hit: the brightness
/// of its contribution there.
pub open spec fn target_density(
    sample: Sample,
    hit: Hit,
    lights: Seq<Light>,
    materials: Seq<Material>,
) -> u32 {
    contribution(sample, hit, lights, materials).spec_luminance() as u32
}

/// The radiance that a reservoir stands for at a surface hit: the
/// contribution of its sample times its weight, and nothing where the
/// weight is zero.
pub open spec fn resolved(
    reservoir: Reservoir,
    hit: Hit,
    lights: Seq<Light>,
    materials: Seq<Material>,
) -> Radiance {
    if reservoir.w == 0 {
        Radiance::spec_zero()
    } else {
        contribution(reservoir.sample, hit, lights, materials).spec_scaled(reservoir.w)
    }
}

/// See [`contribution`].
pub fn contribute(sample: &Sample, hit: Hit, lights: &Vec<Light>, materials: &Vec<Material>) -> (r:
    Radiance)
    ensures
        r == contribution(*sample, hit, lights@, materials@),
{
    if sample.light_id.is_sun() || sample.light_id.is_sky() {
        sample.radiance
    } else if (sample.light_id.id as usize) < lights.len() && (hit.material_id as usize)
        < materials.len() {
        lights[sample.light_id.id as usize].radiance_from(
            sample.point,
            hit,
            &materials[hit.material_id as usize],
        )
    } else {
        Radiance::zero()
    }
}

/// See [`target_density`].
pub fn target(sample: &Sample, hit: Hit, lights: &Vec<Light>, materials: &Vec<Material>) -> (t: u32)
    ensures
        t == target_density(*sample, hit, lights@, materials@),
{
    contribute(sample, hit, lights, materials).luminance() as u32
}

/// See [`resolved`]. A reservoir of weight zero resolves to no light,
/// whatever its sample holds.
pub fn resolve(reservoir: &Reservoir, hit: Hit, lights: &Vec<Light>, materials: &Vec<Material>) -> (r:
    Radiance)
    ensures
        r == resolved(*reservoir, hit, lights@, materials@),
        reservoir.w == 0 ==> r == Radiance::spec_zero(),
{
    if reservoir.w == 0 {
        Radiance::zero()
    } else {
        contribute(&reservoir.sample, hit, lights, materials).scaled(reservoir.w)
    }
}

/// The tables of a scene as the stages read them for one frame.
pub struct Scene<'a> {
    pub lights: &'a Vec<Light>,
    pub materials: &'a Vec<Material>,
    pub triangles: &'a Vec<Triangle>,
    pub bvh: &'a Vec<BvhNode>,
}

impl<'a> Scene<'a> {
    /// The hierarchy is sound for the triangles.
    pub open spec fn well_formed(&self) -> bool {
        bvh_ok(self.bvh@, self.triangles@)
    }
}

/// A surface coordinate moved one step off the surface, to the side that
/// the normal points to.
pub open spec fn lifted(c: i16, n: i16) -> i16 {
    if n > 0 && c < i16::MAX {
        (c + 1) as i16
    } else if n < 0 && c > i16::MIN {
        (c - 1) as i16
    } else {
        c
    }
}

/// The start of the ray that tests whether a surface hit sees a point: the
/// hit point, lifted off the surface.
pub open spec fn shadow_origin(hit: Hit) -> Vec3 {
    Vec3 {
        x: lifted(hit.point.x, hit.normal.x),
        y: lifted(hit.point.y, hit.normal.y),
        z: lifted(hit.point.z, hit.normal.z),
    }
}

/// The offset from the start of the shadow ray to the point fits a
/// direction vector as it is.
pub open spec fn shadow_fits(hit: Hit, to: Vec3) -> bool {
    let l = minus(v(to), v(shadow_origin(hit)));
    -32768 <= l.x <= 32767 && -32768 <= l.y <= 32767 && -32768 <= l.z <= 32767
}

/// The ray that tests whether the surface hit sees the point `to`: towards
/// the point, with the whole offset as its direction where that fits, and
/// with half of it, rounded down, where not.
pub open spec fn shadow_ray(hit: Hit, to: Vec3) -> Ray {
    let o = shadow_origin(hit);
    let l = minus(v(to), v(o));
    Ray {
        origin: o,
        direction: if shadow_fits(hit, to) {
            Vec3 { x: l.x as i16, y: l.y as i16, z: l.z as i16 }
        } else {
            Vec3 { x: (l.x / 2) as i16, y: (l.y / 2) as i16, z: (l.z / 2) as i16 }
        },
    }
}

/// The greatest distance along the shadow ray that is still short of the
/// point.
pub open spec fn shadow_limit(hit: Hit, to: Vec3) -> u32 {
    if shadow_fits(hit, to) {
        65535
    } else {
        131071
    }
}

/// The surface hit sees the point `to`: nothing of the scene is hit along
/// the shadow ray before the point.
pub open spec fn sees(hit: Hit, to: Vec3, triangles: Seq<Triangle>, nodes: Seq<BvhNode>) -> bool {
    !occluded(shadow_ray(hit, to), triangles, nodes, shadow_limit(hit, to))
}

/// The density with which a sample counts at a surface hit of a scene: the
/// brightness of its contribution there, and nothing where the scene hides
/// the sampled point of a light of the table from the hit.
pub open spec fn shadowed_density(sample: Sample, hit: Hit, scene: Scene) -> u32 {
    let density = target_density(sample, hit, scene.lights@, scene.materials@);
    if sample.light_id.is_sun() || sample.light_id.is_sky() || sees(
        hit,
        sample.point,
        scene.triangles@,
        scene.bvh@,
    ) {
        density
    } else {
        0
    }
}

fn lift(c: i16, n: i16) -> (r: i16)
    ensures
        r == lifted(c, n),
{
    if n > 0 && c < i16::MAX {
        c + 1
    } else if n < 0 && c > i16::MIN {
        c - 1
    } else {
        c
    }
}

fn half(x: i64) -> (r: i16)
    requires
        -65535 <= x <= 65535,
    ensures
        r == x as int / 2,
{
    if x >= 0 {
        (x / 2) as i16
    } else {
        (-((-x + 1) / 2)) as i16
    }
}

/// Says whether the surface hit sees the point `to`; see [`sees`].
pub fn is_visible(hit: Hit, to: Vec3, triangles: &Vec<Triangle>, bvh: &Vec<BvhNode>) -> (b: bool)
    requires
        bvh_ok(bvh@, triangles@),
    ensures
        b == sees(hit, to, triangles@, bvh@),
{
    let origin = Vec3 {
        x: lift(hit.point.x, hit.normal.x),
        y: lift(hit.point.y, hit.normal.y),
        z: lift(hit.point.z, hit.normal.z),
    };
    let lx = to.x as i64 - origin.x as i64;
    let ly = to.y as i64 - origin.y as i64;
    let lz = to.z as i64 - origin.z as i64;
    let fits = -32768 <= lx && lx <= 32767 && -32768 <= ly && ly <= 32767 && -32768 <= lz && lz
        <= 32767;
    let (direction, limit) = if fits {
        (Vec3 { x: lx as i16, y: ly as i16, z: lz as i16 }, 65535u32)
    } else {
        (Vec3 { x: half(lx), y: half(ly), z: half(lz) }, 131071u32)
    };
    let ray = Ray { origin, direction };
    assert(ray == shadow_ray(hit, to));
    !trace_any(&ray, triangles, bvh, limit)
}

/// See [`shadowed_density`].
pub fn shadowed_target(sample: &Sample, hit: Hit, scene: &Scene) -> (t: u32)
    requires
        scene.well_formed(),
    ensures
        t == shadowed_density(*sample, hit, *scene),
{
    let density = target(sample, hit, scene.lights, scene.materials);
    if density == 0 || sample.light_id.is_sun() || sample.light_id.is_sky() || is_visible(
        hit,
        sample.point,
        scene.triangles,
        scene.bvh,
    ) {
        density
    } else {
        0
    }
}

} // verus!
