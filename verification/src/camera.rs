use vstd::prelude::*;
use crate::geometry::{Ray};
use crate::vector::{cross, dot, minus, v, V};
use crate::math::{floor_div, mul_i64, UVec2, Vec3};

verus! {

/// The rectangle of the output image that a camera renders to.
#[derive(Clone, Copy, Debug, PartialEq, Eq, Structural)]
pub struct Viewport {
    pub position: UVec2,
    pub size: UVec2,
}

/// Seed and frame number of one dispatch.
#[derive(Clone, Copy, Debug, PartialEq, Eq, Structural)]
pub struct PassParams {
    pub seed: u32,
    pub frame: u32,
}

impl Viewport {
    /// Number of pixels, which is the length of every screen-sized buffer.
    pub open spec fn pixels(&self) -> int {
        self.size.x * self.size.y
    }

    pub open spec fn spec_contains(&self, pos: UVec2) -> bool {
        pos.x < self.size.x && pos.y < self.size.y
    }

    /// The slot of pixel `pos` in a screen-sized buffer, rows first.
    pub open spec fn spec_screen_to_idx(&self, pos: UVec2) -> int {
        pos.y * self.size.x + pos.x
    }

    #[verifier::when_used_as_spec(spec_contains)]
    pub fn contains(&self, pos: UVec2) -> (inside: bool)
        ensures
            inside == self.spec_contains(pos),
    {
        pos.x < self.size.x && pos.y < self.size.y
    }

    pub fn pixel_count(&self) -> (n: u64)
        ensures
            n == self.pixels(),
    {
        assert(self.size.x * self.size.y <= 0xffff_ffff * 0xffff_ffff) by (nonlinear_arith)
            requires
                self.size.x <= 0xffff_ffff,
                self.size.y <= 0xffff_ffff,
        ;
        self.size.x as u64 * self.size.y as u64
    }

    /// The slot of pixel `pos` in a screen-sized buffer. A pixel inside the
    /// viewport has a slot below the number of pixels.
    pub fn screen_to_idx(&self, pos: UVec2) -> (idx: u64)
        ensures
            idx == self.spec_screen_to_idx(pos),
            self.spec_contains(pos) ==> idx < self.pixels(),
    {
        proof {
            lemma_slot_fits(self.size.x as int, self.size.y as int, pos.x as int, pos.y as int);
        }
        pos.y as u64 * self.size.x as u64 + pos.x as u64
    }

    /// The pixel that slot `idx` belongs to.
    pub fn idx_to_screen(&self, idx: u64) -> (pos: UVec2)
        requires
            idx < self.pixels(),
        ensures
            self.spec_contains(pos),
            self.spec_screen_to_idx(pos) == idx,
    {
        let width = self.size.x as u64;
        proof {
            lemma_slot_back(self.size.x as int, self.size.y as int, idx as int);
        }
        UVec2 { x: (idx % width) as u32, y: (idx / width) as u32 }
    }
}

proof fn lemma_slot_fits(w: int, h: int, x: int, y: int)
    by (nonlinear_arith)
    requires
        0 <= w <= 0xffff_ffff,
        0 <= h <= 0xffff_ffff,
        0 <= x <= 0xffff_ffff,
        0 <= y <= 0xffff_ffff,
    ensures
        0 <= y * w <= 0xffff_ffff * 0xffff_ffff,
        y * w + x <= 0xffff_ffff_ffff_ffff,
        x < w && y < h ==> y * w + x < w * h,
{
    if x < w && y < h {
        assert(y * w + x < (y + 1) * w);
        assert((y + 1) * w <= h * w);
    }
}

proof fn lemma_slot_back(w: int, h: int, idx: int)
    by (nonlinear_arith)
    requires
        0 <= w,
        0 <= h,
        0 <= idx < w * h,
    ensures
        w > 0,
        0 <= idx % w < w,
        0 <= idx / w < h,
        (idx / w) * w + idx % w == idx,
{
    assert(w > 0);
    assert(idx == w * (idx / w) + idx % w);
    if idx / w >= h {
        assert(w * (idx / w) >= w * h);
    }
}

/// Two pixels of a viewport never share a slot.
pub proof fn lemma_slots_distinct(viewport: Viewport, a: UVec2, b: UVec2)
    requires
        viewport.spec_contains(a),
        viewport.spec_contains(b),
        viewport.spec_screen_to_idx(a) == viewport.spec_screen_to_idx(b),
    ensures
        a == b,
{
    let w = viewport.size.x as int;
    assert(a.y == b.y) by (nonlinear_arith)
        requires
            a.y * w + a.x == b.y * w + b.x,
            0 <= a.x < w,
            0 <= b.x < w,
            0 <= a.y,
            0 <= b.y,
    {
        if a.y < b.y {
            assert((a.y + 1) * w <= b.y * w);
        }
        if b.y < a.y {
            assert((b.y + 1) * w <= a.y * w);
        }
    }
}

/// A pinhole camera. The ray of the pixel in the middle of the viewport
/// runs along `forward`; one pixel to the right adds `right` to the
/// direction, one pixel up adds `up`.
#[derive(Clone, Copy, Debug, PartialEq, Eq, Structural)]
pub struct Camera {
    pub viewport: Viewport,
    pub origin: Vec3,
    pub forward: Vec3,
    pub right: Vec3,
    pub up: Vec3,
}

/// `c` cut off at the range of a direction's coordinate.
pub open spec fn clamped16(c: int) -> i16 {
    if c > 32767 {
        32767i16
    } else if c < -32767 {
        -32767i16
    } else {
        c as i16
    }
}

/// The determinant of the matrix with the columns `a`, `b` and `c`.
pub open spec fn triple(a: V, b: V, c: V) -> int {
    dot(a, cross(b, c))
}

/// A point in the frame of a camera: `across / depth` pixels right of the
/// middle of the viewport and `above / depth` pixels above it. `depth` and
/// `scale` have the same sign where the point is in front of the camera.
pub struct Projection {
    pub across: int,
    pub above: int,
    pub depth: int,
    pub scale: int,
}

pub open spec fn projection(camera: Camera, point: Vec3) -> Projection {
    let p = minus(v(point), v(camera.origin));
    let r = v(camera.right);
    let u = v(camera.up);
    let f = v(camera.forward);
    Projection {
        across: triple(p, u, f),
        above: triple(r, p, f),
        depth: triple(r, u, p),
        scale: triple(r, u, f),
    }
}

/// `n / d` rounded to the nearest whole number, for a positive `d`.
pub open spec fn rounded(n: int, d: int) -> int {
    (2 * n + d) / (2 * d)
}

impl Camera {
    pub open spec fn spec_screen_to_idx(&self, pos: UVec2) -> int {
        self.viewport.spec_screen_to_idx(pos)
    }

    /// The slot of pixel `pos` in a screen-sized buffer.
    pub fn screen_to_idx(&self, pos: UVec2) -> (idx: u64)
        ensures
            idx == self.spec_screen_to_idx(pos),
            self.viewport.spec_contains(pos) ==> idx < self.viewport.pixels(),
    {
        self.viewport.screen_to_idx(pos)
    }

    /// The ray through pixel `pos`: from the camera's origin, along
    /// `forward` plus `right` and `up` for each pixel that `pos` lies right
    /// of and above the middle of the viewport, brought to unit length.
    pub open spec fn spec_ray(&self, pos: UVec2) -> Ray {
        let cx = pos.x as int - (self.viewport.size.x / 2) as int;
        let cy = (self.viewport.size.y / 2) as int - pos.y as int;
        Ray::spec_new(
            self.origin,
            Vec3 {
                x: clamped16(self.forward.x + self.right.x * cx + self.up.x * cy),
                y: clamped16(self.forward.y + self.right.y * cx + self.up.y * cy),
                z: clamped16(self.forward.z + self.right.z * cx + self.up.z * cy),
            },
        )
    }

    #[verifier::when_used_as_spec(spec_ray)]
    pub fn ray(&self, pos: UVec2) -> (ray: Ray)
        ensures
            ray == self.spec_ray(pos),
    {
        let cx = pos.x as i64 - (self.viewport.size.x / 2) as i64;
        let cy = (self.viewport.size.y / 2) as i64 - pos.y as i64;
        Ray::new(
            self.origin,
            Vec3 {
                x: lean(self.forward.x, self.right.x, self.up.x, cx, cy),
                y: lean(self.forward.y, self.right.y, self.up.y, cx, cy),
                z: lean(self.forward.z, self.right.z, self.up.z, cx, cy),
            },
        )
    }

    /// The pixel through which the camera sees `point`: none where the
    /// point is not in front of the camera or is seen outside of the
    /// viewport.
    pub open spec fn spec_project(&self, point: Vec3) -> Option<UVec2> {
        let p = projection(*self, point);
        if p.depth == 0 || p.scale == 0 || (p.depth > 0) != (p.scale > 0) {
            None
        } else {
            let sign: int = if p.depth > 0 {
                1
            } else {
                -1
            };
            let x = rounded(sign * p.across, sign * p.depth) + (self.viewport.size.x / 2) as int;
            let y = (self.viewport.size.y / 2) as int - rounded(sign * p.above, sign * p.depth);
            if 0 <= x < self.viewport.size.x && 0 <= y < self.viewport.size.y {
                Some(UVec2 { x: x as u32, y: y as u32 })
            } else {
                None
            }
        }
    }

    #[verifier::when_used_as_spec(spec_project)]
    pub fn project(&self, point: Vec3) -> (pos: Option<UVec2>)
        ensures
            pos == self.spec_project(point),
    {
        let px = point.x as i64 - self.origin.x as i64;
        let py = point.y as i64 - self.origin.y as i64;
        let pz = point.z as i64 - self.origin.z as i64;
        let rx = self.right.x as i64;
        let ry = self.right.y as i64;
        let rz = self.right.z as i64;
        let ux = self.up.x as i64;
        let uy = self.up.y as i64;
        let uz = self.up.z as i64;
        let fx = self.forward.x as i64;
        let fy = self.forward.y as i64;
        let fz = self.forward.z as i64;
        let across = det3(px, py, pz, ux, uy, uz, fx, fy, fz);
        let above = det3(rx, ry, rz, px, py, pz, fx, fy, fz);
        let depth = det3(rx, ry, rz, ux, uy, uz, px, py, pz);
        let scale = det3(rx, ry, rz, ux, uy, uz, fx, fy, fz);
        if depth == 0 || scale == 0 || (depth > 0) != (scale > 0) {
            return None;
        }
        let (a, b, d) = if depth > 0 {
            (across, above, depth)
        } else {
            (-across, -above, -depth)
        };
        proof {
            assert(1 * across == across && 1 * above == above && 1 * depth == depth && (-1)
                * across == -across && (-1) * above == -above && (-1) * depth == -depth)
                by (nonlinear_arith);
        }
        let x = floor_div(2 * a as i128 + d as i128, 2 * d as i128) + (self.viewport.size.x
            / 2) as i128;
        let y = (self.viewport.size.y / 2) as i128 - floor_div(
            2 * b as i128 + d as i128,
            2 * d as i128,
        );
        if 0 <= x && x < self.viewport.size.x as i128 && 0 <= y && y < self.viewport.size.y as i128 {
            Some(UVec2 { x: x as u32, y: y as u32 })
        } else {
            None
        }
    }
}

fn lean(forward: i16, right: i16, up: i16, cx: i64, cy: i64) -> (c: i16)
    requires
        -0x1_0000_0000 <= cx <= 0x1_0000_0000,
        -0x1_0000_0000 <= cy <= 0x1_0000_0000,
    ensures
        c == clamped16(forward + right * cx + up * cy),
{
    let sum = forward as i64 + mul_i64(right as i64, cx, Ghost(32768), Ghost(0x1_0000_0000))
        + mul_i64(up as i64, cy, Ghost(32768), Ghost(0x1_0000_0000));
    if sum > 32767 {
        32767
    } else if sum < -32767 {
        -32767
    } else {
        sum as i16
    }
}

fn det3(ax: i64, ay: i64, az: i64, bx: i64, by: i64, bz: i64, cx: i64, cy: i64, cz: i64) -> (d: i64)
    requires
        -65535 <= ax <= 65535 && -65535 <= ay <= 65535 && -65535 <= az <= 65535,
        -65535 <= bx <= 65535 && -65535 <= by <= 65535 && -65535 <= bz <= 65535,
        -65535 <= cx <= 65535 && -65535 <= cy <= 65535 && -65535 <= cz <= 65535,
    ensures
        d == triple(
            V { x: ax as int, y: ay as int, z: az as int },
            V { x: bx as int, y: by as int, z: bz as int },
            V { x: cx as int, y: cy as int, z: cz as int },
        ),
        -0x8_0000_0000_0000 <= d <= 0x8_0000_0000_0000,
{
    let ghost e = 65535int;
    let ghost w = 0x2_0000_0000int;
    let mx = mul_i64(by, cz, Ghost(e), Ghost(e)) - mul_i64(bz, cy, Ghost(e), Ghost(e));
    let my = mul_i64(bz, cx, Ghost(e), Ghost(e)) - mul_i64(bx, cz, Ghost(e), Ghost(e));
    let mz = mul_i64(bx, cy, Ghost(e), Ghost(e)) - mul_i64(by, cx, Ghost(e), Ghost(e));
    mul_i64(ax, mx, Ghost(e), Ghost(w)) + mul_i64(ay, my, Ghost(e), Ghost(w)) + mul_i64(
        az,
        mz,
        Ghost(e),
        Ghost(w),
    )
}

/// A camera with the state that changes from frame to frame.
#[derive(Clone, Copy, Debug, PartialEq, Eq, Structural)]
pub struct CameraController {
    pub camera: Camera,
    pub frame: u32,
    pub seed: u32,
}

impl CameraController {
    pub open spec fn spec_pass_params(&self) -> PassParams {
        PassParams { seed: self.seed, frame: self.frame }
    }

    #[verifier::when_used_as_spec(spec_pass_params)]
    pub fn pass_params(&self) -> (params: PassParams)
        ensures
            params == self.spec_pass_params(),
    {
        PassParams { seed: self.seed, frame: self.frame }
    }
}

} // verus!
