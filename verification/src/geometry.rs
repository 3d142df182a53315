use vstd::prelude::*;
use crate::vector::{
    cross, dot, lemma_unit_small, minus, normalized, spec_normalized, unit, unit_of, v, V,
};
use crate::hit::Hit;
use crate::math::{floor_div, mul_i128, mul_i64, sat32, Vec3};

verus! {

/// The four determinants of the meeting of the line `o + t d` with the plane
/// through `v0` spanned by `e1` and `e2`, for `s = o - v0`: the line meets
/// the plane at `t = tn / det`, at the point `v0 + (un e1 + vn e2) / det`.
pub struct Meeting {
    pub det: int,
    pub un: int,
    pub vn: int,
    pub tn: int,
}

pub open spec fn meeting(s: V, d: V, e1: V, e2: V) -> Meeting {
    let p = cross(d, e2);
    let q = cross(s, e1);
    Meeting { det: dot(e1, p), un: dot(s, p), vn: dot(d, q), tn: dot(e2, q) }
}

proof fn lemma_triple(a: int, g: int, x: int)
    by (nonlinear_arith)
    ensures
        a * (g * x) == (a * g) * x,
{
}

proof fn lemma_spread(a: int, u: int, w: int)
    by (nonlinear_arith)
    ensures
        a * (u + w) == a * u + a * w,
        (u - w) * a == u * a - w * a,
{
}

proof fn lemma_regroup(a: int, f: int, g: int, h: int, b: int, c: int, x: int, y: int)
    ensures
        a * (g * x + h * y) - f * (b * x + c * y) == (a * g - b * f) * x + (a * h - c * f) * y,
{
    lemma_spread(a, g * x, h * y);
    lemma_spread(f, b * x, c * y);
    lemma_triple(a, g, x);
    lemma_triple(a, h, y);
    lemma_triple(f, b, x);
    lemma_triple(f, c, y);
    lemma_spread(x, a * g, b * f);
    lemma_spread(y, a * h, c * f);
    lemma_swap(f, b);
    lemma_swap(f, c);
}

proof fn lemma_split(f: int, g: int, h: int, x1: int, x2: int, x3: int, a: int)
    by (nonlinear_arith)
    ensures
        (f * x1 + g * x2 + h * x3) * a == a * f * x1 + a * (g * x2 + h * x3),
        (a * x1 + g * x2 + h * x3) * f == a * f * x1 + f * (g * x2 + h * x3),
{
}

proof fn lemma_swap(x: int, y: int)
    by (nonlinear_arith)
    ensures
        x * y == y * x,
{
}

/// One coordinate of Cramer's rule, over the coordinates of the four
/// vectors: `s = (a, b, c)`, `d = (p, q, r)`, `e1 = (f, g, h)` and
/// `e2 = (k, l, m)`, with `(px, py, pz) = d x e2` and `(qx, qy, qz) = s x e1`.
proof fn lemma_meeting_coordinate(
    a: int,
    b: int,
    c: int,
    p: int,
    q: int,
    r: int,
    f: int,
    g: int,
    h: int,
    k: int,
    l: int,
    m: int,
    px: int,
    py: int,
    pz: int,
    qx: int,
    qy: int,
    qz: int,
)
    requires
        py == r * k - p * m,
        pz == p * l - q * k,
        qy == c * f - a * h,
        qz == a * g - b * f,
    ensures
        (f * px + g * py + h * pz) * a + (k * qx + l * qy + m * qz) * p == (a * px + b * py + c
            * pz) * f + (p * qx + q * qy + r * qz) * k,
{
    lemma_split(f, g, h, px, py, pz, a);
    lemma_split(f, b, c, px, py, pz, a);
    lemma_split(k, l, m, qx, qy, qz, p);
    lemma_split(k, q, r, qx, qy, qz, p);
    lemma_regroup(a, f, g, h, b, c, py, pz);
    lemma_regroup(p, k, l, m, q, r, qy, qz);
    assert((a * g - b * f) * py == qz * py);
    assert((a * h - c * f) * pz == (-qy) * pz);
    assert((p * l - q * k) * qy == pz * qy);
    assert((p * m - r * k) * qz == (-py) * qz);
    lemma_swap(qz, py);
    lemma_swap(qy, pz);
    assert((-qy) * pz == -(qy * pz)) by (nonlinear_arith);
    assert((-py) * qz == -(py * qz)) by (nonlinear_arith);
}

/// Cramer's rule for the meeting point, one coordinate at a time:
/// `det s + tn d == un e1 + vn e2`.
pub proof fn lemma_meeting_point(s: V, d: V, e1: V, e2: V)
    ensures
        ({
            let m = meeting(s, d, e1, e2);
            &&& m.det * s.x + m.tn * d.x == m.un * e1.x + m.vn * e2.x
            &&& m.det * s.y + m.tn * d.y == m.un * e1.y + m.vn * e2.y
            &&& m.det * s.z + m.tn * d.z == m.un * e1.z + m.vn * e2.z
        }),
{
    let pc = cross(d, e2);
    let qc = cross(s, e1);
    lemma_meeting_coordinate(
        s.x, s.y, s.z, d.x, d.y, d.z, e1.x, e1.y, e1.z, e2.x, e2.y, e2.z,
        pc.x, pc.y, pc.z, qc.x, qc.y, qc.z,
    );
    lemma_meeting_coordinate(
        s.y, s.z, s.x, d.y, d.z, d.x, e1.y, e1.z, e1.x, e2.y, e2.z, e2.x,
        pc.y, pc.z, pc.x, qc.y, qc.z, qc.x,
    );
    lemma_meeting_coordinate(
        s.z, s.x, s.y, d.z, d.x, d.y, e1.z, e1.x, e1.y, e2.z, e2.x, e2.y,
        pc.z, pc.x, pc.y, qc.z, qc.x, qc.y,
    );
}

/// A half-line from `origin` along `direction`. A point of it is named by
/// its parameter `t`: the point `origin + t * direction`.
#[derive(Clone, Copy, Debug, PartialEq, Eq, Structural)]
pub struct Ray {
    pub origin: Vec3,
    pub direction: Vec3,
}

impl Ray {
    pub open spec fn spec_new(origin: Vec3, direction: Vec3) -> Ray {
        Ray { origin, direction: spec_normalized(direction) }
    }

    /// The ray from `origin` along `direction`, the direction brought to a
    /// length of about 4096 grid steps, so that distances along rays made
    /// this way count in one unit.
    #[verifier::when_used_as_spec(spec_new)]
    pub fn new(origin: Vec3, direction: Vec3) -> (ray: Ray)
        ensures
            ray == Ray::spec_new(origin, direction),
    {
        Ray { origin, direction: normalized(direction) }
    }
}

/// A triangle of the scene, in world space, with the normals of its corners
/// and its material.
#[derive(Clone, Copy, Debug, PartialEq, Eq, Structural)]
pub struct Triangle {
    pub v0: Vec3,
    pub v1: Vec3,
    pub v2: Vec3,
    pub n0: Vec3,
    pub n1: Vec3,
    pub n2: Vec3,
    pub material_id: u32,
}

/// An axis-aligned box, both corners included.
#[derive(Clone, Copy, Debug, PartialEq, Eq, Structural)]
pub struct Aabb {
    pub min: Vec3,
    pub max: Vec3,
}

pub open spec fn negated(m: Meeting) -> Meeting {
    Meeting { det: -m.det, un: -m.un, vn: -m.vn, tn: -m.tn }
}

/// The meeting of a ray's line with a triangle's plane, the determinant made
/// positive where it is not zero.
pub open spec fn tri_meeting(ray: Ray, tri: Triangle) -> Meeting {
    let m = meeting(
        minus(v(ray.origin), v(tri.v0)),
        v(ray.direction),
        minus(v(tri.v1), v(tri.v0)),
        minus(v(tri.v2), v(tri.v0)),
    );
    if m.det < 0 {
        negated(m)
    } else {
        m
    }
}

/// The meeting point lies in the triangle, edges included, and ahead of the
/// ray's origin. A triangle without area, or one that the ray runs along,
/// has a zero determinant and is never met.
pub open spec fn meets(m: Meeting) -> bool {
    &&& m.det > 0
    &&& m.un >= 0
    &&& m.vn >= 0
    &&& m.un + m.vn <= m.det
    &&& m.tn > 0
}

/// The ray parameter of a meeting in 1/65536ths, rounded down.
pub open spec fn meeting_distance(m: Meeting) -> u32 {
    sat32(m.tn * 65536 / m.det)
}

/// The distance at which the ray hits the triangle, if it does. A meeting
/// closer than 1/65536 of the direction vector does not count as a hit.
pub open spec fn triangle_distance(ray: Ray, tri: Triangle) -> Option<u32> {
    let m = tri_meeting(ray, tri);
    if meets(m) && meeting_distance(m) >= 1 {
        Some(meeting_distance(m))
    } else {
        None
    }
}

/// A fraction with a positive denominator, or with denominator zero and a
/// positive numerator for "never".
pub struct Fraction {
    pub num: int,
    pub den: int,
}

pub open spec fn fraction_le(a: Fraction, b: Fraction) -> bool {
    a.num * b.den <= b.num * a.den
}

/// The ray parameter from which on the ray is inside the slab `lo..=hi` of
/// one axis; zero where it runs along the slab.
pub open spec fn slab_enter(o: int, d: int, lo: int, hi: int) -> Fraction {
    if d > 0 {
        Fraction { num: lo - o, den: d }
    } else if d < 0 {
        Fraction { num: o - hi, den: -d }
    } else {
        Fraction { num: 0, den: 1 }
    }
}

/// The ray parameter up to which the ray is inside the slab of one axis;
/// "never" where it runs along the slab.
pub open spec fn slab_leave(o: int, d: int, lo: int, hi: int) -> Fraction {
    if d > 0 {
        Fraction { num: hi - o, den: d }
    } else if d < 0 {
        Fraction { num: o - lo, den: -d }
    } else {
        Fraction { num: 1, den: 0 }
    }
}

/// The ray runs along the slab and outside of it.
pub open spec fn slab_missed(o: int, d: int, lo: int, hi: int) -> bool {
    d == 0 && (o < lo || hi < o)
}

/// A fraction in 1/65536ths, rounded down, and zero where it is negative.
pub open spec fn fraction_fixed(a: Fraction) -> int {
    if a.num <= 0 || a.den <= 0 {
        0
    } else {
        a.num * 65536 / a.den
    }
}

pub open spec fn max2(a: int, b: int) -> int {
    if a >= b {
        a
    } else {
        b
    }
}

/// What the slab test knows of a ray and a box: per axis whether the ray
/// misses the slab outright, and the parameters at which it enters and
/// leaves it.
pub struct Slabs {
    pub missed: bool,
    pub enter: Seq<Fraction>,
    pub leave: Seq<Fraction>,
}

pub open spec fn slabs(ray: Ray, b: Aabb) -> Slabs {
    let o = v(ray.origin);
    let d = v(ray.direction);
    let lo = v(b.min);
    let hi = v(b.max);
    Slabs {
        missed: slab_missed(o.x, d.x, lo.x, hi.x) || slab_missed(o.y, d.y, lo.y, hi.y)
            || slab_missed(o.z, d.z, lo.z, hi.z),
        enter: seq![
            Fraction { num: 0, den: 1 },
            slab_enter(o.x, d.x, lo.x, hi.x),
            slab_enter(o.y, d.y, lo.y, hi.y),
            slab_enter(o.z, d.z, lo.z, hi.z),
        ],
        leave: seq![
            slab_leave(o.x, d.x, lo.x, hi.x),
            slab_leave(o.y, d.y, lo.y, hi.y),
            slab_leave(o.z, d.z, lo.z, hi.z),
        ],
    }
}

/// The ray passes through the box: it misses no slab, and enters each slab
/// before it leaves any, at or after its origin.
pub open spec fn box_crossed(ray: Ray, b: Aabb) -> bool {
    let s = slabs(ray, b);
    &&& !s.missed
    &&& forall|i: int, j: int| 0 <= i < 4 && 0 <= j < 3 ==> fraction_le(#[trigger] s.enter[i], #[trigger] s.leave[j])
}

/// The ray parameter at which the ray enters the box, in 1/65536ths and
/// rounded down, if it passes through it.
pub open spec fn box_entry(ray: Ray, b: Aabb) -> Option<u32> {
    let s = slabs(ray, b);
    if box_crossed(ray, b) {
        Some(
            sat32(
                max2(
                    max2(fraction_fixed(s.enter[1]), fraction_fixed(s.enter[2])),
                    fraction_fixed(s.enter[3]),
                ),
            ),
        )
    } else {
        None
    }
}

pub open spec fn within(p: Vec3, b: Aabb) -> bool {
    &&& b.min.x <= p.x <= b.max.x
    &&& b.min.y <= p.y <= b.max.y
    &&& b.min.z <= p.z <= b.max.z
}

pub open spec fn triangle_within(tri: Triangle, b: Aabb) -> bool {
    within(tri.v0, b) && within(tri.v1, b) && within(tri.v2, b)
}

/// A weighted mean of three values between `lo` and `hi` lies between them:
/// here scaled by the sum `det` of the weights.
proof fn lemma_mean_between(det: int, un: int, vn: int, a: int, b: int, c: int, lo: int, hi: int)
    requires
        un >= 0,
        vn >= 0,
        un + vn <= det,
        lo <= a <= hi,
        lo <= b <= hi,
        lo <= c <= hi,
    ensures
        det * lo <= (det - un - vn) * a + un * b + vn * c <= det * hi,
{
    let wn = det - un - vn;
    assert(wn * lo <= wn * a <= wn * hi) by (nonlinear_arith)
        requires
            wn >= 0,
            lo <= a <= hi,
    ;
    assert(un * lo <= un * b <= un * hi) by (nonlinear_arith)
        requires
            un >= 0,
            lo <= b <= hi,
    ;
    assert(vn * lo <= vn * c <= vn * hi) by (nonlinear_arith)
        requires
            vn >= 0,
            lo <= c <= hi,
    ;
    assert(wn * lo + un * lo + vn * lo == det * lo) by (nonlinear_arith)
        requires
            wn == det - un - vn,
    ;
    assert(wn * hi + un * hi + vn * hi == det * hi) by (nonlinear_arith)
        requires
            wn == det - un - vn,
    ;
}

/// One coordinate of the meeting point as a mean of the corners: from
/// `det s + tn d == un e1 + vn e2` with `s = o - a`, `e1 = b - a`,
/// `e2 = c - a`.
proof fn lemma_point_is_mean(det: int, un: int, vn: int, tn: int, o: int, d: int, a: int, b: int, c: int)
    requires
        det * (o - a) + tn * d == un * (b - a) + vn * (c - a),
    ensures
        det * o + tn * d == (det - un - vn) * a + un * b + vn * c,
{
    lemma_spread(det, o, -a);
    lemma_spread(un, b, -a);
    lemma_spread(vn, c, -a);
    assert((det - un - vn) * a == det * a - un * a - vn * a) by (nonlinear_arith);
    assert(det * (-a) == -(det * a)) by (nonlinear_arith);
    assert(un * (-a) == -(un * a)) by (nonlinear_arith);
    assert(vn * (-a) == -(vn * a)) by (nonlinear_arith);
}

/// Where a ray meets a triangle, each coordinate of the meeting point,
/// scaled by the determinant, lies between the least and the greatest of
/// the corners' coordinates.
pub proof fn lemma_meeting_in_box(ray: Ray, tri: Triangle, b: Aabb)
    requires
        meets(tri_meeting(ray, tri)),
        triangle_within(tri, b),
    ensures
        ({
            let m = tri_meeting(ray, tri);
            let o = v(ray.origin);
            let d = v(ray.direction);
            &&& m.det * b.min.x <= m.det * o.x + m.tn * d.x <= m.det * b.max.x
            &&& m.det * b.min.y <= m.det * o.y + m.tn * d.y <= m.det * b.max.y
            &&& m.det * b.min.z <= m.det * o.z + m.tn * d.z <= m.det * b.max.z
        }),
{
    let o = v(ray.origin);
    let d = v(ray.direction);
    let s = minus(o, v(tri.v0));
    let e1 = minus(v(tri.v1), v(tri.v0));
    let e2 = minus(v(tri.v2), v(tri.v0));
    let raw = meeting(s, d, e1, e2);
    let m = tri_meeting(ray, tri);
    lemma_meeting_point(s, d, e1, e2);
    if raw.det < 0 {
        assert(m.det * s.x + m.tn * d.x == m.un * e1.x + m.vn * e2.x) by (nonlinear_arith)
            requires
                raw.det * s.x + raw.tn * d.x == raw.un * e1.x + raw.vn * e2.x,
                m == negated(raw),
        ;
        assert(m.det * s.y + m.tn * d.y == m.un * e1.y + m.vn * e2.y) by (nonlinear_arith)
            requires
                raw.det * s.y + raw.tn * d.y == raw.un * e1.y + raw.vn * e2.y,
                m == negated(raw),
        ;
        assert(m.det * s.z + m.tn * d.z == m.un * e1.z + m.vn * e2.z) by (nonlinear_arith)
            requires
                raw.det * s.z + raw.tn * d.z == raw.un * e1.z + raw.vn * e2.z,
                m == negated(raw),
        ;
    }
    lemma_point_is_mean(m.det, m.un, m.vn, m.tn, o.x, d.x, tri.v0.x as int, tri.v1.x as int, tri.v2.x as int);
    lemma_point_is_mean(m.det, m.un, m.vn, m.tn, o.y, d.y, tri.v0.y as int, tri.v1.y as int, tri.v2.y as int);
    lemma_point_is_mean(m.det, m.un, m.vn, m.tn, o.z, d.z, tri.v0.z as int, tri.v1.z as int, tri.v2.z as int);
    lemma_mean_between(m.det, m.un, m.vn, tri.v0.x as int, tri.v1.x as int, tri.v2.x as int, b.min.x as int, b.max.x as int);
    lemma_mean_between(m.det, m.un, m.vn, tri.v0.y as int, tri.v1.y as int, tri.v2.y as int, b.min.y as int, b.max.y as int);
    lemma_mean_between(m.det, m.un, m.vn, tri.v0.z as int, tri.v1.z as int, tri.v2.z as int, b.min.z as int, b.max.z as int);
}

proof fn lemma_diff(det: int, u: int, w: int)
    by (nonlinear_arith)
    ensures
        (u - w) * det == det * u - det * w,
{
}

proof fn lemma_axis(det: int, tn: int, o: int, d: int, lo: int, hi: int)
    requires
        det > 0,
        tn > 0,
        det * lo <= det * o + tn * d <= det * hi,
    ensures
        !slab_missed(o, d, lo, hi),
        slab_enter(o, d, lo, hi).den > 0,
        slab_leave(o, d, lo, hi).den >= 0,
        fraction_le(slab_enter(o, d, lo, hi), Fraction { num: tn, den: det }),
        fraction_le(Fraction { num: tn, den: det }, slab_leave(o, d, lo, hi)),
{
    lemma_diff(det, lo, o);
    lemma_diff(det, o, hi);
    lemma_diff(det, hi, o);
    lemma_diff(det, o, lo);
    assert(tn * (-d) == -(tn * d)) by (nonlinear_arith);
    assert(0 * det == 0 && tn * 1 == tn && tn * 0 == 0 && 1 * det == det) by (nonlinear_arith);
    if d == 0 {
        assert(tn * d == 0);
        assert(lo <= o <= hi) by (nonlinear_arith)
            requires
                det > 0,
                det * lo <= det * o <= det * hi,
        ;
    }
}

proof fn lemma_fraction_chain(a: Fraction, t: Fraction, c: Fraction)
    requires
        a.den > 0,
        t.den > 0,
        c.den >= 0,
        fraction_le(a, t),
        fraction_le(t, c),
    ensures
        fraction_le(a, c),
{
    let x = a.num * t.den;
    let y = t.num * a.den;
    assert(x * c.den <= y * c.den) by (nonlinear_arith)
        requires
            x <= y,
            c.den >= 0,
    ;
    let p = t.num * c.den;
    let q = c.num * t.den;
    assert(p * a.den <= q * a.den) by (nonlinear_arith)
        requires
            p <= q,
            a.den > 0,
    ;
    assert(x * c.den == (a.num * c.den) * t.den) by (nonlinear_arith)
        requires
            x == a.num * t.den,
    ;
    assert(y * c.den == p * a.den) by (nonlinear_arith)
        requires
            y == t.num * a.den,
            p == t.num * c.den,
    ;
    assert(q * a.den == (c.num * a.den) * t.den) by (nonlinear_arith)
        requires
            q == c.num * t.den,
    ;
    let l = a.num * c.den;
    let r = c.num * a.den;
    assert(l <= r) by (nonlinear_arith)
        requires
            l * t.den <= r * t.den,
            t.den > 0,
    ;
}

/// Rounding down keeps the order of two fractions.
proof fn lemma_fixed_monotone(a: Fraction, t: Fraction)
    requires
        a.den > 0,
        t.den > 0,
        t.num >= 0,
        fraction_le(a, t),
    ensures
        fraction_fixed(a) <= t.num * 65536 / t.den,
{
    assert(t.num * 65536 / t.den >= 0) by (nonlinear_arith)
        requires
            t.num >= 0,
            t.den > 0,
    ;
    if a.num > 0 {
        let qa = a.num * 65536 / a.den;
        let qt = t.num * 65536 / t.den;
        assert(qa * a.den <= a.num * 65536) by (nonlinear_arith)
            requires
                qa == a.num * 65536 / a.den,
                a.den > 0,
        ;
        assert(t.num * 65536 < (qt + 1) * t.den) by (nonlinear_arith)
            requires
                qt == t.num * 65536 / t.den,
                t.den > 0,
        ;
        // qa * a.den * t.den <= a.num * t.den * 65536 <= t.num * a.den * 65536
        //   < (qt + 1) * t.den * a.den
        let ad = a.den * t.den;
        assert(ad > 0) by (nonlinear_arith)
            requires
                ad == a.den * t.den,
                a.den > 0,
                t.den > 0,
        ;
        assert(qa * ad <= (a.num * t.den) * 65536) by (nonlinear_arith)
            requires
                qa * a.den <= a.num * 65536,
                t.den > 0,
                ad == a.den * t.den,
        ;
        assert((t.num * a.den) * 65536 < (qt + 1) * ad) by (nonlinear_arith)
            requires
                t.num * 65536 < (qt + 1) * t.den,
                a.den > 0,
                ad == a.den * t.den,
        ;
        assert(qa < qt + 1) by (nonlinear_arith)
            requires
                qa * ad < (qt + 1) * ad,
                ad > 0,
        ;
    }
}

/// A box that holds a triangle is entered by every ray that hits the
/// triangle, and no later than the ray reaches the triangle.
pub proof fn lemma_box_before_triangle(ray: Ray, tri: Triangle, b: Aabb)
    requires
        triangle_distance(ray, tri) is Some,
        triangle_within(tri, b),
    ensures
        box_entry(ray, b) is Some,
        box_entry(ray, b).unwrap() <= triangle_distance(ray, tri).unwrap(),
{
    let m = tri_meeting(ray, tri);
    let o = v(ray.origin);
    let d = v(ray.direction);
    let t = Fraction { num: m.tn, den: m.det };
    let s = slabs(ray, b);
    lemma_meeting_in_box(ray, tri, b);
    lemma_axis(m.det, m.tn, o.x, d.x, b.min.x as int, b.max.x as int);
    lemma_axis(m.det, m.tn, o.y, d.y, b.min.y as int, b.max.y as int);
    lemma_axis(m.det, m.tn, o.z, d.z, b.min.z as int, b.max.z as int);
    assert(s.enter[0] == Fraction { num: 0, den: 1 });
    assert(s.enter[1] == slab_enter(o.x, d.x, b.min.x as int, b.max.x as int));
    assert(s.enter[2] == slab_enter(o.y, d.y, b.min.y as int, b.max.y as int));
    assert(s.enter[3] == slab_enter(o.z, d.z, b.min.z as int, b.max.z as int));
    assert(s.leave[0] == slab_leave(o.x, d.x, b.min.x as int, b.max.x as int));
    assert(s.leave[1] == slab_leave(o.y, d.y, b.min.y as int, b.max.y as int));
    assert(s.leave[2] == slab_leave(o.z, d.z, b.min.z as int, b.max.z as int));
    assert(0 * m.det == 0 && m.tn * 1 == m.tn) by (nonlinear_arith);
    assert(fraction_le(s.enter[0], t));
    assert forall|i: int, j: int| 0 <= i < 4 && 0 <= j < 3 implies fraction_le(
        #[trigger] s.enter[i],
        #[trigger] s.leave[j],
    ) by {
        assert(fraction_le(s.enter[i], t));
        assert(fraction_le(t, s.leave[j]));
        lemma_fraction_chain(s.enter[i], t, s.leave[j]);
    }
    lemma_fixed_monotone(s.enter[1], t);
    lemma_fixed_monotone(s.enter[2], t);
    lemma_fixed_monotone(s.enter[3], t);
}

/// One axis of the slab test, in machine integers.
struct Slab {
    missed: bool,
    enter_num: i64,
    enter_den: i64,
    leave_num: i64,
    leave_den: i64,
}

impl Slab {
    spec fn enter(self) -> Fraction {
        Fraction { num: self.enter_num as int, den: self.enter_den as int }
    }

    spec fn leave(self) -> Fraction {
        Fraction { num: self.leave_num as int, den: self.leave_den as int }
    }

    spec fn small(self) -> bool {
        &&& -65535 <= self.enter_num <= 65535
        &&& -65535 <= self.leave_num <= 65535
        &&& 0 < self.enter_den <= 32768
        &&& 0 <= self.leave_den <= 32768
    }
}

fn slab(o: i16, d: i16, lo: i16, hi: i16) -> (s: Slab)
    ensures
        s.small(),
        s.missed == slab_missed(o as int, d as int, lo as int, hi as int),
        s.enter() == slab_enter(o as int, d as int, lo as int, hi as int),
        s.leave() == slab_leave(o as int, d as int, lo as int, hi as int),
{
    let o = o as i64;
    let d = d as i64;
    let lo = lo as i64;
    let hi = hi as i64;
    if d > 0 {
        Slab { missed: false, enter_num: lo - o, enter_den: d, leave_num: hi - o, leave_den: d }
    } else if d < 0 {
        Slab { missed: false, enter_num: o - hi, enter_den: -d, leave_num: o - lo, leave_den: -d }
    } else {
        Slab { missed: o < lo || hi < o, enter_num: 0, enter_den: 1, leave_num: 1, leave_den: 0 }
    }
}

fn enters_before(e: &Slab, l: &Slab) -> (b: bool)
    requires
        e.small(),
        l.small(),
    ensures
        b == fraction_le(e.enter(), l.leave()),
{
    mul_i64(e.enter_num, l.leave_den, Ghost(65535), Ghost(32768)) <= mul_i64(
        l.leave_num,
        e.enter_den,
        Ghost(65535),
        Ghost(32768),
    )
}

fn leaves_ahead(l: &Slab) -> (b: bool)
    requires
        l.small(),
    ensures
        b == fraction_le(Fraction { num: 0, den: 1 }, l.leave()),
{
    proof {
        assert(0 * l.leave_den == 0 && l.leave_num * 1 == l.leave_num) by (nonlinear_arith);
    }
    0 <= l.leave_num
}

fn enter_fixed(e: &Slab) -> (f: i64)
    requires
        e.small(),
    ensures
        f == fraction_fixed(e.enter()),
        0 <= f <= 65535 * 65536,
{
    if e.enter_num <= 0 {
        0
    } else {
        let f = e.enter_num * 65536 / e.enter_den;
        assert(0 <= f <= 65535 * 65536) by (nonlinear_arith)
            requires
                f == e.enter_num * 65536 / (e.enter_den as int),
                0 < e.enter_num <= 65535,
                0 < e.enter_den,
        ;
        f
    }
}

impl Aabb {
    /// The ray parameter at which `ray` enters this box, if it passes
    /// through it; see [`box_entry`].
    pub fn entry(&self, ray: &Ray) -> (e: Option<u32>)
        ensures
            e == box_entry(*ray, *self),
    {
        let sx = slab(ray.origin.x, ray.direction.x, self.min.x, self.max.x);
        let sy = slab(ray.origin.y, ray.direction.y, self.min.y, self.max.y);
        let sz = slab(ray.origin.z, ray.direction.z, self.min.z, self.max.z);
        let ghost s = slabs(*ray, *self);
        proof {
            assert(s.enter[0] == Fraction { num: 0, den: 1 });
            assert(s.enter[1] == sx.enter());
            assert(s.enter[2] == sy.enter());
            assert(s.enter[3] == sz.enter());
            assert(s.leave[0] == sx.leave());
            assert(s.leave[1] == sy.leave());
            assert(s.leave[2] == sz.leave());
        }
        if sx.missed || sy.missed || sz.missed {
            return None;
        }
        let ahead = leaves_ahead(&sx) && leaves_ahead(&sy) && leaves_ahead(&sz);
        let x_in = enters_before(&sx, &sx) && enters_before(&sx, &sy) && enters_before(&sx, &sz);
        let y_in = enters_before(&sy, &sx) && enters_before(&sy, &sy) && enters_before(&sy, &sz);
        let z_in = enters_before(&sz, &sx) && enters_before(&sz, &sy) && enters_before(&sz, &sz);
        if !(ahead && x_in && y_in && z_in) {
            proof {
                if !ahead {
                    assert(!fraction_le(s.enter[0], s.leave[0]) || !fraction_le(
                        s.enter[0],
                        s.leave[1],
                    ) || !fraction_le(s.enter[0], s.leave[2]));
                } else if !x_in {
                    assert(!fraction_le(s.enter[1], s.leave[0]) || !fraction_le(
                        s.enter[1],
                        s.leave[1],
                    ) || !fraction_le(s.enter[1], s.leave[2]));
                } else if !y_in {
                    assert(!fraction_le(s.enter[2], s.leave[0]) || !fraction_le(
                        s.enter[2],
                        s.leave[1],
                    ) || !fraction_le(s.enter[2], s.leave[2]));
                } else {
                    assert(!fraction_le(s.enter[3], s.leave[0]) || !fraction_le(
                        s.enter[3],
                        s.leave[1],
                    ) || !fraction_le(s.enter[3], s.leave[2]));
                }
            }
            return None;
        }
        let fx = enter_fixed(&sx);
        let fy = enter_fixed(&sy);
        let fz = enter_fixed(&sz);
        let fxy = if fx >= fy {
            fx
        } else {
            fy
        };
        let f = if fxy >= fz {
            fxy
        } else {
            fz
        };
        if f > u32::MAX as i64 {
            Some(u32::MAX)
        } else {
            Some(f as u32)
        }
    }
}

/// One coordinate of the point at which a ray meets a triangle, rounded
/// down to the grid.
pub open spec fn meeting_coordinate(m: Meeting, o: int, d: int) -> int {
    o + m.tn * d / m.det
}

/// The mean of three values under the weights of a meeting, rounded down.
pub open spec fn meeting_mean(m: Meeting, a: int, b: int, c: int) -> int {
    ((m.det - m.un - m.vn) * a + m.un * b + m.vn * c) / m.det
}

/// The normal at the meeting point: the mean of the corners' normals,
/// brought to a length of about 4096, and turned round where it points
/// along the ray, so that it faces the side that the ray comes from.
pub open spec fn meeting_normal(ray: Ray, tri: Triangle, m: Meeting) -> Vec3 {
    let n = unit(
        V {
            x: meeting_mean(m, tri.n0.x as int, tri.n1.x as int, tri.n2.x as int),
            y: meeting_mean(m, tri.n0.y as int, tri.n1.y as int, tri.n2.y as int),
            z: meeting_mean(m, tri.n0.z as int, tri.n1.z as int, tri.n2.z as int),
        },
    );
    if dot(n, v(ray.direction)) > 0 {
        Vec3 { x: (-n.x) as i16, y: (-n.y) as i16, z: (-n.z) as i16 }
    } else {
        Vec3 { x: n.x as i16, y: n.y as i16, z: n.z as i16 }
    }
}

/// The record of the hit of a ray on a triangle; the record of no hit where
/// the ray does not hit it.
pub open spec fn triangle_hit(ray: Ray, tri: Triangle) -> Hit {
    let m = tri_meeting(ray, tri);
    match triangle_distance(ray, tri) {
        None => Hit::spec_none(),
        Some(distance) => Hit {
            point: Vec3 {
                x: meeting_coordinate(m, ray.origin.x as int, ray.direction.x as int) as i16,
                y: meeting_coordinate(m, ray.origin.y as int, ray.direction.y as int) as i16,
                z: meeting_coordinate(m, ray.origin.z as int, ray.direction.z as int) as i16,
            },
            normal: meeting_normal(ray, tri, m),
            material_id: tri.material_id,
            distance,
        },
    }
}

/// The determinants of a meeting in machine integers.
struct Meet {
    det: i64,
    un: i64,
    vn: i64,
    tn: i64,
}

impl Meet {
    spec fn view(self) -> Meeting {
        Meeting { det: self.det as int, un: self.un as int, vn: self.vn as int, tn: self.tn as int }
    }

    spec fn small(self) -> bool {
        &&& -0x4_0000_0000_0000 <= self.det <= 0x4_0000_0000_0000
        &&& -0x4_0000_0000_0000 <= self.un <= 0x4_0000_0000_0000
        &&& -0x4_0000_0000_0000 <= self.vn <= 0x4_0000_0000_0000
        &&& -0x8_0000_0000_0000 <= self.tn <= 0x8_0000_0000_0000
    }
}

fn meet(ray: &Ray, tri: &Triangle) -> (m: Meet)
    ensures
        m.view() == tri_meeting(*ray, *tri),
        m.small(),
{
    let sx = ray.origin.x as i64 - tri.v0.x as i64;
    let sy = ray.origin.y as i64 - tri.v0.y as i64;
    let sz = ray.origin.z as i64 - tri.v0.z as i64;
    let dx = ray.direction.x as i64;
    let dy = ray.direction.y as i64;
    let dz = ray.direction.z as i64;
    let e1x = tri.v1.x as i64 - tri.v0.x as i64;
    let e1y = tri.v1.y as i64 - tri.v0.y as i64;
    let e1z = tri.v1.z as i64 - tri.v0.z as i64;
    let e2x = tri.v2.x as i64 - tri.v0.x as i64;
    let e2y = tri.v2.y as i64 - tri.v0.y as i64;
    let e2z = tri.v2.z as i64 - tri.v0.z as i64;
    let ghost c = 32768int;
    let ghost e = 65535int;
    // p = d x e2
    let px = mul_i64(dy, e2z, Ghost(c), Ghost(e)) - mul_i64(dz, e2y, Ghost(c), Ghost(e));
    let py = mul_i64(dz, e2x, Ghost(c), Ghost(e)) - mul_i64(dx, e2z, Ghost(c), Ghost(e));
    let pz = mul_i64(dx, e2y, Ghost(c), Ghost(e)) - mul_i64(dy, e2x, Ghost(c), Ghost(e));
    // q = s x e1
    let qx = mul_i64(sy, e1z, Ghost(e), Ghost(e)) - mul_i64(sz, e1y, Ghost(e), Ghost(e));
    let qy = mul_i64(sz, e1x, Ghost(e), Ghost(e)) - mul_i64(sx, e1z, Ghost(e), Ghost(e));
    let qz = mul_i64(sx, e1y, Ghost(e), Ghost(e)) - mul_i64(sy, e1x, Ghost(e), Ghost(e));
    let ghost pb = 0x1_0000_0000int;
    let ghost qb = 0x2_0000_0000int;
    let det = mul_i64(e1x, px, Ghost(e), Ghost(pb)) + mul_i64(e1y, py, Ghost(e), Ghost(pb))
        + mul_i64(e1z, pz, Ghost(e), Ghost(pb));
    let un = mul_i64(sx, px, Ghost(e), Ghost(pb)) + mul_i64(sy, py, Ghost(e), Ghost(pb)) + mul_i64(
        sz,
        pz,
        Ghost(e),
        Ghost(pb),
    );
    let vn = mul_i64(dx, qx, Ghost(c), Ghost(qb)) + mul_i64(dy, qy, Ghost(c), Ghost(qb)) + mul_i64(
        dz,
        qz,
        Ghost(c),
        Ghost(qb),
    );
    let tn = mul_i64(e2x, qx, Ghost(e), Ghost(qb)) + mul_i64(e2y, qy, Ghost(e), Ghost(qb))
        + mul_i64(e2z, qz, Ghost(e), Ghost(qb));
    if det < 0 {
        Meet { det: -det, un: -un, vn: -vn, tn: -tn }
    } else {
        Meet { det, un, vn, tn }
    }
}

proof fn lemma_div_between(x: int, d: int, lo: int, hi: int)
    requires
        d > 0,
        d * lo <= x <= d * hi,
    ensures
        lo <= x / d <= hi,
{
    vstd::arithmetic::div_mod::lemma_fundamental_div_mod(x, d);
    let q = x / d;
    let r = x % d;
    assert(0 <= r < d) by {
        vstd::arithmetic::div_mod::lemma_mod_bound(x, d);
    }
    assert(lo <= q) by (nonlinear_arith)
        requires
            d > 0,
            d * lo <= d * q + r,
            r < d,
    ;
    assert(q <= hi) by (nonlinear_arith)
        requires
            d > 0,
            d * q + r <= d * hi,
            0 <= r,
    ;
}

fn point_coordinate(m: &Meet, o: i16, d: i16) -> (c: i16)
    requires
        m.small(),
        m.det > 0,
        m.det * (-32768) <= m.det * o + m.tn * d <= m.det * 32767,
    ensures
        c == meeting_coordinate(m.view(), o as int, d as int),
{
    let n = mul_i128(m.tn as i128, d as i128, Ghost(0x8_0000_0000_0000), Ghost(32768));
    let q = floor_div(n, m.det as i128);
    proof {
        let det = m.det as int;
        vstd::arithmetic::div_mod::lemma_hoist_over_denominator(n as int, o as int, det as nat);
        assert(o * det == det * o) by (nonlinear_arith);
        lemma_div_between(n + o * det, det, -32768, 32767);
    }
    (o as i128 + q) as i16
}

fn corner_mean(m: &Meet, a: i16, b: i16, c: i16) -> (r: i16)
    requires
        m.small(),
        meets(m.view()),
    ensures
        r == meeting_mean(m.view(), a as int, b as int, c as int),
{
    let wn = m.det - m.un - m.vn;
    let ghost bound = 0x4_0000_0000_0000int;
    let sum = mul_i128(wn as i128, a as i128, Ghost(bound), Ghost(32768)) + mul_i128(
        m.un as i128,
        b as i128,
        Ghost(bound),
        Ghost(32768),
    ) + mul_i128(m.vn as i128, c as i128, Ghost(bound), Ghost(32768));
    proof {
        lemma_mean_between(
            m.det as int,
            m.un as int,
            m.vn as int,
            a as int,
            b as int,
            c as int,
            -32768,
            32767,
        );
        lemma_div_between(sum as int, m.det as int, -32768, 32767);
    }
    floor_div(sum, m.det as i128) as i16
}

impl Triangle {
    /// The record of the hit of `ray` on this triangle; see [`triangle_hit`].
    pub fn hit(&self, ray: &Ray) -> (h: Hit)
        ensures
            h == triangle_hit(*ray, *self),
    {
        let m = meet(ray, self);
        if !(m.det > 0 && m.un >= 0 && m.vn >= 0 && m.un + m.vn <= m.det && m.tn > 0) {
            return Hit::none();
        }
        let scaled = m.tn as i128 * 65536 / (m.det as i128);
        let distance: u32 = if scaled > u32::MAX as i128 {
            u32::MAX
        } else {
            scaled as u32
        };
        if distance == 0 {
            return Hit::none();
        }
        proof {
            lemma_meeting_in_box(
                *ray,
                *self,
                Aabb {
                    min: Vec3 { x: i16::MIN, y: i16::MIN, z: i16::MIN },
                    max: Vec3 { x: i16::MAX, y: i16::MAX, z: i16::MAX },
                },
            );
        }
        let point = Vec3 {
            x: point_coordinate(&m, ray.origin.x, ray.direction.x),
            y: point_coordinate(&m, ray.origin.y, ray.direction.y),
            z: point_coordinate(&m, ray.origin.z, ray.direction.z),
        };
        let n = unit_of(
            corner_mean(&m, self.n0.x, self.n1.x, self.n2.x) as i64,
            corner_mean(&m, self.n0.y, self.n1.y, self.n2.y) as i64,
            corner_mean(&m, self.n0.z, self.n1.z, self.n2.z) as i64,
        );
        let along = mul_i64(n.0, ray.direction.x as i64, Ghost(4096), Ghost(32768)) + mul_i64(
            n.1,
            ray.direction.y as i64,
            Ghost(4096),
            Ghost(32768),
        ) + mul_i64(n.2, ray.direction.z as i64, Ghost(4096), Ghost(32768));
        let normal = if along > 0 {
            Vec3 { x: (-n.0) as i16, y: (-n.1) as i16, z: (-n.2) as i16 }
        } else {
            Vec3 { x: n.0 as i16, y: n.1 as i16, z: n.2 as i16 }
        };
        Hit { point, normal, material_id: self.material_id, distance }
    }
}

/// The normal of a hit faces the side that the ray came from, and none of
/// its coordinates is more than 4096 in size.
pub proof fn lemma_hit_faces_ray(ray: Ray, tri: Triangle)
    requires
        triangle_distance(ray, tri) is Some,
    ensures
        dot(v(triangle_hit(ray, tri).normal), v(ray.direction)) <= 0,
        -4096 <= triangle_hit(ray, tri).normal.x <= 4096,
        -4096 <= triangle_hit(ray, tri).normal.y <= 4096,
        -4096 <= triangle_hit(ray, tri).normal.z <= 4096,
{
    let m = tri_meeting(ray, tri);
    let d = v(ray.direction);
    let n = unit(
        V {
            x: meeting_mean(m, tri.n0.x as int, tri.n1.x as int, tri.n2.x as int),
            y: meeting_mean(m, tri.n0.y as int, tri.n1.y as int, tri.n2.y as int),
            z: meeting_mean(m, tri.n0.z as int, tri.n1.z as int, tri.n2.z as int),
        },
    );
    lemma_unit_small(
        V {
            x: meeting_mean(m, tri.n0.x as int, tri.n1.x as int, tri.n2.x as int),
            y: meeting_mean(m, tri.n0.y as int, tri.n1.y as int, tri.n2.y as int),
            z: meeting_mean(m, tri.n0.z as int, tri.n1.z as int, tri.n2.z as int),
        },
    );
    assert((-n.x) * d.x + (-n.y) * d.y + (-n.z) * d.z == -(n.x * d.x + n.y * d.y + n.z * d.z))
        by (nonlinear_arith);
}

/// The point of a hit lies in every box that holds the triangle that was
/// hit.
pub proof fn lemma_hit_point_within(ray: Ray, tri: Triangle, b: Aabb)
    requires
        triangle_distance(ray, tri) is Some,
        triangle_within(tri, b),
    ensures
        within(triangle_hit(ray, tri).point, b),
{
    let m = tri_meeting(ray, tri);
    let o = v(ray.origin);
    let d = v(ray.direction);
    lemma_meeting_in_box(ray, tri, b);
    lemma_coordinate_between(m, o.x, d.x, b.min.x as int, b.max.x as int);
    lemma_coordinate_between(m, o.y, d.y, b.min.y as int, b.max.y as int);
    lemma_coordinate_between(m, o.z, d.z, b.min.z as int, b.max.z as int);
}

proof fn lemma_coordinate_between(m: Meeting, o: int, d: int, lo: int, hi: int)
    requires
        m.det > 0,
        m.det * lo <= m.det * o + m.tn * d <= m.det * hi,
    ensures
        lo <= meeting_coordinate(m, o, d) <= hi,
{
    vstd::arithmetic::div_mod::lemma_hoist_over_denominator(m.tn * d, o, m.det as nat);
    assert(o * m.det == m.det * o) by (nonlinear_arith);
    lemma_div_between(m.tn * d + o * m.det, m.det, lo, hi);
}

} // verus!
