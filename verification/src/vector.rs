use vstd::prelude::*;
use crate::math::{isqrt, lemma_sqrt_exists, mul_i64, spec_isqrt, Vec3};

verus! {

/// A vector of unbounded integers, for stating what the bounded arithmetic
/// computes.
pub struct V {
    pub x: int,
    pub y: int,
    pub z: int,
}

pub open spec fn v(a: Vec3) -> V {
    V { x: a.x as int, y: a.y as int, z: a.z as int }
}

pub open spec fn minus(a: V, b: V) -> V {
    V { x: a.x - b.x, y: a.y - b.y, z: a.z - b.z }
}

pub open spec fn dot(a: V, b: V) -> int {
    a.x * b.x + a.y * b.y + a.z * b.z
}

pub open spec fn cross(a: V, b: V) -> V {
    V { x: a.y * b.z - a.z * b.y, y: a.z * b.x - a.x * b.z, z: a.x * b.y - a.y * b.x }
}

/// `x * 4096 / length`, rounded towards zero; zero where the length is.
pub open spec fn stretched(x: int, length: int) -> int {
    if length <= 0 {
        0
    } else if x >= 0 {
        x * 4096 / length
    } else {
        -((-x) * 4096 / length)
    }
}

/// The length of a vector, rounded down.
pub open spec fn norm(a: V) -> int {
    spec_isqrt(dot(a, a))
}

/// The vector brought to a length of about 4096.
pub open spec fn unit(a: V) -> V {
    V { x: stretched(a.x, norm(a)), y: stretched(a.y, norm(a)), z: stretched(a.z, norm(a)) }
}

proof fn lemma_coordinate_below_norm(x: int, rest: int, l: int)
    by (nonlinear_arith)
    requires
        0 <= rest,
        0 <= l,
        x * x + rest < (l + 1) * (l + 1),
    ensures
        -l <= x <= l,
{
}

fn stretch(x: i64, l: i64) -> (r: i64)
    requires
        0 <= l <= 0x1_0000,
        -l <= x <= l,
    ensures
        r == stretched(x as int, l as int),
        -4096 <= r <= 4096,
{
    if l == 0 {
        0
    } else if x >= 0 {
        let r = x * 4096 / l;
        assert(0 <= r <= 4096) by (nonlinear_arith)
            requires
                r == x * 4096 / (l as int),
                0 <= x <= l,
                l > 0,
        ;
        r
    } else {
        let r = (-x) * 4096 / l;
        assert(0 <= r <= 4096) by (nonlinear_arith)
            requires
                r == (-x) * 4096 / (l as int),
                0 <= -x <= l,
                l > 0,
        ;
        -r
    }
}

pub(crate) fn unit_of(x: i64, y: i64, z: i64) -> (r: (i64, i64, i64))
    requires
        -32768 <= x <= 32768,
        -32768 <= y <= 32768,
        -32768 <= z <= 32768,
    ensures
        (V { x: r.0 as int, y: r.1 as int, z: r.2 as int }) == unit(
            V { x: x as int, y: y as int, z: z as int },
        ),
        -4096 <= r.0 <= 4096,
        -4096 <= r.1 <= 4096,
        -4096 <= r.2 <= 4096,
{
    let xx = mul_i64(x, x, Ghost(32768), Ghost(32768));
    let yy = mul_i64(y, y, Ghost(32768), Ghost(32768));
    let zz = mul_i64(z, z, Ghost(32768), Ghost(32768));
    proof {
        assert(xx >= 0 && yy >= 0 && zz >= 0) by (nonlinear_arith)
            requires
                xx == x * x,
                yy == y * y,
                zz == z * z,
        ;
    }
    let l = isqrt((xx + yy + zz) as u64) as i64;
    proof {
        lemma_coordinate_below_norm(x as int, yy + zz, l as int);
        lemma_coordinate_below_norm(y as int, xx + zz, l as int);
        lemma_coordinate_below_norm(z as int, xx + yy, l as int);
        assert(l <= 0x1_0000) by (nonlinear_arith)
            requires
                l * l <= xx + yy + zz,
                xx + yy + zz <= 3 * 32768 * 32768,
                0 <= l,
        ;
    }
    (stretch(x, l), stretch(y, l), stretch(z, l))
}

/// The coordinates of a unit vector are at most 4096 in size.
pub proof fn lemma_unit_small(a: V)
    ensures
        -4096 <= unit(a).x <= 4096,
        -4096 <= unit(a).y <= 4096,
        -4096 <= unit(a).z <= 4096,
{
    let l = norm(a);
    let q = dot(a, a);
    assert(q >= 0) by (nonlinear_arith)
        requires
            q == a.x * a.x + a.y * a.y + a.z * a.z,
    ;
    lemma_sqrt_exists(q);
    if l > 0 {
        assert(a.x * a.x >= 0 && a.y * a.y >= 0 && a.z * a.z >= 0) by (nonlinear_arith);
        lemma_coordinate_below_norm(a.x, a.y * a.y + a.z * a.z, l);
        lemma_coordinate_below_norm(a.y, a.x * a.x + a.z * a.z, l);
        lemma_coordinate_below_norm(a.z, a.x * a.x + a.y * a.y, l);
        lemma_stretched_small(a.x, l);
        lemma_stretched_small(a.y, l);
        lemma_stretched_small(a.z, l);
    }
}

proof fn lemma_stretched_small(x: int, l: int)
    requires
        l > 0,
        -l <= x <= l,
    ensures
        -4096 <= stretched(x, l) <= 4096,
{
    if x >= 0 {
        assert(0 <= x * 4096 / l <= 4096) by (nonlinear_arith)
            requires
                0 <= x <= l,
                l > 0,
        ;
    } else {
        assert(0 <= (-x) * 4096 / l <= 4096) by (nonlinear_arith)
            requires
                0 <= -x <= l,
                l > 0,
        ;
    }
}

/// The vector brought to a length of about 4096, on the grid.
pub open spec fn spec_normalized(a: Vec3) -> Vec3 {
    let u = unit(v(a));
    Vec3 { x: u.x as i16, y: u.y as i16, z: u.z as i16 }
}

/// See [`unit`]; a vector without length stays as it is.
#[verifier::when_used_as_spec(spec_normalized)]
pub fn normalized(a: Vec3) -> (r: Vec3)
    ensures
        r == spec_normalized(a),
        v(r) == unit(v(a)),
{
    let u = unit_of(a.x as i64, a.y as i64, a.z as i64);
    Vec3 { x: u.0 as i16, y: u.1 as i16, z: u.2 as i16 }
}

} // verus!
