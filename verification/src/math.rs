use vstd::prelude::*;

verus! {

/// A point or direction on the 16-bit world grid.
#[derive(Clone, Copy, Debug, PartialEq, Eq, Structural)]
pub struct Vec3 {
    pub x: i16,
    pub y: i16,
    pub z: i16,
}

/// A pixel position or an extent in pixels.
#[derive(Clone, Copy, Debug, PartialEq, Eq, Structural)]
pub struct UVec2 {
    pub x: u32,
    pub y: u32,
}

/// Four 32-bit words, the unit in which per-pixel records are stored.
#[derive(Clone, Copy, Debug, PartialEq, Eq, Structural)]
pub struct Vec4 {
    pub x: u32,
    pub y: u32,
    pub z: u32,
    pub w: u32,
}

impl Vec3 {
    pub fn new(x: i16, y: i16, z: i16) -> (v: Vec3)
        ensures
            v == (Vec3 { x, y, z }),
    {
        Vec3 { x, y, z }
    }

    pub fn zero() -> (v: Vec3)
        ensures
            v == (Vec3 { x: 0, y: 0, z: 0 }),
    {
        Vec3 { x: 0, y: 0, z: 0 }
    }
}

impl UVec2 {
    pub fn new(x: u32, y: u32) -> (v: UVec2)
        ensures
            v == (UVec2 { x, y }),
    {
        UVec2 { x, y }
    }
}

impl Vec4 {
    pub fn new(x: u32, y: u32, z: u32, w: u32) -> (v: Vec4)
        ensures
            v == (Vec4 { x, y, z, w }),
    {
        Vec4 { x, y, z, w }
    }
}

/// The raw value of 1 in the fixed-point format of the weights, densities
/// and radiances: 16 fractional bits.
pub const ONE: u64 = 65536;

/// `v` cut off at the largest 64-bit value.
pub open spec fn sat64(v: int) -> u64 {
    if v > u64::MAX {
        u64::MAX
    } else if v < 0 {
        0
    } else {
        v as u64
    }
}

/// `v` cut off at the largest 32-bit value.
pub open spec fn sat32(v: int) -> u32 {
    if v > u32::MAX {
        u32::MAX
    } else if v < 0 {
        0
    } else {
        v as u32
    }
}

pub proof fn lemma_product_fits(a: int, b: int, a_max: int, b_max: int)
    by (nonlinear_arith)
    requires
        0 <= a <= a_max,
        0 <= b <= b_max,
    ensures
        0 <= a * b <= a_max * b_max,
{
}

/// The quotient `n / d`, rounded down and cut off at the largest 64-bit
/// value.
pub fn sat_div(n: u128, d: u128) -> (q: u64)
    requires
        d > 0,
    ensures
        q == sat64(n as int / d as int),
{
    let q = n / d;
    if q > u64::MAX as u128 {
        u64::MAX
    } else {
        q as u64
    }
}

/// `a * b / c`, rounded down and cut off at the largest 64-bit value; the
/// product is not rounded.
pub fn mul_div(a: u64, b: u64, c: u64) -> (q: u64)
    requires
        c > 0,
    ensures
        q == sat64(a as int * b as int / c as int),
{
    proof {
        lemma_product_fits(
            a as int,
            b as int,
            0xffff_ffff_ffff_ffff,
            0xffff_ffff_ffff_ffff,
        );
    }
    sat_div(a as u128 * b as u128, c as u128)
}

/// `a * b`, cut off at the largest 64-bit value.
pub fn sat_mul(a: u64, b: u64) -> (p: u64)
    ensures
        p == sat64(a as int * b as int),
{
    proof {
        lemma_product_fits(
            a as int,
            b as int,
            0xffff_ffff_ffff_ffff,
            0xffff_ffff_ffff_ffff,
        );
    }
    let wide = a as u128 * b as u128;
    if wide > u64::MAX as u128 {
        u64::MAX
    } else {
        wide as u64
    }
}

/// Light carried along a ray, per colour channel, in 1/65536ths.
#[derive(Clone, Copy, Debug, PartialEq, Eq, Structural)]
pub struct Radiance {
    pub r: u32,
    pub g: u32,
    pub b: u32,
}

/// One channel of radiance times a weight, both in 1/65536ths.
pub open spec fn channel_scaled(c: u32, weight: u64) -> u32 {
    sat32(c as int * weight as int / 65536)
}

impl Radiance {
    pub open spec fn spec_zero() -> Radiance {
        Radiance { r: 0, g: 0, b: 0 }
    }

    #[verifier::when_used_as_spec(spec_zero)]
    pub fn zero() -> (r: Radiance)
        ensures
            r == Radiance::spec_zero(),
    {
        Radiance { r: 0, g: 0, b: 0 }
    }

    pub open spec fn spec_scaled(self, weight: u64) -> Radiance {
        Radiance {
            r: channel_scaled(self.r, weight),
            g: channel_scaled(self.g, weight),
            b: channel_scaled(self.b, weight),
        }
    }

    /// This radiance times `weight`, each channel rounded down and cut off
    /// at the largest value.
    #[verifier::when_used_as_spec(spec_scaled)]
    pub fn scaled(self, weight: u64) -> (r: Radiance)
        ensures
            r == self.spec_scaled(weight),
    {
        Radiance {
            r: scale_channel(self.r, weight),
            g: scale_channel(self.g, weight),
            b: scale_channel(self.b, weight),
        }
    }

    /// The brightness of this radiance: the mean of its channels.
    pub open spec fn spec_luminance(self) -> u64 {
        ((self.r + self.g + self.b) / 3) as u64
    }

    #[verifier::when_used_as_spec(spec_luminance)]
    pub fn luminance(self) -> (l: u64)
        ensures
            l == self.spec_luminance(),
    {
        (self.r as u64 + self.g as u64 + self.b as u64) / 3
    }
}

fn scale_channel(c: u32, weight: u64) -> (r: u32)
    ensures
        r == channel_scaled(c, weight),
{
    let q = mul_div(c as u64, weight, ONE);
    if q > u32::MAX as u64 {
        u32::MAX
    } else {
        q as u32
    }
}

/// The word that stores a grid coordinate: its 16 bits, the upper half
/// clear.
pub open spec fn spec_coord_word(v: i16) -> u32 {
    (v as u16) as u32
}

/// The grid coordinate in the lower half of a word.
pub open spec fn spec_word_coord(w: u32) -> i16 {
    (w as u16) as i16
}

#[verifier::when_used_as_spec(spec_coord_word)]
pub fn coord_word(v: i16) -> (w: u32)
    ensures
        w == spec_coord_word(v),
{
    (v as u16) as u32
}

#[verifier::when_used_as_spec(spec_word_coord)]
pub fn word_coord(w: u32) -> (v: i16)
    ensures
        v == spec_word_coord(w),
{
    (w as u16) as i16
}

pub proof fn lemma_coord_word_back(v: i16)
    by (bit_vector)
    ensures
        ((((v as u16) as u32) as u16) as i16) == v,
{
}

/// The lower and the upper half of a 64-bit value.
pub open spec fn spec_halves(v: u64) -> (u32, u32) {
    (v as u32, (v >> 32) as u32)
}

pub open spec fn spec_joined(lo: u32, hi: u32) -> u64 {
    (lo as u64) | ((hi as u64) << 32)
}

#[verifier::when_used_as_spec(spec_halves)]
pub fn halves(v: u64) -> (h: (u32, u32))
    ensures
        h == spec_halves(v),
{
    (v as u32, (v >> 32) as u32)
}

#[verifier::when_used_as_spec(spec_joined)]
pub fn joined(lo: u32, hi: u32) -> (v: u64)
    ensures
        v == spec_joined(lo, hi),
{
    (lo as u64) | ((hi as u64) << 32)
}

pub proof fn lemma_halves_back(v: u64)
    by (bit_vector)
    ensures
        (((v as u32) as u64) | ((((v >> 32) as u32) as u64) << 32)) == v,
{
}

/// `r` is the square root of `x`, rounded down.
pub open spec fn is_sqrt(x: int, r: int) -> bool {
    0 <= r && r * r <= x < (r + 1) * (r + 1)
}

/// The square root of `x`, rounded down.
pub open spec fn spec_isqrt(x: int) -> int {
    choose|r: int| is_sqrt(x, r)
}

/// Two numbers with the same rounded root property are the same number.
pub proof fn lemma_sqrt_unique(x: int, r: int, s: int)
    requires
        is_sqrt(x, r),
        is_sqrt(x, s),
    ensures
        r == s,
{
    if r < s {
        assert((r + 1) * (r + 1) <= s * s) by (nonlinear_arith)
            requires
                0 <= r,
                r + 1 <= s,
        ;
    }
    if s < r {
        assert((s + 1) * (s + 1) <= r * r) by (nonlinear_arith)
            requires
                0 <= s,
                s + 1 <= r,
        ;
    }
}

/// The square root of `x`, rounded down.
pub fn isqrt(x: u64) -> (r: u32)
    ensures
        is_sqrt(x as int, r as int),
        r == spec_isqrt(x as int),
{
    let mut lo: u64 = 0;
    let mut hi: u64 = 0x1_0000_0000;
    assert(lo * lo <= x < hi * hi) by (nonlinear_arith)
        requires
            lo == 0,
            hi == 0x1_0000_0000,
            x <= 0xffff_ffff_ffff_ffff,
    ;
    while hi - lo > 1
        invariant
            lo < hi <= 0x1_0000_0000,
            lo * lo <= x < hi * hi,
        decreases hi - lo,
    {
        let mid = lo + (hi - lo) / 2;
        proof {
            lemma_product_fits(mid as int, mid as int, 0xffff_ffff, 0xffff_ffff);
        }
        if mid * mid <= x {
            lo = mid;
        } else {
            hi = mid;
        }
    }
    proof {
        assert(hi == lo + 1);
        lemma_sqrt_unique(x as int, lo as int, spec_isqrt(x as int));
    }
    lo as u32
}

pub proof fn lemma_product_range(a: int, b: int, ba: int, bb: int)
    by (nonlinear_arith)
    requires
        -ba <= a <= ba,
        -bb <= b <= bb,
    ensures
        -(ba * bb) <= a * b <= ba * bb,
{
}

pub(crate) fn mul_i64(a: i64, b: i64, Ghost(ba): Ghost<int>, Ghost(bb): Ghost<int>) -> (r: i64)
    requires
        -ba <= a <= ba,
        -bb <= b <= bb,
        ba * bb <= 0x7fff_ffff_ffff_ffff,
    ensures
        r == a * b,
        -(ba * bb) <= r <= ba * bb,
{
    proof {
        lemma_product_range(a as int, b as int, ba, bb);
    }
    a * b
}

pub(crate) fn mul_i128(a: i128, b: i128, Ghost(ba): Ghost<int>, Ghost(bb): Ghost<int>) -> (r: i128)
    requires
        -ba <= a <= ba,
        -bb <= b <= bb,
        ba * bb <= 0x7fff_ffff_ffff_ffff_ffff_ffff_ffff_ffff,
    ensures
        r == a * b,
        -(ba * bb) <= r <= ba * bb,
{
    proof {
        lemma_product_range(a as int, b as int, ba, bb);
    }
    a * b
}

pub proof fn lemma_floor_of_negative(m: int, d: int)
    requires
        m > 0,
        d > 0,
    ensures
        (-m) / d == -((m + d - 1) / d),
{
    let q = (m + d - 1) / d;
    let r = (m + d - 1) % d;
    vstd::arithmetic::div_mod::lemma_fundamental_div_mod(m + d - 1, d);
    assert(d * q == q * d) by (nonlinear_arith);
    assert((-q) * d == -(q * d)) by (nonlinear_arith);
    vstd::arithmetic::div_mod::lemma_fundamental_div_mod_converse(-m, d, -q, d - 1 - r);
}

pub proof fn lemma_quotient_small(n: int, d: int)
    requires
        d > 0,
    ensures
        n >= 0 ==> 0 <= n / d <= n,
        n < 0 ==> n <= n / d < 0,
{
    vstd::arithmetic::div_mod::lemma_fundamental_div_mod(n, d);
    vstd::arithmetic::div_mod::lemma_mod_bound(n, d);
    let q = n / d;
    let r = n % d;
    if n >= 0 {
        assert(0 <= q <= n) by (nonlinear_arith)
            requires
                n == d * q + r,
                0 <= r < d,
                n >= 0,
                d > 0,
        ;
    } else {
        assert(n <= q < 0) by (nonlinear_arith)
            requires
                n == d * q + r,
                0 <= r < d,
                n < 0,
                d > 0,
        ;
    }
}

/// `n / d` rounded towards minus infinity.
pub(crate) fn floor_div(n: i128, d: i128) -> (q: i128)
    requires
        d > 0,
        -0x1000_0000_0000_0000_0000_0000_0000_0000 <= n <= 0x1000_0000_0000_0000_0000_0000_0000_0000,
        d <= 0x1000_0000_0000_0000_0000_0000_0000_0000,
    ensures
        q == n as int / d as int,
        n >= 0 ==> 0 <= q <= n,
        n < 0 ==> n <= q < 0,
{
    proof {
        lemma_quotient_small(n as int, d as int);
    }
    if n >= 0 {
        n / d
    } else {
        proof {
            lemma_floor_of_negative(-n as int, d as int);
        }
        -((-n + d - 1) / d)
    }
}

/// Every number from zero on has a rounded root.
pub proof fn lemma_sqrt_exists(x: int)
    requires
        x >= 0,
    ensures
        is_sqrt(x, spec_isqrt(x)),
    decreases x,
{
    if x == 0 {
        assert(is_sqrt(0, 0));
    } else {
        lemma_sqrt_exists(x - 1);
        let r = spec_isqrt(x - 1);
        if (r + 1) * (r + 1) <= x {
            assert(x < (r + 2) * (r + 2)) by (nonlinear_arith)
                requires
                    x - 1 < (r + 1) * (r + 1),
                    0 <= r,
            ;
            assert(is_sqrt(x, r + 1));
        } else {
            assert(is_sqrt(x, r));
        }
    }
}

} // verus!
