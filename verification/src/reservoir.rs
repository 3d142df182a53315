use vstd::prelude::*;
use crate::texture::{fetch, fetched, store, stored};
use crate::math::{
    coord_word, halves, joined, lemma_coord_word_back, lemma_halves_back, lemma_product_fits,
    mul_div, sat32, sat64, sat_div, sat_mul, word_coord, Radiance, Vec3, Vec4,
};

verus! {

/// Names a light of the light table, or one of the two lights that are not
/// in it.
#[derive(Clone, Copy, Debug, PartialEq, Eq, Structural)]
pub struct LightId {
    pub id: u32,
}

/// The marker of the sun.
pub const SUN_ID: u32 = 0xffff_ffff;

/// The marker of the sky.
pub const SKY_ID: u32 = 0xffff_fffe;

impl LightId {
    pub fn new(id: u32) -> (l: LightId)
        ensures
            l.id == id,
    {
        LightId { id }
    }

    pub fn sun() -> (l: LightId)
        ensures
            l.id == SUN_ID,
    {
        LightId { id: SUN_ID }
    }

    pub fn sky() -> (l: LightId)
        ensures
            l.id == SKY_ID,
    {
        LightId { id: SKY_ID }
    }

    pub open spec fn spec_is_sun(self) -> bool {
        self.id == SUN_ID
    }

    #[verifier::when_used_as_spec(spec_is_sun)]
    pub fn is_sun(self) -> (b: bool)
        ensures
            b == self.spec_is_sun(),
    {
        self.id == SUN_ID
    }

    pub open spec fn spec_is_sky(self) -> bool {
        self.id == SKY_ID
    }

    #[verifier::when_used_as_spec(spec_is_sky)]
    pub fn is_sky(self) -> (b: bool)
        ensures
            b == self.spec_is_sky(),
    {
        self.id == SKY_ID
    }
}

/// A light sample: the light, the point on it, the density with which the
/// point counts at the pixel that holds the sample, and the radiance that
/// arrived from it.
#[derive(Clone, Copy, Debug, PartialEq, Eq, Structural)]
pub struct Sample {
    pub light_id: LightId,
    pub point: Vec3,
    pub pdf: u32,
    pub radiance: Radiance,
}

impl Sample {
    pub open spec fn spec_none() -> Sample {
        Sample {
            light_id: LightId { id: 0 },
            point: Vec3 { x: 0, y: 0, z: 0 },
            pdf: 0,
            radiance: Radiance { r: 0, g: 0, b: 0 },
        }
    }

    /// The sample of a reservoir that has seen nothing.
    #[verifier::when_used_as_spec(spec_none)]
    pub fn none() -> (s: Sample)
        ensures
            s == Sample::spec_none(),
    {
        Sample {
            light_id: LightId { id: 0 },
            point: Vec3 { x: 0, y: 0, z: 0 },
            pdf: 0,
            radiance: Radiance { r: 0, g: 0, b: 0 },
        }
    }
}

/// One sample chosen out of `m` candidates whose weights add up to `w_sum`,
/// with the weight `w` that the chosen sample carries in the estimate.
/// Weights and densities are in 1/65536ths.
#[derive(Clone, Copy, Debug, PartialEq, Eq, Structural)]
pub struct Reservoir {
    pub sample: Sample,
    pub w_sum: u64,
    pub m: u32,
    pub w: u64,
}

/// The weight of the chosen sample: `w_sum / (m * pdf)`, and zero where
/// nothing was seen, nothing has weight, or the density is zero.
pub open spec fn output_weight(w_sum: u64, m: u32, pdf: u32) -> u64 {
    if m == 0 || pdf == 0 {
        0
    } else {
        sat64(w_sum as int * 65536 / (m as int * pdf as int))
    }
}

/// Whether the merge of a reservoir of total weight `a` with one of total
/// weight `b` keeps the sample of the first, under the draw `u` out of 2^32:
/// with probability `a / (a + b)`, and the one with weight where the other
/// has none.
pub open spec fn keeps_first(a: u64, b: u64, u: u32) -> bool {
    u as int * (a as int + b as int) < a as int * 0x1_0000_0000
}

/// Which sample a merge keeps: the first where the draw says so, and also
/// where neither has weight, unless the first has seen nothing.
pub open spec fn merge_keeps_first(a: Reservoir, b: Reservoir, u: u32) -> bool {
    if a.w_sum == 0 && b.w_sum == 0 {
        a.m > 0
    } else {
        keeps_first(a.w_sum, b.w_sum, u)
    }
}

pub open spec fn merged(a: Reservoir, b: Reservoir, u: u32) -> Reservoir {
    let sample = if merge_keeps_first(a, b, u) {
        a.sample
    } else {
        b.sample
    };
    let w_sum = sat64(a.w_sum + b.w_sum);
    let m = sat32(a.m + b.m);
    Reservoir { sample, w_sum, m, w: output_weight(w_sum, m, sample.pdf) }
}

fn weigh(w_sum: u64, m: u32, pdf: u32) -> (w: u64)
    ensures
        w == output_weight(w_sum, m, pdf),
{
    if m == 0 || pdf == 0 {
        0
    } else {
        proof {
            lemma_product_fits(m as int, pdf as int, 0xffff_ffff, 0xffff_ffff);
            assert(m as int * pdf as int > 0) by (nonlinear_arith)
                requires
                    m > 0,
                    pdf > 0,
            ;
        }
        sat_div(w_sum as u128 * 65536, m as u128 * pdf as u128)
    }
}

fn first_kept(a: u64, b: u64, u: u32) -> (keep: bool)
    ensures
        keep == keeps_first(a, b, u),
{
    let total = a as u128 + b as u128;
    proof {
        lemma_product_fits(u as int, total as int, 0xffff_ffff, 0x1_ffff_ffff_ffff_fffe);
    }
    (u as u128) * total < (a as u128) * 0x1_0000_0000
}

impl Reservoir {
    pub open spec fn spec_empty() -> Reservoir {
        Reservoir { sample: Sample::none(), w_sum: 0, m: 0, w: 0 }
    }

    /// The reservoir that has seen nothing.
    #[verifier::when_used_as_spec(spec_empty)]
    pub fn empty() -> (r: Reservoir)
        ensures
            r == Reservoir::spec_empty(),
    {
        Reservoir { sample: Sample::none(), w_sum: 0, m: 0, w: 0 }
    }

    /// The weight `w` is the one that the statistics give, and a reservoir
    /// that has seen nothing is the empty one.
    pub open spec fn well_formed(self) -> bool {
        &&& self.w == output_weight(self.w_sum, self.m, self.sample.pdf)
        &&& self.m == 0 ==> self == Reservoir::spec_empty()
    }

    pub open spec fn spec_is_empty(self) -> bool {
        self.m == 0
    }

    #[verifier::when_used_as_spec(spec_is_empty)]
    pub fn is_empty(self) -> (b: bool)
        ensures
            b == self.spec_is_empty(),
    {
        self.m == 0
    }

    /// The reservoir of one candidate of the given weight.
    pub fn new(sample: Sample, weight: u64) -> (r: Reservoir)
        ensures
            r == (Reservoir { sample, w_sum: weight, m: 1, w: output_weight(weight, 1, sample.pdf) }),
            r.well_formed(),
    {
        Reservoir { sample, w_sum: weight, m: 1, w: weigh(weight, 1, sample.pdf) }
    }

    /// Combines two reservoirs into one that stands for the candidates of
    /// both: the counts and the weight sums add up (cut off at the largest
    /// value), one of the two samples is kept as `merge_keeps_first` says
    /// under the draw `u`, and the weight is the one that the new statistics
    /// give.
    pub fn merge(a: Reservoir, b: Reservoir, u: u32) -> (r: Reservoir)
        ensures
            r == merged(a, b, u),
            a.well_formed() && b.well_formed() ==> r.well_formed(),
    {
        let keep_first = if a.w_sum == 0 && b.w_sum == 0 {
            a.m > 0
        } else {
            first_kept(a.w_sum, b.w_sum, u)
        };
        let sample = if keep_first {
            a.sample
        } else {
            b.sample
        };
        let w_sum = a.w_sum.saturating_add(b.w_sum);
        let m = a.m.saturating_add(b.m);
        Reservoir { sample, w_sum, m, w: weigh(w_sum, m, sample.pdf) }
    }
}

/// A reservoir cut down to a history of at most `max_m` candidates: the count
/// is lowered to `max_m` and the weight sum in proportion.
pub open spec fn clamped_to(r: Reservoir, max_m: u32) -> Reservoir {
    if r.m <= max_m {
        r
    } else if max_m == 0 {
        Reservoir::spec_empty()
    } else {
        let w_sum = sat64(r.w_sum as int * max_m as int / r.m as int);
        Reservoir { sample: r.sample, w_sum, m: max_m, w: output_weight(w_sum, max_m, r.sample.pdf) }
    }
}

/// A reservoir taken over at another pixel, where its sample has the
/// density `target`: the weight sum becomes `target * w * m`, which is the
/// old sum times the ratio of the two densities, and the sample carries the
/// new density. A reservoir that has seen nothing stays as it is.
pub open spec fn reweighted_to(r: Reservoir, target: u32) -> Reservoir {
    if r.m == 0 {
        r
    } else {
        let w_sum = sat64(sat64(target as int * r.w as int / 65536) as int * r.m as int);
        let sample = Sample { pdf: target, ..r.sample };
        Reservoir { sample, w_sum, m: r.m, w: output_weight(w_sum, r.m, target) }
    }
}

/// The three vectors that store a reservoir: light and point; density and
/// radiance; weight sum and count. The weight is not stored.
pub open spec fn packed_reservoir(r: Reservoir) -> (Vec4, Vec4, Vec4) {
    (
        Vec4 {
            x: r.sample.light_id.id,
            y: coord_word(r.sample.point.x),
            z: coord_word(r.sample.point.y),
            w: coord_word(r.sample.point.z),
        },
        Vec4 {
            x: r.sample.pdf,
            y: r.sample.radiance.r,
            z: r.sample.radiance.g,
            w: r.sample.radiance.b,
        },
        Vec4 { x: halves(r.w_sum).0, y: halves(r.w_sum).1, z: r.m, w: 0 },
    )
}

/// The reservoir that three vectors store, with the weight that its
/// statistics give.
pub open spec fn unpacked_reservoir(d0: Vec4, d1: Vec4, d2: Vec4) -> Reservoir {
    let sample = Sample {
        light_id: LightId { id: d0.x },
        point: Vec3 { x: word_coord(d0.y), y: word_coord(d0.z), z: word_coord(d0.w) },
        pdf: d1.x,
        radiance: Radiance { r: d1.y, g: d1.z, b: d1.w },
    };
    let w_sum = joined(d2.x, d2.y);
    Reservoir { sample, w_sum, m: d2.z, w: output_weight(w_sum, d2.z, d1.x) }
}

impl Reservoir {
    /// Takes one more candidate in: the merge with the reservoir of that
    /// candidate alone.
    pub fn update(self, sample: Sample, weight: u64, u: u32) -> (r: Reservoir)
        ensures
            r == merged(
                self,
                Reservoir { sample, w_sum: weight, m: 1, w: output_weight(weight, 1, sample.pdf) },
                u,
            ),
            self.well_formed() ==> r.well_formed(),
    {
        Reservoir::merge(self, Reservoir::new(sample, weight), u)
    }

    /// See [`clamped_to`].
    pub fn clamped(self, max_m: u32) -> (r: Reservoir)
        ensures
            r == clamped_to(self, max_m),
            r.m <= max_m,
            self.well_formed() ==> r.well_formed(),
    {
        if self.m <= max_m {
            self
        } else if max_m == 0 {
            Reservoir::empty()
        } else {
            let w_sum = mul_div(self.w_sum, max_m as u64, self.m as u64);
            Reservoir {
                sample: self.sample,
                w_sum,
                m: max_m,
                w: weigh(w_sum, max_m, self.sample.pdf),
            }
        }
    }

    /// See [`reweighted_to`].
    pub fn reweighted(self, target: u32) -> (r: Reservoir)
        ensures
            r == reweighted_to(self, target),
            r.m == self.m,
            self.well_formed() ==> r.well_formed(),
    {
        if self.m == 0 {
            self
        } else {
            let at_target = mul_div(target as u64, self.w, 65536);
            let w_sum = sat_mul(at_target, self.m as u64);
            let sample = Sample { pdf: target, ..self.sample };
            Reservoir { sample, w_sum, m: self.m, w: weigh(w_sum, self.m, target) }
        }
    }

    /// Packs the reservoir into the three vectors of its slot.
    pub fn serialize(self) -> (d: [Vec4; 3])
        ensures
            (d[0], d[1], d[2]) == packed_reservoir(self),
    {
        let (lo, hi) = halves(self.w_sum);
        [
            Vec4 {
                x: self.sample.light_id.id,
                y: coord_word(self.sample.point.x),
                z: coord_word(self.sample.point.y),
                w: coord_word(self.sample.point.z),
            },
            Vec4 {
                x: self.sample.pdf,
                y: self.sample.radiance.r,
                z: self.sample.radiance.g,
                w: self.sample.radiance.b,
            },
            Vec4 { x: lo, y: hi, z: self.m, w: 0 },
        ]
    }

    /// Reads a reservoir back from the three vectors of its slot.
    pub fn deserialize(d0: Vec4, d1: Vec4, d2: Vec4) -> (r: Reservoir)
        ensures
            r == unpacked_reservoir(d0, d1, d2),
    {
        let sample = Sample {
            light_id: LightId { id: d0.x },
            point: Vec3 { x: word_coord(d0.y), y: word_coord(d0.z), z: word_coord(d0.w) },
            pdf: d1.x,
            radiance: Radiance { r: d1.y, g: d1.z, b: d1.w },
        };
        let w_sum = joined(d2.x, d2.y);
        Reservoir { sample, w_sum, m: d2.z, w: weigh(w_sum, d2.z, d1.x) }
    }
}

/// The reservoir in slot `idx` of a buffer of reservoirs, three vectors to
/// the slot.
pub open spec fn reservoir_at(buffer: Seq<Vec4>, idx: int) -> Reservoir {
    unpacked_reservoir(
        fetched(buffer, 3 * idx),
        fetched(buffer, 3 * idx + 1),
        fetched(buffer, 3 * idx + 2),
    )
}

/// The buffer with a reservoir packed into slot `idx`.
pub open spec fn reservoir_put(buffer: Seq<Vec4>, idx: int, r: Reservoir) -> Seq<Vec4> {
    let d = packed_reservoir(r);
    stored(stored(stored(buffer, 3 * idx, d.0), 3 * idx + 1, d.1), 3 * idx + 2, d.2)
}

impl Reservoir {
    /// Reads the reservoir of slot `idx`.
    pub fn read(buffer: &Vec<Vec4>, idx: u64) -> (r: Reservoir)
        ensures
            r == reservoir_at(buffer@, idx as int),
    {
        let base = idx as u128 * 3;
        Reservoir::deserialize(fetch(buffer, base), fetch(buffer, base + 1), fetch(buffer, base + 2))
    }

    /// Writes the reservoir into slot `idx`.
    pub fn write(self, buffer: &mut Vec<Vec4>, idx: u64)
        ensures
            final(buffer)@ == reservoir_put(old(buffer)@, idx as int, self),
    {
        let base = idx as u128 * 3;
        let d = self.serialize();
        store(buffer, base, d[0]);
        store(buffer, base + 1, d[1]);
        store(buffer, base + 2, d[2]);
    }
}

/// Packing a well-formed reservoir and reading it back gives the same
/// reservoir.
pub proof fn lemma_reservoir_round_trip(r: Reservoir)
    requires
        r.well_formed(),
    ensures
        unpacked_reservoir(packed_reservoir(r).0, packed_reservoir(r).1, packed_reservoir(r).2)
            == r,
{
    lemma_coord_word_back(r.sample.point.x);
    lemma_coord_word_back(r.sample.point.y);
    lemma_coord_word_back(r.sample.point.z);
    lemma_halves_back(r.w_sum);
}

/// The counts and the weight sums of two reservoirs add up exactly in their
/// merge, as long as the sums can be represented.
pub proof fn lemma_merge_adds(a: Reservoir, b: Reservoir, u: u32)
    requires
        a.m + b.m <= u32::MAX,
        a.w_sum + b.w_sum <= u64::MAX,
    ensures
        merged(a, b, u).m == a.m + b.m,
        merged(a, b, u).w_sum == a.w_sum + b.w_sum,
{
}

/// Merging with the empty reservoir, on either side and under any draw,
/// gives the other reservoir back.
pub proof fn lemma_merge_empty(a: Reservoir, u: u32)
    requires
        a.well_formed(),
    ensures
        merged(a, Reservoir::spec_empty(), u) == a,
        merged(Reservoir::spec_empty(), a, u) == a,
{
    let e = Reservoir::spec_empty();
    if a.w_sum > 0 {
        assert(keeps_first(a.w_sum, 0, u)) by (nonlinear_arith)
            requires
                a.w_sum > 0,
                0 <= u < 0x1_0000_0000,
        ;
        assert(!keeps_first(0, a.w_sum, u)) by (nonlinear_arith)
            requires
                a.w_sum > 0,
                0 <= u,
        ;
    }
}

/// The draws that keep the first sample are those below a threshold, and
/// the threshold is `a / (a + b)` of all 2^32 draws, rounded up: the first
/// sample is kept with probability `a / (a + b)` to within one draw.
pub proof fn lemma_keep_probability(a: u64, b: u64) -> (threshold: int)
    requires
        a + b > 0,
    ensures
        0 <= threshold <= 0x1_0000_0000,
        forall|u: u32| keeps_first(a, b, u) <==> u < threshold,
        (threshold - 1) * (a + b) < a * 0x1_0000_0000 <= threshold * (a + b),
{
    let total = a as int + b as int;
    let scaled = a as int * 0x1_0000_0000;
    let threshold = (scaled + total - 1) / total;
    assert((threshold - 1) * total < scaled <= threshold * total && 0 <= threshold
        <= 0x1_0000_0000) by (nonlinear_arith)
        requires
            total > 0,
            0 <= a <= total,
            scaled == a * 0x1_0000_0000,
            threshold == (scaled + total - 1) / total,
    ;
    assert forall|u: u32| keeps_first(a, b, u) <==> u < threshold by {
        assert((u as int * total < scaled) <==> u < threshold) by (nonlinear_arith)
            requires
                total > 0,
                (threshold - 1) * total < scaled <= threshold * total,
                0 <= u,
        ;
    }
    threshold
}

/// The order of the two reservoirs hardly matters to what is kept: of all
/// 2^32 draws, a merge of weights `a` and `b` keeps the first sample under
/// the `first` lowest, and a merge of weights `b` and `a` keeps that same
/// sample, now the second, under the `second` highest, and `first` and
/// `second` differ by one draw at most.
pub proof fn lemma_keep_either_way(a: u64, b: u64) -> (counts: (int, int))
    requires
        a + b > 0,
    ensures
        ({
            let (first, second) = counts;
            &&& 0 <= second <= first <= second + 1
            &&& first <= 0x1_0000_0000
            &&& forall|u: u32| keeps_first(a, b, u) <==> u < first
            &&& forall|u: u32| !keeps_first(b, a, u) <==> u >= 0x1_0000_0000 - second
            &&& (first - 1) * (a + b) < a * 0x1_0000_0000 <= first * (a + b)
        }),
{
    let first = lemma_keep_probability(a, b);
    let other = lemma_keep_probability(b, a);
    let total = a as int + b as int;
    assert(0x1_0000_0000 <= first + other <= 0x1_0000_0000 + 1) by (nonlinear_arith)
        requires
            total == a + b,
            total > 0,
            (first - 1) * total < a * 0x1_0000_0000 <= first * total,
            (other - 1) * total < b * 0x1_0000_0000 <= other * total,
    ;
    (first, 0x1_0000_0000 - other)
}

/// Swapping the two reservoirs of a merge mirrors the draws: where the
/// second sample is kept under `u`, the swapped merge keeps it under the
/// mirrored draw.
pub proof fn lemma_keep_mirrored(a: u64, b: u64, u: u32)
    requires
        a + b > 0,
        !keeps_first(a, b, u),
    ensures
        keeps_first(b, a, (0xffff_ffff - u) as u32),
{
    let total = a as int + b as int;
    assert((0xffff_ffff - u) * total < b * 0x1_0000_0000) by (nonlinear_arith)
        requires
            total == a + b,
            total > 0,
            u * total >= a * 0x1_0000_0000,
            0 <= u <= 0xffff_ffff,
    ;
}

/// The counts and the weight sums of a merge do not depend on the order or
/// the grouping of the reservoirs, nor on the draws.
pub proof fn lemma_merge_statistics(a: Reservoir, b: Reservoir, c: Reservoir, u: u32, w: u32)
    ensures
        merged(a, b, u).m == merged(b, a, w).m,
        merged(a, b, u).w_sum == merged(b, a, w).w_sum,
        merged(merged(a, b, u), c, w).m == merged(a, merged(b, c, w), u).m,
        merged(merged(a, b, u), c, w).w_sum == merged(a, merged(b, c, w), u).w_sum,
{
}

} // verus!
