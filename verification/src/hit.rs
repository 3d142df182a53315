use vstd::prelude::*;
use crate::vector::{dot, v};
use crate::math::{
    coord_word, lemma_coord_word_back, mul_i128, mul_i64, word_coord, Vec3, Vec4,
};

verus! {

/// Where a ray met a surface, or the note that it met none. `distance` is the
/// ray parameter of the meeting point in 1/65536ths of the ray's direction
/// vector; a distance of zero says that nothing was hit.
#[derive(Clone, Copy, Debug, PartialEq, Eq, Structural)]
pub struct Hit {
    pub point: Vec3,
    pub normal: Vec3,
    pub material_id: u32,
    pub distance: u32,
}

/// The two vectors that store a hit: point and distance, normal and
/// material.
pub open spec fn packed_hit(hit: Hit) -> (Vec4, Vec4) {
    (
        Vec4 {
            x: coord_word(hit.point.x),
            y: coord_word(hit.point.y),
            z: coord_word(hit.point.z),
            w: hit.distance,
        },
        Vec4 {
            x: coord_word(hit.normal.x),
            y: coord_word(hit.normal.y),
            z: coord_word(hit.normal.z),
            w: hit.material_id,
        },
    )
}

/// The hit that two vectors store: none where the distance word is zero,
/// whatever the other words hold.
pub open spec fn unpacked_hit(d0: Vec4, d1: Vec4) -> Hit {
    if d0.w == 0 {
        Hit::spec_none()
    } else {
        Hit {
            point: Vec3 { x: word_coord(d0.x), y: word_coord(d0.y), z: word_coord(d0.z) },
            normal: Vec3 { x: word_coord(d1.x), y: word_coord(d1.y), z: word_coord(d1.z) },
            material_id: d1.w,
            distance: d0.w,
        }
    }
}

impl Hit {
    pub open spec fn spec_none() -> Hit {
        Hit {
            point: Vec3 { x: 0, y: 0, z: 0 },
            normal: Vec3 { x: 0, y: 0, z: 0 },
            material_id: 0,
            distance: 0,
        }
    }

    /// The record of a ray that met nothing.
    #[verifier::when_used_as_spec(spec_none)]
    pub fn none() -> (hit: Hit)
        ensures
            hit == Hit::spec_none(),
    {
        Hit { point: Vec3::zero(), normal: Vec3::zero(), material_id: 0, distance: 0 }
    }

    pub open spec fn spec_is_none(self) -> bool {
        self.distance == 0
    }

    #[verifier::when_used_as_spec(spec_is_none)]
    pub fn is_none(self) -> (b: bool)
        ensures
            b == self.spec_is_none(),
    {
        self.distance == 0
    }

    pub open spec fn spec_is_some(self) -> bool {
        self.distance != 0
    }

    #[verifier::when_used_as_spec(spec_is_some)]
    pub fn is_some(self) -> (b: bool)
        ensures
            b == self.spec_is_some(),
    {
        self.distance != 0
    }

    /// Packs the hit into the two vectors of its slot.
    pub fn serialize(self) -> (d: [Vec4; 2])
        ensures
            (d[0], d[1]) == packed_hit(self),
    {
        [
            Vec4 {
                x: coord_word(self.point.x),
                y: coord_word(self.point.y),
                z: coord_word(self.point.z),
                w: self.distance,
            },
            Vec4 {
                x: coord_word(self.normal.x),
                y: coord_word(self.normal.y),
                z: coord_word(self.normal.z),
                w: self.material_id,
            },
        ]
    }

    /// Reads a hit back from the two vectors of its slot.
    pub fn deserialize(d0: Vec4, d1: Vec4) -> (hit: Hit)
        ensures
            hit == unpacked_hit(d0, d1),
    {
        if d0.w == 0 {
            Hit::none()
        } else {
            Hit {
                point: Vec3 { x: word_coord(d0.x), y: word_coord(d0.y), z: word_coord(d0.z) },
                normal: Vec3 { x: word_coord(d1.x), y: word_coord(d1.y), z: word_coord(d1.z) },
                material_id: d1.w,
                distance: d0.w,
            }
        }
    }
}

/// Packing a hit and reading it back gives the same hit; packing any record
/// of "nothing hit" and reading it back gives the record of nothing hit.
pub proof fn lemma_hit_round_trip(hit: Hit)
    ensures
        hit.is_some() ==> unpacked_hit(packed_hit(hit).0, packed_hit(hit).1) == hit,
        hit.is_none() ==> unpacked_hit(packed_hit(hit).0, packed_hit(hit).1) == Hit::spec_none(),
        unpacked_hit(packed_hit(hit).0, packed_hit(hit).1).is_none() == hit.is_none(),
{
    lemma_coord_word_back(hit.point.x);
    lemma_coord_word_back(hit.point.y);
    lemma_coord_word_back(hit.point.z);
    lemma_coord_word_back(hit.normal.x);
    lemma_coord_word_back(hit.normal.y);
    lemma_coord_word_back(hit.normal.z);
}

/// Two hits lie on what passes for the same surface: both are hits, of the
/// same material, their normals no more than 30 degrees apart, and their
/// distances no more than an eighth of the greater one apart.
pub open spec fn similar(a: Hit, b: Hit) -> bool {
    let along = dot(v(a.normal), v(b.normal));
    let gap = if a.distance >= b.distance {
        a.distance - b.distance
    } else {
        b.distance - a.distance
    };
    let far = if a.distance >= b.distance {
        a.distance
    } else {
        b.distance
    };
    &&& a.is_some()
    &&& b.is_some()
    &&& a.material_id == b.material_id
    &&& along > 0
    &&& 4 * (along * along) >= 3 * (dot(v(a.normal), v(a.normal)) * dot(v(b.normal), v(b.normal)))
    &&& 8 * gap <= far
}

impl Hit {
    /// See [`similar`].
    pub fn is_similar_to(&self, other: &Hit) -> (b: bool)
        ensures
            b == similar(*self, *other),
    {
        if self.distance == 0 || other.distance == 0 || self.material_id != other.material_id {
            return false;
        }
        let ghost c = 32768int;
        let ax = self.normal.x as i64;
        let ay = self.normal.y as i64;
        let az = self.normal.z as i64;
        let bx = other.normal.x as i64;
        let by = other.normal.y as i64;
        let bz = other.normal.z as i64;
        let along = mul_i64(ax, bx, Ghost(c), Ghost(c)) + mul_i64(ay, by, Ghost(c), Ghost(c))
            + mul_i64(az, bz, Ghost(c), Ghost(c));
        let aa = mul_i64(ax, ax, Ghost(c), Ghost(c)) + mul_i64(ay, ay, Ghost(c), Ghost(c)) + mul_i64(
            az,
            az,
            Ghost(c),
            Ghost(c),
        );
        let bb = mul_i64(bx, bx, Ghost(c), Ghost(c)) + mul_i64(by, by, Ghost(c), Ghost(c)) + mul_i64(
            bz,
            bz,
            Ghost(c),
            Ghost(c),
        );
        if along <= 0 {
            return false;
        }
        let ghost w = 0x1_0000_0000int;
        let lhs = 4 * mul_i128(along as i128, along as i128, Ghost(w), Ghost(w));
        let rhs = 3 * mul_i128(aa as i128, bb as i128, Ghost(w), Ghost(w));
        if lhs < rhs {
            return false;
        }
        let (gap, far) = if self.distance >= other.distance {
            (self.distance - other.distance, self.distance)
        } else {
            (other.distance - self.distance, other.distance)
        };
        8 * (gap as u64) <= far as u64
    }
}

} // verus!
