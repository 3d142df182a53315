use vstd::prelude::*;
use crate::math::{UVec2, Vec4};

verus! {

/// A screen-sized texture of four-word texels, one per pixel, rows first.
/// Reading outside of it gives zeros and writing outside of it does nothing,
/// as on the device.
#[derive(Debug)]
pub struct Tex {
    size: UVec2,
    texels: Vec<Vec4>,
}

pub open spec fn zero_texel() -> Vec4 {
    Vec4 { x: 0, y: 0, z: 0, w: 0 }
}

impl Tex {
    #[verifier::type_invariant]
    spec fn sized(&self) -> bool {
        self.texels@.len() == self.size.x * self.size.y
    }

    pub closed spec fn size(&self) -> UVec2 {
        self.size
    }

    pub open spec fn inside(&self, pos: UVec2) -> bool {
        pos.x < self.size().x && pos.y < self.size().y
    }

    /// The texel at `pos`; zeros outside of the texture.
    pub closed spec fn texel(&self, pos: UVec2) -> Vec4 {
        if pos.x < self.size.x && pos.y < self.size.y {
            self.texels@[pos.y * self.size.x + pos.x]
        } else {
            zero_texel()
        }
    }

    /// A texture of zeros; `None` where the number of texels does not fit
    /// the address space.
    pub fn new(size: UVec2) -> (t: Option<Tex>)
        ensures
            size.x * size.y <= usize::MAX <==> t is Some,
            t matches Some(tex) ==> tex.size() == size && forall|pos: UVec2|
                #[trigger] tex.texel(pos) == zero_texel(),
    {
        proof {
            crate::math::lemma_product_fits(size.x as int, size.y as int, 0xffff_ffff, 0xffff_ffff);
        }
        let n = size.x as u64 * size.y as u64;
        if n > usize::MAX as u64 {
            return None;
        }
        let texels = vec![Vec4 { x: 0, y: 0, z: 0, w: 0 }; n as usize];
        let tex = Tex { size, texels };
        assert forall|pos: UVec2| #[trigger] tex.texel(pos) == zero_texel() by {
            if pos.x < size.x && pos.y < size.y {
                lemma_slot(size, pos);
            }
        }
        Some(tex)
    }

    pub fn extent(&self) -> (size: UVec2)
        ensures
            size == self.size(),
    {
        self.size
    }

    pub fn read(&self, pos: UVec2) -> (value: Vec4)
        ensures
            value == self.texel(pos),
    {
        proof {
            use_type_invariant(self);
        }
        if pos.x < self.size.x && pos.y < self.size.y {
            proof {
                lemma_slot(self.size, pos);
            }
            let idx = pos.y as u64 * self.size.x as u64 + pos.x as u64;
            let n = self.texels.len();
            assert(idx == pos.y * self.size.x + pos.x);
            assert(idx < n);
            self.texels[idx as usize]
        } else {
            Vec4 { x: 0, y: 0, z: 0, w: 0 }
        }
    }

    /// Stores `value` at `pos`; every other texel stays as it is.
    pub fn write(&mut self, pos: UVec2, value: Vec4)
        ensures
            final(self).size() == old(self).size(),
            forall|other: UVec2|
                #[trigger] final(self).texel(other) == if other == pos && old(self).inside(pos) {
                    value
                } else {
                    old(self).texel(other)
                },
    {
        proof {
            use_type_invariant(&*self);
        }
        if pos.x < self.size.x && pos.y < self.size.y {
            proof {
                lemma_slot(self.size, pos);
            }
            let idx = pos.y as u64 * self.size.x as u64 + pos.x as u64;
            let n = self.texels.len();
            assert(idx == pos.y * self.size.x + pos.x);
            assert(idx < n);
            self.texels[idx as usize] = value;
            assert forall|other: UVec2| #[trigger]
                self.texel(other) == if other == pos {
                    value
                } else {
                    old(self).texel(other)
                } by {
                if other.x < self.size.x && other.y < self.size.y {
                    lemma_slot(self.size, other);
                    if other != pos {
                        lemma_slots_differ(self.size, pos, other);
                    }
                }
            }
        }
    }
}

proof fn lemma_slot(size: UVec2, pos: UVec2)
    requires
        pos.x < size.x,
        pos.y < size.y,
    ensures
        0 <= pos.y * size.x + pos.x < size.x * size.y,
        pos.y * size.x <= 0xffff_ffff * 0xffff_ffff,
{
    let w = size.x as int;
    let h = size.y as int;
    let x = pos.x as int;
    let y = pos.y as int;
    assert(0 <= y * w + x < w * h && y * w <= 0xffff_ffff * 0xffff_ffff) by (nonlinear_arith)
        requires
            0 <= x < w <= 0xffff_ffff,
            0 <= y < h <= 0xffff_ffff,
    {
        assert(y * w + x < (y + 1) * w);
        assert((y + 1) * w <= h * w);
    }
}

proof fn lemma_slots_differ(size: UVec2, a: UVec2, b: UVec2)
    requires
        a.x < size.x,
        b.x < size.x,
        a != b,
    ensures
        a.y * size.x + a.x != b.y * size.x + b.x,
{
    let w = size.x as int;
    if a.y * w + a.x == b.y * w + b.x {
        assert(a.y == b.y) by (nonlinear_arith)
            requires
                a.y * w + a.x == b.y * w + b.x,
                0 <= a.x < w,
                0 <= b.x < w,
                0 <= a.y,
                0 <= b.y,
        {
            if a.y < b.y {
                assert((a.y + 1) * w <= b.y * w);
            }
            if b.y < a.y {
                assert((b.y + 1) * w <= a.y * w);
            }
        }
    }
}

/// Slot `i` of a storage buffer; zeros past its end.
pub open spec fn fetched(buffer: Seq<Vec4>, i: int) -> Vec4 {
    if 0 <= i < buffer.len() {
        buffer[i]
    } else {
        zero_texel()
    }
}

/// The buffer with `value` in slot `i`; unchanged where there is no such
/// slot.
pub open spec fn stored(buffer: Seq<Vec4>, i: int, value: Vec4) -> Seq<Vec4> {
    if 0 <= i < buffer.len() {
        buffer.update(i, value)
    } else {
        buffer
    }
}

pub fn fetch(buffer: &Vec<Vec4>, i: u128) -> (value: Vec4)
    ensures
        value == fetched(buffer@, i as int),
{
    if i < buffer.len() as u128 {
        buffer[i as usize]
    } else {
        Vec4 { x: 0, y: 0, z: 0, w: 0 }
    }
}

pub fn store(buffer: &mut Vec<Vec4>, i: u128, value: Vec4)
    ensures
        final(buffer)@ == stored(old(buffer)@, i as int, value),
{
    if i < buffer.len() as u128 {
        buffer[i as usize] = value;
    }
}

/// A buffer set that exists twice: the frame being computed writes one and
/// reads the other, which holds what the frame before wrote.
#[derive(Debug)]
pub struct DoubleBuffered<T> {
    pub current: T,
    pub previous: T,
}

impl<T> DoubleBuffered<T> {
    pub fn new(current: T, previous: T) -> (b: Self)
        ensures
            b.current == current,
            b.previous == previous,
    {
        DoubleBuffered { current, previous }
    }

    /// Ends a frame: what was written becomes the previous frame's, and the
    /// other set is written next. Nothing is copied.
    pub fn swap(&mut self)
        ensures
            final(self).current == old(self).previous,
            final(self).previous == old(self).current,
    {
        std::mem::swap(&mut self.current, &mut self.previous);
    }
}

} // verus!
