//! Tile anchor positions along one axis.

use vstd::prelude::*;

verus! {

/// How many values lie between `position` and `size`, both included.
pub open spec fn span(position: int, size: int) -> int {
    if position > size {
        0
    } else {
        size - position + 1
    }
}

/// The positions `position`, `position + stride`, `position + 2 * stride`, ...
/// up to and including `size`; empty where `position` already exceeds `size`.
pub open spec fn tile_positions(position: int, stride: int, size: int) -> Seq<int>
    decreases span(position, size),
    when stride >= 1
{
    if position > size {
        Seq::empty()
    } else {
        seq![position] + tile_positions(position + stride, stride, size)
    }
}

/// A generator of tile anchor positions along one axis.
pub struct CoordinateIter {
    position: i64,
    stride: i32,
    size: i32,
}

impl CoordinateIter {
    /// The position that comes next, if it does not exceed the bound.
    pub closed spec fn position(&self) -> int {
        self.position as int
    }

    /// The distance between two positions.
    pub closed spec fn stride(&self) -> int {
        self.stride as int
    }

    /// The bound: the last value that may still be emitted.
    pub closed spec fn size(&self) -> int {
        self.size as int
    }

    /// The state is one that `new` and `next` can reach.
    pub closed spec fn well_formed(&self) -> bool {
        &&& self.stride >= 0
        &&& self.size >= 0
        &&& i32::MIN <= self.position
    }

    /// The positions that are still to come. Meaningful for a stride of at least one.
    pub open spec fn remaining(&self) -> Seq<int> {
        tile_positions(self.position(), self.stride(), self.size())
    }

    /// A generator that starts at `position` and advances by `stride` while
    /// the position does not exceed `size`.
    pub fn new(position: i32, stride: u32, size: u32) -> (it: CoordinateIter)
        requires
            stride <= i32::MAX,
            size <= i32::MAX,
        ensures
            it.well_formed(),
            it.position() == position,
            it.stride() == stride,
            it.size() == size,
    {
        CoordinateIter { position: position as i64, stride: stride as i32, size: size as i32 }
    }

    /// Emits the next position, or `None` once the position exceeds the bound.
    pub fn next(&mut self) -> (r: Option<i32>)
        requires
            old(self).well_formed(),
        ensures
            final(self).well_formed(),
            final(self).stride() == old(self).stride(),
            final(self).size() == old(self).size(),
            old(self).position() > old(self).size() ==> r is None && final(self).position()
                == old(self).position(),
            old(self).position() <= old(self).size() ==> r == Some(old(self).position() as i32)
                && old(self).position() == old(self).position() as i32 && final(self).position()
                == old(self).position() + old(self).stride(),
            old(self).stride() >= 1 ==> old(self).remaining() == (match r {
                Some(v) => seq![v as int] + final(self).remaining(),
                None => Seq::empty(),
            }),
    {
        if self.position > self.size as i64 {
            return None;
        }
        let result = self.position as i32;
        self.position = self.position + self.stride as i64;
        Some(result)
    }

    /// All the positions that are still to come, in order.
    pub fn collect(self) -> (v: Vec<i32>)
        requires
            self.well_formed(),
            self.stride() >= 1,
        ensures
            v@.map_values(|x: i32| x as int) == self.remaining(),
    {
        let mut it = self;
        let mut v: Vec<i32> = Vec::new();
        loop
            invariant
                it.well_formed(),
                it.stride() == self.stride() >= 1,
                it.size() == self.size(),
                v@.map_values(|x: i32| x as int) + it.remaining() == self.remaining(),
            ensures
                v@.map_values(|x: i32| x as int) == self.remaining(),
            decreases span(it.position(), it.size()),
        {
            let ghost before = it;
            let ghost seen = v@.map_values(|x: i32| x as int);
            match it.next() {
                None => {
                    assert(before.remaining() =~= Seq::<int>::empty());
                    assert(seen + Seq::<int>::empty() =~= seen);
                    break ;
                },
                Some(x) => {
                    v.push(x);
                    assert(before.remaining() =~= seq![x as int] + it.remaining());
                    assert(v@.map_values(|x: i32| x as int) =~= seen.push(x as int));
                    assert(seen.push(x as int) + it.remaining() =~= seen + before.remaining());
                },
            }
        }
        v
    }
}

/// The number of positions: none where `position` exceeds `size`, else one
/// more than the number of whole strides between `position` and `size`.
pub proof fn lemma_tile_positions_len(position: int, stride: int, size: int)
    requires
        stride >= 1,
    ensures
        position > size ==> tile_positions(position, stride, size).len() == 0,
        position <= size ==> tile_positions(position, stride, size).len() == (size - position)
            / stride + 1,
    decreases span(position, size),
{
    if position <= size {
        lemma_tile_positions_len(position + stride, stride, size);
        if position + stride <= size {
            assert((size - position) / stride == (size - position - stride) / stride + 1) by {
                vstd::arithmetic::div_mod::lemma_div_plus_one(size - position - stride, stride);
            }
        } else {
            assert((size - position) / stride == 0) by {
                vstd::arithmetic::div_mod::lemma_basic_div(size - position, stride);
            }
        }
    }
}

/// The position at index `k` lies `k` strides after the first, and none exceeds `size`.
pub proof fn lemma_tile_positions_index(position: int, stride: int, size: int, k: int)
    requires
        stride >= 1,
        0 <= k < tile_positions(position, stride, size).len(),
    ensures
        tile_positions(position, stride, size)[k] == position + k * stride,
        position + k * stride <= size,
    decreases k,
{
    let rest = tile_positions(position + stride, stride, size);
    assert(position <= size);
    assert(tile_positions(position, stride, size) == seq![position] + rest);
    if k > 0 {
        assert((seq![position] + rest)[k] == rest[k - 1]);
        lemma_tile_positions_index(position + stride, stride, size, k - 1);
        assert((k - 1) * stride + stride == k * stride) by (nonlinear_arith);
    } else {
        assert(0 * stride == 0) by (nonlinear_arith);
    }
}

} // verus!
