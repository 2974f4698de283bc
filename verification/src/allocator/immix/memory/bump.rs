use vstd::prelude::*;

use super::block::{Block, ALIGN_MASK, ALIGN_WORD, BLOCK_CAPACITY, BLOCK_SIZE, LINE_COUNT, LINE_SIZE};
use super::meta::{BlockMeta, Hole};
use crate::immix::blocks::{in_alloc, is_pow2};
use crate::memory::bump::{hole_below, lemma_hole_below_bounds, lemma_hole_below_none, lines_for};
use crate::memory::errors::BlockError;

verus! {

/// A bump block as a value: the cursor and the limit of the current hole
/// (byte offsets; allocation goes downward) and the line marks.
pub struct BumpV {
    pub cursor: usize,
    pub limit: usize,
    pub marks: Seq<u8>,
}

/// Round `x` down to the alignment.
pub open spec fn align_down(x: int) -> int {
    x - x % (ALIGN_WORD + 1)
}

/// Bump `size` bytes downward from the cursor, if the aligned start stays
/// at or above the limit; gives that start.
pub open spec fn bump_down(b: BumpV, size: int) -> Option<usize> {
    if size <= b.cursor && align_down(b.cursor - size) >= b.limit {
        Some(align_down(b.cursor - size) as usize)
    } else {
        None
    }
}

/// Allocation in a bump block: below the cursor if it fits, else in the
/// next hole below the current limit.
pub open spec fn down_alloc(b: BumpV, size: usize) -> Result<(BumpV, usize), BlockError> {
    match bump_down(b, size as int) {
        Some(p) => Ok((BumpV { cursor: p, ..b }, p)),
        None => if b.limit > 0 {
            match hole_below(
                b.marks,
                (b.limit / LINE_SIZE) as int,
                0,
                (b.limit / LINE_SIZE) as int,
                lines_for(size as int),
            ) {
                Some((c, l)) => match bump_down(BumpV { cursor: c as usize, limit: l as usize, ..b }, size as int) {
                    Some(p) => Ok((BumpV { cursor: p, limit: l as usize, ..b }, p)),
                    None => Err(BlockError::NoSpaceForAllocation),
                },
                None => Err(BlockError::NoSpaceForAllocation),
            }
        } else {
            Err(BlockError::NoSpaceForAllocation)
        },
    }
}

/// Two allocations made one after the other in a bump block never overlap:
/// the second ends at or below the start of the first.
pub proof fn law_down_alloc_disjoint(b: BumpV, s1: usize, s2: usize)
    requires
        b.limit <= b.cursor <= BLOCK_CAPACITY,
        b.marks.len() == LINE_COUNT,
        down_alloc(b, s1) is Ok,
        down_alloc(down_alloc(b, s1)->Ok_0.0, s2) is Ok,
    ensures
        ({
            let p1 = down_alloc(b, s1)->Ok_0.1;
            let p2 = down_alloc(down_alloc(b, s1)->Ok_0.0, s2)->Ok_0.1;
            p2 + s2 <= p1
        }),
{
    let (b1, p1) = down_alloc(b, s1)->Ok_0;
    if bump_down(b, s1 as int) is None {
        let start = (b.limit / LINE_SIZE) as int;
        lemma_hole_below_bounds(b.marks, start, 0, start, lines_for(s1 as int));
    }
    assert(b1.limit <= p1 && b1.cursor == p1);
    if bump_down(b1, s2 as int) is None {
        let start = (b1.limit / LINE_SIZE) as int;
        lemma_hole_below_bounds(b1.marks, start, 0, start, lines_for(s2 as int));
    }
}

/// Every allocation made in a downward bump block lies at or above its
/// cursor.
pub open spec fn allocs_above(b: BumpV, allocs: Seq<(usize, usize)>) -> bool {
    forall|i: int, x: int| 0 <= i < allocs.len() && #[trigger] in_alloc(allocs[i], x) ==> b.cursor <= x
}

/// A new allocation in a downward bump block overlaps none of those made
/// in it before, and lies above the new cursor with them: so all
/// allocations of a block are pairwise disjoint.
pub proof fn law_down_alloc_placed(b: BumpV, allocs: Seq<(usize, usize)>, s: usize)
    requires
        b.limit <= b.cursor <= BLOCK_CAPACITY,
        b.marks.len() == LINE_COUNT,
        allocs_above(b, allocs),
        down_alloc(b, s) is Ok,
    ensures
        ({
            let (b1, p) = down_alloc(b, s)->Ok_0;
            &&& forall|i: int, x: int| 0 <= i < allocs.len() && #[trigger] in_alloc(allocs[i], x) ==> !in_alloc((p, s), x)
            &&& b1.limit <= b1.cursor <= BLOCK_CAPACITY
            &&& b1.marks == b.marks
            &&& allocs_above(b1, allocs.push((p, s)))
        }),
{
    let (b1, p) = down_alloc(b, s)->Ok_0;
    if bump_down(b, s as int) is None {
        let start = (b.limit / LINE_SIZE) as int;
        lemma_hole_below_bounds(b.marks, start, 0, start, lines_for(s as int));
    }
    assert(p + s <= b.cursor && b1.cursor == p);
    assert forall|i: int, x: int|
        0 <= i < allocs.push((p, s)).len() && #[trigger] in_alloc(allocs.push((p, s))[i], x) implies b1.cursor
        <= x by {
        if i < allocs.len() {
            assert(allocs.push((p, s))[i] == allocs[i]);
            assert(in_alloc(allocs[i], x));
        } else {
            assert(allocs.push((p, s))[i] == (p, s));
        }
    }
}

#[derive(Debug)]
pub struct BumpBlock {
    /// offset of the last written object
    cursor: usize,
    /// offset below which the current hole ends
    limit: usize,
    /// memory block
    block: Block,
    /// line mark data
    meta: BlockMeta,
}

impl View for BumpBlock {
    type V = BumpV;

    closed spec fn view(&self) -> BumpV {
        BumpV { cursor: self.cursor, limit: self.limit, marks: self.meta@ }
    }
}

impl BumpBlock {
    pub closed spec fn wf(&self) -> bool {
        &&& self.meta.wf()
        &&& self.limit <= self.cursor <= BLOCK_CAPACITY
    }

    /// A fresh block: its cursor at the top of the data, its limit at the
    /// bottom, every line free.
    pub fn new() -> (res: Result<Self, BlockError>)
        ensures
            match res {
                Ok(b) => b.wf() && b@ == (BumpV {
                    cursor: BLOCK_CAPACITY,
                    limit: 0,
                    marks: Seq::new(LINE_COUNT as nat, |i: int| 0u8),
                }),
                Err(e) => e is OutOfMemory,
            },
    {
        proof {
            reveal_with_fuel(is_pow2, 16);
        }
        let inner_block = Block::new(BLOCK_SIZE)?;
        Ok(BumpBlock { cursor: BLOCK_CAPACITY, limit: 0, block: inner_block, meta: BlockMeta::new() })
    }

    /// Bump downward where the allocation fits.
    fn try_bump(&mut self, alloc_size: usize) -> (res: Option<usize>)
        requires
            old(self).wf(),
        ensures
            final(self).wf(),
            match bump_down(old(self)@, alloc_size as int) {
                Some(p) => res == Some(p) && final(self)@ == (BumpV { cursor: p, ..old(self)@ }),
                None => res is None && final(self)@ == old(self)@,
            },
    {
        if alloc_size > self.cursor {
            return None;
        }
        let next_pos = self.cursor - alloc_size;
        // align down to word boundary
        let next_ptr = next_pos & ALIGN_MASK;
        assert(next_pos & !15usize == next_pos - next_pos % 16) by (bit_vector);
        if next_ptr < self.limit {
            None
        } else {
            self.cursor = next_ptr;
            Some(next_ptr)
        }
    }

    /// Allocate `alloc_size` bytes below the cursor, or in the next hole
    /// below the limit; gives the offset of the space.
    pub fn inner_alloc(&mut self, alloc_size: usize) -> (res: Result<usize, BlockError>)
        requires
            old(self).wf(),
        ensures
            final(self).wf(),
            final(self)@.limit <= final(self)@.cursor <= BLOCK_CAPACITY,
            final(self)@.marks.len() == LINE_COUNT,
            match down_alloc(old(self)@, alloc_size) {
                Ok((b, p)) => final(self)@ == b && res == Ok::<usize, BlockError>(p),
                Err(e) => final(self)@ == old(self)@ && res == Err::<usize, BlockError>(e),
            },
    {
        proof {
            self.meta.lemma_lines();
        }
        if let Some(p) = self.try_bump(alloc_size) {
            return Ok(p);
        }
        let block_relative_limit = self.limit;
        if block_relative_limit > 0 {
            if alloc_size > usize::MAX - (LINE_SIZE - 1) {
                proof {
                    lemma_hole_below_none(
                        self@.marks,
                        (self@.limit / LINE_SIZE) as int,
                        0,
                        (self@.limit / LINE_SIZE) as int,
                        lines_for(alloc_size as int),
                    );
                }
                return Err(BlockError::NoSpaceForAllocation);
            }
            if let Some(Hole { cursor, limit }) = self.meta.find_next_hole(block_relative_limit, alloc_size) {
                proof {
                    lemma_hole_below_bounds(
                        self@.marks,
                        (self@.limit / LINE_SIZE) as int,
                        0,
                        (self@.limit / LINE_SIZE) as int,
                        lines_for(alloc_size as int),
                    );
                }
                let (old_cursor, old_limit) = (self.cursor, self.limit);
                self.cursor = cursor;
                self.limit = limit;
                match self.try_bump(alloc_size) {
                    Some(p) => return Ok(p),
                    None => {
                        self.cursor = old_cursor;
                        self.limit = old_limit;
                    },
                }
            }
        }
        // There is no space in block for this allocation
        Err(BlockError::NoSpaceForAllocation)
    }

    /// Bytes between the cursor and the limit.
    pub fn current_hole_size(&self) -> (res: usize)
        requires
            self.wf(),
        ensures
            res == self@.cursor - self@.limit,
    {
        self.cursor - self.limit
    }
}

} // verus!
