use vstd::prelude::*;

use super::errors::BlockError;
use crate::allocator::immix::memory::block::Block;
use crate::immix::blocks::is_pow2;
use crate::utils::word_bytes;

verus! {

/// 0x8000  32768 (Byte)
pub const BLOCK_SIZE: usize = 0x8000;

/// 0x80    128   (Byte)
pub const LINE_SIZE: usize = 0x80;

/// 0x100   256
pub const LINE_COUNT: usize = 0x100;

/// 0x7F00  32512 (Byte)
pub const BLOCK_CAPACITY: usize = 0x7F00;

/// Line marks of a block, one byte per line: zero for a free line.
#[derive(Debug)]
pub struct BlockMeta {
    lines: Vec<u8>,
}

#[derive(Debug)]
pub struct Hole {
    pub cursor: usize,
    pub limit: usize,
}

impl View for BlockMeta {
    type V = Seq<u8>;

    closed spec fn view(&self) -> Seq<u8> {
        self.lines@
    }
}

/// Lines needed for `size` bytes.
pub open spec fn lines_for(size: int) -> int {
    (size + LINE_SIZE - 1) / (LINE_SIZE as int)
}

/// The downward search for a hole below line `index`: `count` free lines
/// have been seen since the last marked line, which is `end` (or where the
/// search began). A run that reaches line zero is a hole where it has
/// `req` lines; one that stops at a marked line is a hole where it has
/// more than `req`, and then the line just above the marked one is kept
/// out as conservatively marked. A hole is given as its top and bottom
/// byte offsets.
pub open spec fn hole_below(m: Seq<u8>, index: int, count: int, end: int, req: int) -> Option<(int, int)>
    decreases index,
{
    if index <= 0 {
        None
    } else if m[index - 1] == 0 {
        if index - 1 == 0 && count + 1 >= req {
            Some((end * LINE_SIZE, 0))
        } else {
            hole_below(m, index - 1, count + 1, end, req)
        }
    } else if count > req {
        Some((end * LINE_SIZE, (index + 1) * LINE_SIZE))
    } else {
        hole_below(m, index - 1, 0, index - 1, req)
    }
}

/// The downward search misses no free bottom: when every line below the
/// starting line is free and there are as many of them as the request
/// needs (or more), the hole found runs from the starting line down to
/// line zero. A run that reaches line zero with exactly the lines asked for
/// is a hole.
pub proof fn law_hole_below_free_bottom(m: Seq<u8>, start: int, req: int)
    requires
        1 <= start <= m.len(),
        req <= start,
        forall|i: int| 0 <= i < start ==> m[i] == 0,
    ensures
        hole_below(m, start, 0, start, req) == Some((start * LINE_SIZE, 0int)),
{
    lemma_hole_below_free_bottom(m, start, start, req);
}

proof fn lemma_hole_below_free_bottom(m: Seq<u8>, index: int, start: int, req: int)
    requires
        1 <= index <= start <= m.len(),
        req <= start,
        forall|i: int| 0 <= i < start ==> m[i] == 0,
    ensures
        hole_below(m, index, start - index, start, req) == Some((start * LINE_SIZE, 0int)),
    decreases index,
{
    if index - 1 > 0 {
        lemma_hole_below_free_bottom(m, index - 1, start, req);
    }
}

/// The downward search takes the free run just below the starting line
/// when it is long enough: with lines `k + 1 ..` below the start free and
/// line `k` marked, a run of more lines than asked for is the hole from the
/// start down to the line above `k + 1` (that line kept out as
/// conservatively marked).
pub proof fn law_hole_below_top_run(m: Seq<u8>, start: int, k: int, req: int)
    requires
        0 <= k < start <= m.len(),
        m[k] != 0,
        forall|i: int| k < i < start ==> m[i] == 0,
        req < start - k - 1,
    ensures
        hole_below(m, start, 0, start, req) == Some((start * LINE_SIZE, (k + 2) * LINE_SIZE)),
{
    lemma_hole_below_top_run(m, start, start, k, req);
}

proof fn lemma_hole_below_top_run(m: Seq<u8>, index: int, start: int, k: int, req: int)
    requires
        0 <= k < index <= start <= m.len(),
        m[k] != 0,
        forall|i: int| k < i < start ==> m[i] == 0,
        req < start - k - 1,
    ensures
        hole_below(m, index, start - index, start, req) == Some((start * LINE_SIZE, (k + 2) * LINE_SIZE)),
    decreases index - k,
{
    if index - 1 > k {
        lemma_hole_below_top_run(m, index - 1, start, k, req);
    }
}

/// A hole the downward search finds is one: its bounds are line
/// boundaries, its lines are all free, and it holds at least the lines
/// asked for (a hole stopped by a marked line keeps the line above it out).
pub proof fn law_hole_below_sound(m: Seq<u8>, start: int, req: int)
    requires
        0 <= start <= m.len(),
        0 <= req,
    ensures
        hole_below(m, start, 0, start, req) matches Some((c, l)) ==> {
            &&& l % (LINE_SIZE as int) == 0 && c % (LINE_SIZE as int) == 0
            &&& 0 <= l <= c <= start * LINE_SIZE
            &&& c - l >= req * LINE_SIZE
            &&& forall|i: int| l / (LINE_SIZE as int) <= i < c / (LINE_SIZE as int) ==> m[i] == 0
        },
{
    lemma_hole_below_sound(m, start, 0, start, req);
}

/// A line number times the line size is a line boundary of that line.
proof fn lemma_line_bound(n: int)
    ensures
        (n * LINE_SIZE) % (LINE_SIZE as int) == 0,
        (n * LINE_SIZE) / (LINE_SIZE as int) == n,
{
    assert((n * 128) % 128 == 0 && (n * 128) / 128 == n) by (nonlinear_arith);
}

proof fn lemma_hole_below_sound(m: Seq<u8>, index: int, count: int, end: int, req: int)
    requires
        0 <= index <= end <= m.len(),
        0 <= req,
        count == end - index,
        forall|i: int| index <= i < end ==> m[i] == 0,
    ensures
        hole_below(m, index, count, end, req) matches Some((c, l)) ==> {
            &&& l % (LINE_SIZE as int) == 0 && c % (LINE_SIZE as int) == 0
            &&& 0 <= l <= c <= end * LINE_SIZE
            &&& c - l >= req * LINE_SIZE
            &&& forall|i: int| l / (LINE_SIZE as int) <= i < c / (LINE_SIZE as int) ==> m[i] == 0
        },
    decreases index,
{
    lemma_line_bound(end);
    lemma_line_bound(index + 1);
    if index > 0 {
        if m[index - 1] == 0 {
            if !(index - 1 == 0 && count + 1 >= req) {
                lemma_hole_below_sound(m, index - 1, count + 1, end, req);
            }
        } else if count > req {
            assert(end - (index + 1) >= req);
        } else {
            lemma_hole_below_sound(m, index - 1, 0, index - 1, req);
            let r = hole_below(m, index - 1, 0, index - 1, req);
            if let Some((c, l)) = r {
                assert(c <= (index - 1) * LINE_SIZE);
            }
        }
    }
}

/// No hole is found for more lines than there are left to scan.
pub proof fn lemma_hole_below_none(m: Seq<u8>, index: int, count: int, end: int, req: int)
    requires
        0 <= count,
        req > index + count,
    ensures
        hole_below(m, index, count, end, req) is None,
    decreases index,
{
    if index > 0 {
        if m[index - 1] == 0 {
            lemma_hole_below_none(m, index - 1, count + 1, end, req);
        } else {
            lemma_hole_below_none(m, index - 1, 0, index - 1, req);
        }
    }
}

/// A hole found lies below where the search began.
pub proof fn lemma_hole_below_bounds(m: Seq<u8>, index: int, count: int, end: int, req: int)
    requires
        0 <= index,
        0 <= count,
        index + count <= end,
        0 <= req,
    ensures
        hole_below(m, index, count, end, req) matches Some((c, l)) ==> 0 <= l <= c <= end
            * LINE_SIZE,
    decreases index,
{
    if index > 0 {
        if m[index - 1] == 0 {
            lemma_hole_below_bounds(m, index - 1, count + 1, end, req);
        } else {
            lemma_hole_below_bounds(m, index - 1, 0, index - 1, req);
        }
    }
}

impl BlockMeta {
    pub closed spec fn wf(&self) -> bool {
        self.lines@.len() == LINE_COUNT
    }

    /// Well-formed marks have a mark per line.
    pub proof fn lemma_lines(&self)
        requires
            self.wf(),
        ensures
            self@.len() == LINE_COUNT,
    {
    }

    /// Line marks with every line free.
    pub fn new() -> (res: BlockMeta)
        ensures
            res.wf(),
            res@ == Seq::new(LINE_COUNT as nat, |i: int| 0u8),
    {
        let mut lines: Vec<u8> = Vec::new();
        let mut i: usize = 0;
        while i < LINE_COUNT
            invariant
                i <= LINE_COUNT,
                lines@ == Seq::new(i as nat, |j: int| 0u8),
            decreases LINE_COUNT - i,
        {
            lines.push(0);
            i = i + 1;
        }
        BlockMeta { lines }
    }

    /// search hole downward
    pub fn find_next_hole(&self, starting_at: usize, alloc_size: usize) -> (res: Option<Hole>)
        requires
            self.wf(),
            starting_at <= BLOCK_SIZE,
            alloc_size + LINE_SIZE - 1 <= usize::MAX,
        ensures
            match hole_below(
                self@,
                (starting_at / LINE_SIZE) as int,
                0,
                (starting_at / LINE_SIZE) as int,
                lines_for(alloc_size as int),
            ) {
                Some((c, l)) => res matches Some(h) && h.cursor == c && h.limit == l,
                None => res is None,
            },
    {
        // The count of consecutive available lines.
        let mut count: usize = 0;
        let starting_line = starting_at / LINE_SIZE;
        // ceil up to LINE_SIZE
        let lines_required = (alloc_size + (LINE_SIZE - 1)) / LINE_SIZE;
        let mut end = starting_line;
        let mut index = starting_line;
        let ghost req = lines_required as int;
        while index > 0
            invariant
                self.wf(),
                starting_line == starting_at / LINE_SIZE,
                starting_line <= LINE_COUNT,
                req == lines_required,
                req == lines_for(alloc_size as int),
                index <= end <= starting_line,
                count <= end - index,
                hole_below(self@, starting_line as int, 0, starting_line as int, req) == hole_below(
                    self@,
                    index as int,
                    count as int,
                    end as int,
                    req,
                ),
            decreases index,
        {
            let i = index - 1;
            let marked = self.lines[i];
            if marked == 0 {
                // Count unmarked lines
                count = count + 1;
                if i == 0 && count >= lines_required {
                    // We reached line zero and have the space
                    return Some(Hole { cursor: end * LINE_SIZE, limit: i * LINE_SIZE });
                }
            } else {
                // This line is marked
                if count > lines_required {
                    // keep the line just above the marked one out, as
                    // conservatively marked
                    return Some(Hole { cursor: end * LINE_SIZE, limit: (i + 2) * LINE_SIZE });
                }
                // There was no consecutive space, so reset the search.
                count = 0;
                end = i;
            }
            index = i;
        }
        None
    }

    /// Reset all mark flags to unmarked.
    pub fn reset(&mut self)
        requires
            old(self).wf(),
        ensures
            final(self).wf(),
            final(self)@ == Seq::new(LINE_COUNT as nat, |i: int| 0u8),
    {
        let mut idx: usize = 0;
        while idx < LINE_COUNT
            invariant
                self.wf(),
                idx <= LINE_COUNT,
                forall|i: int| 0 <= i < idx ==> self.lines@[i] == 0u8,
            decreases LINE_COUNT - idx,
        {
            self.lines.set(idx, 0);
            idx = idx + 1;
        }
        assert(self@ =~= Seq::new(LINE_COUNT as nat, |i: int| 0u8));
    }

    /// Mark the indexed line
    pub fn mark_line(&mut self, idx: usize)
        requires
            old(self).wf(),
            idx < LINE_COUNT,
        ensures
            final(self).wf(),
            final(self)@ == old(self)@.update(idx as int, 1u8),
    {
        self.lines.set(idx, 1);
    }

    /// Mark the entire block: its last line holds the block's mark.
    pub fn mark_block(&mut self, idx: usize)
        requires
            old(self).wf(),
        ensures
            final(self).wf(),
            final(self)@ == old(self)@.update(LINE_COUNT - 1, 1u8),
    {
        self.lines.set(LINE_COUNT - 1, 1);
    }
}

/// A downward bump block as a value: cursor, limit and the block's start,
/// all addresses.
pub struct BumpAt {
    pub cursor: usize,
    pub limit: usize,
    pub start: usize,
}

/// Round `x` down to a multiple of the machine word.
pub open spec fn word_down(x: int) -> int {
    x - x % (word_bytes() as int)
}

/// Allocation of `size` bytes: the cursor moves down by `size` and then to
/// the word boundary below; that address is the allocation. Moving below
/// zero is an address overflow, below the block's start a full block.
pub open spec fn word_bump(b: BumpAt, size: usize) -> Result<usize, BlockError> {
    if b.cursor < size {
        Err(BlockError::AddressOverflow)
    } else if word_down(b.cursor - size) < b.start {
        Err(BlockError::NoSpaceForAllocation)
    } else {
        Ok(word_down(b.cursor - size) as usize)
    }
}

/// Two allocations made one after the other never overlap: the second ends
/// at or below the start of the first, and both are word aligned and inside
/// the block.
pub proof fn law_word_bump_disjoint(b: BumpAt, s1: usize, s2: usize)
    requires
        word_bump(b, s1) is Ok,
        word_bump(BumpAt { cursor: word_bump(b, s1)->Ok_0, ..b }, s2) is Ok,
    ensures
        ({
            let p1 = word_bump(b, s1)->Ok_0;
            let p2 = word_bump(BumpAt { cursor: p1, ..b }, s2)->Ok_0;
            &&& p2 + s2 <= p1
            &&& p1 + s1 <= b.cursor
            &&& b.start <= p2
            &&& (p1 as int) % (word_bytes() as int) == 0 && (p2 as int) % (word_bytes() as int) == 0
        }),
{
    let p1 = word_bump(b, s1)->Ok_0;
    lemma_word_down(b.cursor - s1);
    lemma_word_down(p1 - s2);
}

/// Rounding down to the word moves back less than a word and gives a
/// multiple of it.
pub proof fn lemma_word_down(x: int)
    requires
        x >= 0,
    ensures
        0 <= x - word_down(x) < word_bytes(),
        word_down(x) % (word_bytes() as int) == 0,
{
    assert(usize::BITS == 32 || usize::BITS == 64);
    if usize::BITS == 64 {
        assert(word_bytes() == 8);
        assert((x - x % 8) % 8 == 0);
    } else {
        assert(word_bytes() == 4);
        assert((x - x % 4) % 4 == 0);
    }
}

pub struct BumpBlock {
    /// address of the last written object
    cursor: usize,
    /// address of the bottom of the current hole
    limit: usize,
    /// address of the block's start
    start: usize,
    /// memory block
    block: Block,
    /// line mark data
    meta: BlockMeta,
}

impl View for BumpBlock {
    type V = BumpAt;

    closed spec fn view(&self) -> BumpAt {
        BumpAt { cursor: self.cursor, limit: self.limit, start: self.start }
    }
}

impl BumpBlock {
    pub closed spec fn wf(&self) -> bool {
        &&& self.meta.wf()
        &&& self.start <= self.cursor
    }

    /// The line marks of the block.
    pub closed spec fn marks(&self) -> Seq<u8> {
        self.meta@
    }

    /// A block of memory whose start is at address `start`: the cursor at
    /// the top of its data, the limit at its start, every line free. The
    /// memory may be refused.
    pub fn new(start: usize) -> (res: Result<Self, BlockError>)
        requires
            start <= usize::MAX - BLOCK_SIZE,
        ensures
            match res {
                Ok(b) => b.wf() && b@ == (BumpAt { cursor: (start + BLOCK_CAPACITY) as usize, limit: start, start })
                    && b.marks() == Seq::new(LINE_COUNT as nat, |i: int| 0u8),
                Err(e) => e is OutOfMemory,
            },
    {
        proof {
            reveal_with_fuel(is_pow2, 16);
        }
        let block = Block::new(BLOCK_SIZE)?;
        Ok(BumpBlock { cursor: start + BLOCK_CAPACITY, limit: start, start, block, meta: BlockMeta::new() })
    }

    /// Allocate `alloc_size` bytes below the cursor, aligned down to the
    /// machine word; gives the address of the space.
    pub fn inner_alloc(&mut self, alloc_size: usize) -> (res: Result<usize, BlockError>)
        requires
            old(self).wf(),
        ensures
            final(self).wf(),
            final(self).marks() == old(self).marks(),
            res == word_bump(old(self)@, alloc_size),
            match res {
                Ok(p) => final(self)@ == (BumpAt { cursor: p, ..old(self)@ }) && old(self)@.start <= p && p
                    + alloc_size <= old(self)@.cursor && (p as int) % (word_bytes() as int) == 0,
                Err(_) => final(self)@ == old(self)@,
            },
    {
        let block_start_ptr = self.start;
        let cursor_ptr = self.cursor;
        let word = std::mem::size_of::<usize>();
        proof {
            broadcast use vstd::layout::layout_of_primitives;

            assert(word == word_bytes());
            assert(usize::BITS == 32 || usize::BITS == 64);
        }
        // align down to word boundary
        let align_mask: usize = !(word - 1);
        let next_pos = match cursor_ptr.checked_sub(alloc_size) {
            Some(p) => p,
            None => return Err(BlockError::AddressOverflow),
        };
        let next_ptr = next_pos & align_mask;
        proof {
            if word == 8 {
                assert(next_pos & !7usize == next_pos - next_pos % 8) by (bit_vector);
            } else {
                assert(next_pos & !3usize == next_pos - next_pos % 4) by (bit_vector);
            }
        }
        proof {
            lemma_word_down(next_pos as int);
        }
        if next_ptr < block_start_ptr {
            // the allocation would start below the block: no space in the
            // block for it
            Err(BlockError::NoSpaceForAllocation)
        } else {
            self.cursor = next_ptr;
            Ok(next_ptr)
        }
    }
}

} // verus!
