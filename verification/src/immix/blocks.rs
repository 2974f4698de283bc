// Block Layout
//
// Addr   Line  |-------256 byte--------|
// 0xFF00 FF    | MARK BITS             |
// --------------------------------------
// 0xFE00 FE    | DATA                  |
// ......................................
// 0x0000 0     |_______________________|
//
// Positions inside a block are byte offsets from its start; the line marks
// are held beside the data.
use vstd::prelude::*;

use super::errors::BlockError;
use super::errors::AllocError;
use super::ptr::{block_of, MetaPtr, PairPtr, OR};
use std::collections::{HashMap, VecDeque};
use super::mark::Mark;
use super::size::{size_class, SizeClass};
use crate::utils::{decimal, push_decimal};

verus! {

broadcast use {vstd::std_specs::hash::group_hash_axioms, vstd::std_specs::vecdeque::group_vec_dequeue_axioms};

/// 0x10000  65536 (Byte)
pub const BLOCK_SIZE: usize = 0x10000;

/// 0x100    256   (Byte)
pub const LINE_SIZE: usize = 0x100;

/// 0x100    256
pub const LINE_COUNT: usize = 0x100;

/// 0xFF00   65280 (Byte)
pub const BLOCK_CAPACITY: usize = 0xFF00;

pub const LINE_MARK_START: usize = BLOCK_CAPACITY;

/// 0xFF     255
pub const ALIGN_WORD: usize = 0xFF;

/// 0xFFFF..00
pub const ALIGN_MASK: usize = !ALIGN_WORD;

pub type BlockSize = usize;

/// `x` is a power of two.
pub open spec fn is_pow2(x: nat) -> bool
    decreases x,
{
    if x <= 1 {
        x == 1
    } else {
        x % 2 == 0 && is_pow2(x / 2)
    }
}

/// Whether `x` is a power of two.
pub fn is_power_of_two(x: usize) -> (res: bool)
    ensures
        res == is_pow2(x as nat),
{
    let mut v = x;
    while v > 1 && v % 2 == 0
        invariant
            is_pow2(x as nat) == is_pow2(v as nat),
        decreases v,
    {
        v = v / 2;
    }
    v == 1
}

/// Reserve `size` bytes of memory; fails where the allocator refuses.
fn alloc_memory(size: usize) -> (res: Result<Vec<u8>, BlockError>)
    ensures
        res matches Err(e) ==> e is OutOfMemory,
{
    let mut memory: Vec<u8> = Vec::new();
    match memory.try_reserve(size) {
        Ok(()) => Ok(memory),
        Err(_) => Err(BlockError::OutOfMemory),
    }
}

/// A block of memory whose size is a power of two.
#[derive(Debug)]
pub struct Block {
    memory: Vec<u8>,
    pub size: BlockSize,
}

impl Block {
    /// The block's size in bytes.
    pub closed spec fn spec_size(&self) -> usize {
        self.size
    }

    /// create new memory block.
    ///
    /// # Errors
    /// This function will return an error if [size] is not a power of two
    /// or cannot allocate memory
    pub fn new(size: BlockSize) -> (res: Result<Self, BlockError>)
        ensures
            match res {
                Ok(b) => is_pow2(size as nat) && b.spec_size() == size,
                Err(e) => if is_pow2(size as nat) {
                    e is OutOfMemory
                } else {
                    e == BlockError::BadSize(size)
                },
            },
    {
        if !is_power_of_two(size) {
            return Err(BlockError::BadSize(size));
        }
        let memory = Self::alloc_block(size)?;
        Ok(Block { memory, size })
    }

    /// allocate the block's memory.
    fn alloc_block(size: BlockSize) -> (res: Result<Vec<u8>, BlockError>)
        ensures
            res matches Err(e) ==> e is OutOfMemory,
    {
        alloc_memory(size)
    }

    /// Give the block's memory back.
    pub fn dealloc_block(self) {
    }
}

/// Line marks of a block, one per line.
#[derive(Debug)]
pub struct BlockMeta {
    lines: Vec<Mark>,
}

#[derive(Debug)]
pub struct Hole {
    pub start: usize,
    pub end: usize,
}

impl View for BlockMeta {
    type V = Seq<Mark>;

    closed spec fn view(&self) -> Seq<Mark> {
        self.lines@
    }
}

/// `m` with the lines `low..=high` set to `v`.
pub open spec fn set_range(m: Seq<Mark>, low: int, high: int, v: Mark) -> Seq<Mark> {
    Seq::new(m.len(), |i: int| if low <= i <= high { v } else { m[i] })
}

/// Lines needed for `size` bytes.
pub open spec fn lines_for(size: nat) -> nat {
    ((size + LINE_SIZE - 1) / (LINE_SIZE as int)) as nat
}

/// Count of unmarked lines right before line `j`, not reaching below `lo`.
pub open spec fn run_len(m: Seq<Mark>, lo: int, j: int) -> nat
    decreases j - lo,
{
    if j <= lo || m[j - 1] != Mark::Unmarked {
        0
    } else {
        1 + run_len(m, lo, j - 1)
    }
}

/// The first hole at or after line `j`: a run of at least `req` unmarked
/// lines (starting no lower than `lo`) that ends at a line that is not
/// unmarked; given as its first line and that ending line.
pub open spec fn first_hole(m: Seq<Mark>, lo: int, j: int, req: int) -> Option<(int, int)>
    decreases m.len() - j,
{
    if j < 0 || j >= m.len() {
        None
    } else if m[j] != Mark::Unmarked && run_len(m, lo, j) >= req {
        Some((j - run_len(m, lo, j), j))
    } else {
        first_hole(m, lo, j + 1, req)
    }
}

/// The character that shows a mark.
pub open spec fn mark_flag(m: Mark) -> char {
    match m {
        Mark::Unmarked => '-',
        Mark::Allocated => 'A',
        Mark::Marked => 'M',
    }
}

/// The text of line `idx` in the mark report: its flag, a space after
/// every eighth line, and after every sixty-fourth its index and a newline.
pub open spec fn status_piece(m: Seq<Mark>, idx: nat) -> Seq<char> {
    seq![mark_flag(m[idx as int])] + (if (idx + 1) % 8 == 0 {
        seq![' ']
    } else {
        Seq::empty()
    }) + (if (idx + 1) % 64 == 0 {
        seq![' '] + decimal(idx) + seq!['\n']
    } else {
        Seq::empty()
    })
}

/// The mark report of the first `n` lines.
pub open spec fn status_text(m: Seq<Mark>, n: nat) -> Seq<char>
    decreases n,
{
    if n == 0 {
        Seq::empty()
    } else {
        status_text(m, (n - 1) as nat) + status_piece(m, (n - 1) as nat)
    }
}

/// One row of the row-wise mark report: the flags of lines
/// `64 * row .. 64 * row + k`, a space after every eighth.
pub open spec fn row_flags(m: Seq<Mark>, row: nat, k: nat) -> Seq<char>
    decreases k,
{
    if k == 0 {
        Seq::empty()
    } else {
        row_flags(m, row, (k - 1) as nat) + seq![mark_flag(m[(row * 64 + k - 1) as int])] + (if k
            % 8 == 0 {
            seq![' ']
        } else {
            Seq::empty()
        })
    }
}

/// Row `row` of the row-wise mark report, ended by the index of its last line.
pub open spec fn status_row(m: Seq<Mark>, row: nat) -> Seq<char> {
    row_flags(m, row, 64) + decimal(((row + 1) * 64 - 1) as nat)
}

fn flag_str(m: Mark) -> (res: &'static str)
    ensures
        res@ == seq![mark_flag(m)],
{
    proof {
        reveal_strlit("-");
        reveal_strlit("A");
        reveal_strlit("M");
    }
    match m {
        Mark::Unmarked => "-",
        Mark::Allocated => "A",
        Mark::Marked => "M",
    }
}

impl BlockMeta {
    pub closed spec fn wf(&self) -> bool {
        self.lines@.len() == LINE_COUNT
    }

    /// Creates a new [`BlockMeta`] with every line unmarked.
    pub fn new() -> (res: BlockMeta)
        ensures
            res.wf(),
            res@ == Seq::new(LINE_COUNT as nat, |i: int| Mark::Unmarked),
    {
        let mut lines: Vec<Mark> = Vec::new();
        let mut i: usize = 0;
        while i < LINE_COUNT
            invariant
                i <= LINE_COUNT,
                lines@ == Seq::new(i as nat, |j: int| Mark::Unmarked),
            decreases LINE_COUNT - i,
        {
            lines.push(Mark::Unmarked);
            i = i + 1;
        }
        BlockMeta { lines }
    }

    /// search hole upward
    pub fn find_hole(&self, start_byte: usize, alloc_size: usize) -> (res: Option<Hole>)
        requires
            self.wf(),
            alloc_size + LINE_SIZE - 1 <= usize::MAX,
        ensures
            match first_hole(
                self@,
                (start_byte / LINE_SIZE) as int,
                (start_byte / LINE_SIZE) as int,
                lines_for(alloc_size as nat) as int,
            ) {
                Some((s, e)) => res matches Some(h) && h.start == s && h.end == e,
                None => res is None,
            },
    {
        let ghost m = self@;
        // The count of consecutive available lines.
        let mut count: usize = 0;
        let starting_line = start_byte / LINE_SIZE;
        // ceil up to LINE_SIZE
        let lines_required = (alloc_size + (LINE_SIZE - 1)) / LINE_SIZE;
        let ghost req = lines_required as int;
        let ghost sl = starting_line as int;
        let end = LINE_COUNT;
        let mut index = starting_line;
        while index < end
            invariant
                m == self@,
                self.wf(),
                end == LINE_COUNT,
                sl == starting_line,
                starting_line == start_byte / LINE_SIZE,
                req == lines_required,
                sl <= index,
                count == run_len(m, sl, index as int),
                count <= index - sl,
                count <= LINE_COUNT,
                req == lines_for(alloc_size as nat),
                first_hole(m, sl, sl, req) == first_hole(m, sl, index as int, req),
            decreases end - index,
        {
            let marked = self.lines[index];
            if marked == Mark::Unmarked {
                count = count + 1;
            } else {
                if count >= lines_required {
                    assert(first_hole(m, sl, index as int, req) == Some(
                        ((index - count) as int, index as int),
                    ));
                    return Some(Hole { start: index - count, end: index });
                }
                count = 0;
            }
            index = index + 1;
        }
        None
    }

    /// Reset all mark flags to unmarked.
    pub fn reset(&mut self)
        requires
            old(self).wf(),
        ensures
            final(self).wf(),
            final(self)@ == Seq::new(LINE_COUNT as nat, |i: int| Mark::Unmarked),
    {
        self.set_mark_range(&Mark::Unmarked, 0, LINE_COUNT - 1);
        assert(self@ =~= Seq::new(LINE_COUNT as nat, |i: int| Mark::Unmarked));
    }

    /// Mark the indexed line
    pub fn mark_line(&mut self, idx: usize)
        requires
            old(self).wf(),
            idx < LINE_COUNT,
        ensures
            final(self).wf(),
            final(self)@ == old(self)@.update(idx as int, Mark::Marked),
    {
        self.set_mark_line(&Mark::Marked, idx);
    }

    /// Mark the range, caller must check low and high is safe
    pub fn mark_range(&mut self, low: usize, high: usize)
        requires
            old(self).wf(),
            high < LINE_COUNT,
        ensures
            final(self).wf(),
            final(self)@ == set_range(old(self)@, low as int, high as int, Mark::Marked),
    {
        self.set_mark_range(&Mark::Marked, low, high);
    }

    /// Unmark the indexed line
    pub fn unmark_line(&mut self, idx: usize)
        requires
            old(self).wf(),
            idx < LINE_COUNT,
        ensures
            final(self).wf(),
            final(self)@ == old(self)@.update(idx as int, Mark::Unmarked),
    {
        self.set_mark_line(&Mark::Unmarked, idx);
    }

    /// Unmark the range, caller must check low and high is safe
    pub fn unmark_range(&mut self, low: usize, high: usize)
        requires
            old(self).wf(),
            high < LINE_COUNT,
        ensures
            final(self).wf(),
            final(self)@ == set_range(old(self)@, low as int, high as int, Mark::Unmarked),
    {
        self.set_mark_range(&Mark::Unmarked, low, high);
    }

    /// Set mark the indexed line
    pub fn set_mark_line(&mut self, mark: &Mark, idx: usize)
        requires
            old(self).wf(),
            idx < LINE_COUNT,
        ensures
            final(self).wf(),
            final(self)@ == old(self)@.update(idx as int, *mark),
    {
        self.lines.set(idx, *mark);
    }

    /// Set mark the range, caller must check low and high is safe
    pub fn set_mark_range(&mut self, mark: &Mark, low: usize, high: usize)
        requires
            old(self).wf(),
            high < LINE_COUNT,
        ensures
            final(self).wf(),
            final(self)@ == set_range(old(self)@, low as int, high as int, *mark),
    {
        if low > high {
            assert(self@ =~= set_range(old(self)@, low as int, high as int, *mark));
            return;
        }
        let mut idx = low;
        while idx <= high
            invariant
                self.wf(),
                high < LINE_COUNT,
                low <= idx,
                idx <= high + 1,
                self@ == set_range(old(self)@, low as int, idx - 1, *mark),
            decreases high + 1 - idx,
        {
            self.lines.set(idx, *mark);
            idx = idx + 1;
        }
        assert(self@ =~= set_range(old(self)@, low as int, high as int, *mark));
    }

    /// Returns the mark status str of this [`BlockMeta`].
    pub fn mark_status_str(&self) -> (res: String)
        requires
            self.wf(),
        ensures
            res@ == status_text(self@, LINE_COUNT as nat),
    {
        let mut buf = String::new();
        let mut idx: usize = 0;
        assert(buf@ =~= status_text(self@, 0));
        while idx < LINE_COUNT
            invariant
                self.wf(),
                idx <= LINE_COUNT,
                buf@ == status_text(self@, idx as nat),
            decreases LINE_COUNT - idx,
        {
            let ghost before = buf@;
            buf.append(flag_str(self.lines[idx]));
            if (idx + 1) % 8 == 0 {
                buf.append(" ");
            }
            if (idx + 1) % 64 == 0 {
                buf.append(" ");
                push_decimal(&mut buf, idx);
                buf.append("\n");
            }
            proof {
                reveal_strlit(" ");
                reveal_strlit("\n");
            }
            assert(buf@ =~= before + status_piece(self@, idx as nat));
            idx = idx + 1;
        }
        buf
    }

    /// The mark report in four rows of sixty-four lines.
    pub fn mark_status_vec_str(&self) -> (res: Vec<String>)
        requires
            self.wf(),
        ensures
            res@.len() == 4,
            forall|r: int| 0 <= r < 4 ==> #[trigger] res@[r]@ == status_row(self@, r as nat),
    {
        let mut vec: Vec<String> = Vec::new();
        let mut line: usize = 0;
        while line < 4
            invariant
                self.wf(),
                line <= 4,
                vec@.len() == line,
                forall|r: int| 0 <= r < line ==> #[trigger] vec@[r]@ == status_row(self@, r as nat),
            decreases 4 - line,
        {
            let mut buf = String::new();
            let mut idx: usize = 0;
            assert(buf@ =~= row_flags(self@, line as nat, 0));
            while idx < 64
                invariant
                    self.wf(),
                    line < 4,
                    idx <= 64,
                    buf@ == row_flags(self@, line as nat, idx as nat),
                decreases 64 - idx,
            {
                let ghost before = buf@;
                buf.append(flag_str(self.lines[line * 64 + idx]));
                if (idx + 1) % 8 == 0 {
                    buf.append(" ");
                }
                proof {
                    reveal_strlit(" ");
                }
                assert(buf@ =~= row_flags(self@, line as nat, (idx + 1) as nat));
                idx = idx + 1;
            }
            push_decimal(&mut buf, (line + 1) * 64 - 1);
            vec.push(buf);
            line = line + 1;
        }
        vec
    }

    pub fn is_marked(&self, idx: usize) -> (res: bool)
        requires
            self.wf(),
            idx < LINE_COUNT,
        ensures
            res == (self@[idx as int] == Mark::Marked),
    {
        self.lines[idx] == Mark::Marked
    }

    pub fn is_unmarked(&self, idx: usize) -> (res: bool)
        requires
            self.wf(),
            idx < LINE_COUNT,
        ensures
            res == (self@[idx as int] == Mark::Unmarked),
    {
        self.lines[idx] == Mark::Unmarked
    }

    /// Whether every line is unmarked.
    pub fn is_fresh(&self) -> (res: bool)
        requires
            self.wf(),
        ensures
            res == (forall|i: int| 0 <= i < LINE_COUNT ==> self@[i] == Mark::Unmarked),
    {
        let mut idx: usize = 0;
        while idx < LINE_COUNT
            invariant
                self.wf(),
                idx <= LINE_COUNT,
                forall|i: int| 0 <= i < idx ==> self@[i] == Mark::Unmarked,
            decreases LINE_COUNT - idx,
        {
            if self.lines[idx] != Mark::Unmarked {
                return false;
            }
            idx = idx + 1;
        }
        true
    }
}

/// Round `x` up to a multiple of the line size.
pub open spec fn line_round_up(x: int) -> int {
    ((x + LINE_SIZE - 1) / (LINE_SIZE as int)) * (LINE_SIZE as int)
}

/// A bump block as a value: the cursor and the limit of the current hole
/// (byte offsets), the line marks and the block's identity.
pub struct BumpV {
    pub cursor: usize,
    pub limit: usize,
    pub marks: Seq<Mark>,
    pub id: usize,
}

/// What an allocation gives: the new block state, the first and last line
/// it marks, and the offset of its data.
pub struct Bumped {
    pub block: BumpV,
    pub low: usize,
    pub high: usize,
    pub data: usize,
}

/// Bump `size` bytes at the cursor, if the end rounded up to a line stays
/// within the limit; the lines from the cursor's to the end's are marked
/// allocated and the cursor moves to the rounded end.
pub open spec fn bump_at(b: BumpV, size: nat) -> Option<Bumped> {
    let next_pos = b.cursor + size;
    let next_ptr = line_round_up(next_pos);
    if next_ptr <= b.limit {
        Some(
            Bumped {
                block: BumpV {
                    cursor: next_ptr as usize,
                    marks: set_range(
                        b.marks,
                        (b.cursor / LINE_SIZE) as int,
                        next_pos / (LINE_SIZE as int),
                        Mark::Allocated,
                    ),
                    ..b
                },
                low: (b.cursor / LINE_SIZE) as usize,
                high: (next_pos / (LINE_SIZE as int)) as usize,
                data: b.cursor,
            },
        )
    } else {
        None
    }
}

/// Allocation in a bump block: at the cursor if it fits, else at the start
/// of the first hole of the block that is long enough.
pub open spec fn bump_alloc(b: BumpV, size: usize) -> Result<Bumped, BlockError> {
    if b.cursor + size + LINE_SIZE - 1 > usize::MAX {
        Err(BlockError::AddressOverflow)
    } else {
        match bump_at(b, size as nat) {
            Some(r) => Ok(r),
            None => match first_hole(b.marks, 0, 0, lines_for(size as nat) as int) {
                Some((s, e)) => match bump_at(
                    BumpV { cursor: (s * LINE_SIZE) as usize, limit: (e * LINE_SIZE) as usize, ..b },
                    size as nat,
                ) {
                    Some(r) => Ok(r),
                    None => Err(BlockError::NoSpaceForAllocation),
                },
                None => Err(BlockError::NoSpaceForAllocation),
            },
        }
    }
}

/// The lines of a run are unmarked.
proof fn lemma_run_len_free(m: Seq<Mark>, lo: int, j: int)
    requires
        0 <= lo,
        j <= m.len(),
    ensures
        forall|i: int| j - run_len(m, lo, j) <= i < j ==> m[i] == Mark::Unmarked,
    decreases j - lo,
{
    if j > lo && m[j - 1] == Mark::Unmarked {
        lemma_run_len_free(m, lo, j - 1);
    }
}

/// A hole that the search finds is a run of at least the required number
/// of unmarked lines, ended by a line that is not unmarked.
pub proof fn lemma_first_hole_free(m: Seq<Mark>, lo: int, j: int, req: int)
    requires
        0 <= lo <= j,
    ensures
        first_hole(m, lo, j, req) matches Some((s, e)) ==> {
            &&& lo <= s <= e < m.len()
            &&& e - s >= req
            &&& m[e] != Mark::Unmarked
            &&& forall|i: int| s <= i < e ==> m[i] == Mark::Unmarked
        },
    decreases m.len() - j,
{
    if 0 <= j < m.len() {
        lemma_run_len_bound(m, lo, j);
        lemma_run_len_free(m, lo, j);
        lemma_first_hole_free(m, lo, j + 1, req);
    }
}

/// A run of unmarked lines ending before `j`, from `s` on, is counted.
proof fn lemma_run_len_at_least(m: Seq<Mark>, lo: int, s: int, j: int)
    requires
        lo <= s <= j <= m.len(),
        forall|i: int| s <= i < j ==> m[i] == Mark::Unmarked,
    ensures
        run_len(m, lo, j) >= j - s,
    decreases j - s,
{
    if j > s {
        lemma_run_len_at_least(m, lo, s, j - 1);
    }
}

/// The hole search misses no hole: if, from the line the search starts
/// at, lines `s..e` are unmarked, line `e` is not, and the run is as long
/// as the request (or longer), a hole is found, and it ends no later than
/// `e`. So a run of exactly the lines asked for is a hole.
pub proof fn law_first_hole_complete(m: Seq<Mark>, lo: int, req: int, s: int, e: int)
    requires
        0 <= lo <= s <= e < m.len(),
        forall|i: int| s <= i < e ==> m[i] == Mark::Unmarked,
        m[e] != Mark::Unmarked,
        e - s >= req,
    ensures
        first_hole(m, lo, lo, req) matches Some((hs, he)) && he <= e,
{
    lemma_first_hole_reaches(m, lo, lo, req, s, e);
}

proof fn lemma_first_hole_reaches(m: Seq<Mark>, lo: int, j: int, req: int, s: int, e: int)
    requires
        0 <= lo <= s <= e < m.len(),
        lo <= j <= e,
        forall|i: int| s <= i < e ==> m[i] == Mark::Unmarked,
        m[e] != Mark::Unmarked,
        e - s >= req,
    ensures
        first_hole(m, lo, j, req) matches Some((hs, he)) && he <= e,
    decreases e - j,
{
    if j == e {
        lemma_run_len_at_least(m, lo, s, e);
    } else if !(m[j] != Mark::Unmarked && run_len(m, lo, j) >= req) {
        lemma_first_hole_reaches(m, lo, j + 1, req, s, e);
    }
}

/// Two allocations made one after the other in a bump block never overlap:
/// the second is above the end of the first, or lies in a hole of lines
/// that the first did not touch.
pub proof fn law_bump_alloc_disjoint(b: BumpV, s1: usize, s2: usize)
    requires
        b.cursor <= b.limit <= BLOCK_CAPACITY,
        b.marks.len() == LINE_COUNT,
        bump_alloc(b, s1) is Ok,
        bump_alloc(bump_alloc(b, s1)->Ok_0.block, s2) is Ok,
    ensures
        ({
            let r1 = bump_alloc(b, s1)->Ok_0;
            let r2 = bump_alloc(r1.block, s2)->Ok_0;
            r1.data + s1 <= r2.data || r2.data + s2 <= r1.data
        }),
{
    let r1 = bump_alloc(b, s1)->Ok_0;
    let b1 = r1.block;
    let r2 = bump_alloc(b1, s2)->Ok_0;
    lemma_first_hole_bounds(b.marks, 0, 0, lines_for(s1 as nat) as int);
    lemma_first_hole_free(b.marks, 0, 0, lines_for(s1 as nat) as int);
    // the first allocation's bytes lie in the lines it marked
    assert(r1.low == r1.data / 256 && r1.high == (r1.data + s1) / 256);
    assert(forall|i: int| r1.low <= i <= r1.high ==> b1.marks[i] == Mark::Allocated);
    assert(b1.cursor >= r1.data + s1);
    if bump_at(b1, s2 as nat) is Some {
        assert(r2.data == b1.cursor);
    } else {
        let req = lines_for(s2 as nat) as int;
        lemma_first_hole_free(b1.marks, 0, 0, req);
        let (hs, he) = first_hole(b1.marks, 0, 0, req)->0;
        assert(r2.data == hs * 256);
        assert(r2.data + s2 <= he * 256);
        if !(r1.data + s1 <= r2.data || r2.data + s2 <= r1.data) {
            // a byte of both lies in a line that is both allocated and free
            let x: int = if r1.data >= r2.data { r1.data as int } else { r2.data as int };
            assert(r1.data <= x < r1.data + s1);
            assert(r2.data <= x < r2.data + s2);
            assert(r1.low <= x / 256 <= r1.high);
            assert(hs <= x / 256 < he);
            assert(b1.marks[x / 256] == Mark::Allocated);
            assert(false);
        }
    }
}

/// Byte `x` lies in the allocation of `a.1` bytes at `a.0`.
pub open spec fn in_alloc(a: (usize, usize), x: int) -> bool {
    a.0 <= x < a.0 + a.1
}

/// Where the allocations made in a bump block lie: every byte of each is
/// in a line that is not unmarked, and outside the current hole.
pub open spec fn allocs_placed(b: BumpV, allocs: Seq<(usize, usize)>) -> bool {
    forall|i: int, x: int|
        0 <= i < allocs.len() && #[trigger] in_alloc(allocs[i], x) ==> 0 <= x / (LINE_SIZE as int) < LINE_COUNT
            && b.marks[x / (LINE_SIZE as int)] != Mark::Unmarked && !(b.cursor <= x < b.limit)
}

/// A new allocation in a bump block overlaps none of the allocations made
/// in it before, and it joins them where they lie: so, from a fresh block,
/// all allocations of a block are pairwise disjoint.
pub proof fn law_bump_alloc_placed(b: BumpV, allocs: Seq<(usize, usize)>, s: usize)
    requires
        b.cursor <= b.limit <= BLOCK_CAPACITY,
        b.marks.len() == LINE_COUNT,
        allocs_placed(b, allocs),
        bump_alloc(b, s) is Ok,
    ensures
        ({
            let r = bump_alloc(b, s)->Ok_0;
            &&& forall|i: int, x: int|
                0 <= i < allocs.len() && #[trigger] in_alloc(allocs[i], x) ==> !in_alloc((r.data, s), x)
            &&& r.block.cursor <= r.block.limit <= BLOCK_CAPACITY
            &&& r.block.marks.len() == LINE_COUNT
            &&& allocs_placed(r.block, allocs.push((r.data, s)))
        }),
{
    let r = bump_alloc(b, s)->Ok_0;
    let req = lines_for(s as nat) as int;
    let b2 = if bump_at(b, s as nat) is Some {
        b
    } else {
        lemma_first_hole_free(b.marks, 0, 0, req);
        let (hs, he) = first_hole(b.marks, 0, 0, req)->0;
        BumpV { cursor: (hs * LINE_SIZE) as usize, limit: (he * LINE_SIZE) as usize, ..b }
    };
    assert(bump_at(b2, s as nat) == Some(r));
    let c = b2.cursor as int;
    assert(c + s <= line_round_up(c + s) <= b2.limit);
    // the bytes of the new allocation are free in `b`
    assert forall|i: int, x: int|
        0 <= i < allocs.len() && #[trigger] in_alloc(allocs[i], x) implies !in_alloc((r.data, s), x)
        && !(b2.cursor <= x < b2.limit) by {
        if bump_at(b, s as nat) is None {
            let (hs, he) = first_hole(b.marks, 0, 0, req)->0;
            if b2.cursor <= x < b2.limit {
                assert(hs <= x / (LINE_SIZE as int) < he);
            }
        }
    }
    let nb = r.block;
    assert forall|i: int, x: int|
        0 <= i < allocs.push((r.data, s)).len() && #[trigger] in_alloc(allocs.push((r.data, s))[i], x)
        implies 0 <= x / (LINE_SIZE as int) < LINE_COUNT && nb.marks[x / (LINE_SIZE as int)] != Mark::Unmarked
        && !(nb.cursor <= x < nb.limit) by {
        if i < allocs.len() {
            assert(allocs.push((r.data, s))[i] == allocs[i]);
            assert(in_alloc(allocs[i], x));
        } else {
            assert(allocs.push((r.data, s))[i] == (r.data, s));
            assert(c <= x < c + s);
        }
    }
}

#[derive(Debug)]
pub struct BumpBlock {
    /// offset of the next free byte
    cursor: usize,
    /// offset that ends the current hole
    limit: usize,
    /// memory block
    block: Block,
    /// line mark data
    pub meta: BlockMeta,
    /// identity of the block, which allocations refer to
    id: usize,
}

impl View for BumpBlock {
    type V = BumpV;

    closed spec fn view(&self) -> BumpV {
        BumpV { cursor: self.cursor, limit: self.limit, marks: self.meta@, id: self.id }
    }
}

/// The first hole of a block lies below the mark area.
proof fn lemma_first_hole_bounds(m: Seq<Mark>, lo: int, j: int, req: int)
    requires
        0 <= lo <= j,
        m.len() == LINE_COUNT,
    ensures
        first_hole(m, lo, j, req) matches Some((s, e)) ==> lo <= s <= e < LINE_COUNT && e - s
            >= req,
    decreases m.len() - j,
{
    if j < m.len() {
        lemma_run_len_bound(m, lo, j);
        lemma_first_hole_bounds(m, lo, j + 1, req);
    }
}

proof fn lemma_run_len_bound(m: Seq<Mark>, lo: int, j: int)
    ensures
        j >= lo ==> run_len(m, lo, j) <= j - lo,
    decreases j - lo,
{
    if j > lo {
        lemma_run_len_bound(m, lo, j - 1);
    }
}

impl BumpBlock {
    pub closed spec fn wf(&self) -> bool {
        &&& self.meta.wf()
        &&& self.cursor <= self.limit <= BLOCK_CAPACITY
    }

    /// A fresh block: an empty hole over its whole capacity, every line
    /// unmarked.
    pub fn new(id: usize) -> (res: Result<Self, BlockError>)
        ensures
            match res {
                Ok(b) => b.wf() && b@ == (BumpV {
                    cursor: 0,
                    limit: BLOCK_CAPACITY,
                    marks: Seq::new(LINE_COUNT as nat, |i: int| Mark::Unmarked),
                    id,
                }),
                Err(e) => e is OutOfMemory,
            },
    {
        proof {
            reveal_with_fuel(is_pow2, 17);
        }
        let inner_block = Block::new(BLOCK_SIZE)?;
        Ok(BumpBlock { cursor: 0, limit: BLOCK_CAPACITY, block: inner_block, meta: BlockMeta::new(), id })
    }

    /// Allocate `alloc_size` bytes: at the cursor where they fit before the
    /// limit, else in the first long enough hole; gives the lines marked and
    /// the offset of the data.
    pub fn inner_alloc(&mut self, alloc_size: usize) -> (res: Result<(MetaPtr, usize), BlockError>)
        requires
            old(self).wf(),
        ensures
            final(self).wf(),
            match bump_alloc(old(self)@, alloc_size) {
                Ok(r) => final(self)@ == r.block && res == Ok::<(MetaPtr, usize), BlockError>(
                    (MetaPtr { low: r.low, high: r.high, block: old(self)@.id }, r.data),
                ),
                Err(e) => final(self)@ == old(self)@ && res == Err::<(MetaPtr, usize), BlockError>(e),
            },
    {
        let cursor_ptr = self.cursor;
        let limit = self.limit;
        let next_pos = match cursor_ptr.checked_add(alloc_size) {
            Some(p) => p,
            None => return Err(BlockError::AddressOverflow),
        };
        let bumped = match next_pos.checked_add(ALIGN_WORD) {
            Some(p) => p,
            None => return Err(BlockError::AddressOverflow),
        };
        // align up to the line boundary
        let next_ptr = bumped & ALIGN_MASK;
        assert(bumped & !0xFFusize == bumped - bumped % 256) by (bit_vector);
        if next_ptr <= limit {
            Ok(self.bump(alloc_size))
        } else {
            // try find hole.
            match self.meta.find_hole(0, alloc_size) {
                Some(Hole { start, end }) => {
                    proof {
                        lemma_first_hole_bounds(self.meta@, 0, 0, lines_for(alloc_size as nat) as int);
                    }
                    self.cursor = start * LINE_SIZE;
                    self.limit = end * LINE_SIZE;
                    Ok(self.bump(alloc_size))
                },
                // There is no space in block for this allocation
                None => Err(BlockError::NoSpaceForAllocation),
            }
        }
    }

    /// Bump at the cursor, where the allocation fits.
    fn bump(&mut self, alloc_size: usize) -> (res: (MetaPtr, usize))
        requires
            old(self).wf(),
            bump_at(old(self)@, alloc_size as nat) is Some,
        ensures
            final(self).wf(),
            bump_at(old(self)@, alloc_size as nat) matches Some(r) && final(self)@ == r.block && res
                == (MetaPtr { low: r.low, high: r.high, block: old(self)@.id }, r.data),
    {
        let next_pos = self.cursor + alloc_size;
        let b = next_pos + ALIGN_WORD;
        let next_ptr = b & ALIGN_MASK;
        assert(b & !0xFFusize == b - b % 256) by (bit_vector);
        let mark_low = self.cursor / LINE_SIZE;
        let mark_high = next_pos / LINE_SIZE;
        self.meta.set_mark_range(&Mark::Allocated, mark_low, mark_high);
        let cursor = self.cursor;
        self.cursor = next_ptr;
        (MetaPtr { low: mark_low, high: mark_high, block: self.id }, cursor)
    }

    /// The cursor's distance above the limit; the cursor climbs toward the
    /// limit, so this is defined where it has reached it.
    pub fn current_hole_size(&self) -> (res: usize)
        requires
            self.wf(),
            self@.cursor >= self@.limit,
        ensures
            res == self@.cursor - self@.limit,
    {
        self.cursor - self.limit
    }

    pub fn is_fresh(&self) -> (res: bool)
        requires
            self.wf(),
        ensures
            res == (forall|i: int| 0 <= i < LINE_COUNT ==> self@.marks[i] == Mark::Unmarked),
    {
        self.meta.is_fresh()
    }

    pub fn unmark(&mut self)
        requires
            old(self).wf(),
        ensures
            final(self).wf(),
            final(self)@ == (BumpV { marks: Seq::new(LINE_COUNT as nat, |i: int| Mark::Unmarked), ..old(self)@ }),
    {
        self.meta.reset();
    }

    /// Set the marks of the lines `low..=high`.
    pub fn set_marks(&mut self, mark: &Mark, low: usize, high: usize)
        requires
            old(self).wf(),
            high < LINE_COUNT,
        ensures
            final(self).wf(),
            final(self)@ == (BumpV { marks: set_range(old(self)@.marks, low as int, high as int, *mark), ..old(self)@ }),
    {
        self.meta.set_mark_range(mark, low, high);
    }

    /// Identity of the block.
    pub fn id(&self) -> (res: usize)
        ensures
            res == self@.id,
    {
        self.id
    }
}

/// A large block as a value: its size and its mark.
pub struct LargeV {
    pub size: usize,
    pub mark: Mark,
}

#[derive(Debug)]
pub struct LargeBlock {
    block: Block,
    pub size: BlockSize,
    pub mark: Mark,
}

impl View for LargeBlock {
    type V = LargeV;

    closed spec fn view(&self) -> LargeV {
        LargeV { size: self.size, mark: self.mark }
    }
}

impl LargeBlock {
    /// create new memory block, marked allocated.
    ///
    /// # Errors
    /// This function will return an error if [size] is not a power of two
    /// or cannot allocate memory
    pub fn new(size: BlockSize) -> (res: Result<Self, BlockError>)
        ensures
            match res {
                Ok(b) => is_pow2(size as nat) && b@ == (LargeV { size, mark: Mark::Allocated }),
                Err(e) => if is_pow2(size as nat) {
                    e is OutOfMemory
                } else {
                    e == BlockError::BadSize(size)
                },
            },
    {
        let block = Block::new(size)?;
        Ok(LargeBlock { block, size, mark: Mark::Allocated })
    }

    /// Give the block's memory back.
    pub fn dealloc_block(self) {
        self.block.dealloc_block();
    }

    pub fn set_mark(&mut self, mark: &Mark)
        ensures
            final(self)@ == (LargeV { mark: *mark, ..old(self)@ }),
    {
        self.mark = *mark;
    }

    pub fn unmark(&mut self)
        ensures
            final(self)@ == (LargeV { mark: Mark::Unmarked, ..old(self)@ }),
    {
        self.mark = Mark::Unmarked;
    }

    pub fn is_marked(&self) -> (res: bool)
        ensures
            res == (self@.mark == Mark::Marked),
    {
        self.mark == Mark::Marked
    }

    pub fn is_unmarked(&self) -> (res: bool)
        ensures
            res == (self@.mark == Mark::Unmarked),
    {
        self.mark == Mark::Unmarked
    }
}

/// A fresh bump block as a value.
pub open spec fn fresh_bump(id: usize) -> BumpV {
    BumpV {
        cursor: 0,
        limit: BLOCK_CAPACITY,
        marks: Seq::new(LINE_COUNT as nat, |i: int| Mark::Unmarked),
        id,
    }
}

/// The block list as a value: the blocks allocation goes to first (the
/// first of them is the current one), the retired bump blocks by identity,
/// the large blocks by key, and the count that numbers new blocks.
pub struct ListV {
    pub head: Seq<BumpV>,
    pub rest: Map<usize, BumpV>,
    pub large: Map<usize, LargeV>,
    pub count: usize,
}

/// The pointer to an allocation in bump block `b`.
pub open spec fn bumped_ptr(b: BumpV, r: Bumped) -> PairPtr {
    PairPtr { meta: OR::L(MetaPtr { low: r.low, high: r.high, block: b.id }), data: r.data }
}

/// Allocation in the head blocks, where `g` tells whether the new block
/// asked for (if one is) is granted: a block is added when there is none; a
/// current block without room is retired and the next tried; the last one
/// is replaced by a new block. A refused block leaves the list as it was at
/// the request and gives `OutOfMemory`.
pub open spec fn head_alloc_spec(l: ListV, size: usize, g: bool) -> (ListV, Result<PairPtr, AllocError>)
    decreases (if l.head.len() == 0 {
        1int
    } else {
        0int
    }), l.head.len(),
{
    if l.head.len() == 0 {
        if l.count == usize::MAX || !g {
            (l, Err(AllocError::OutOfMemory))
        } else {
            head_alloc_spec(
                ListV { head: seq![fresh_bump(l.count)], count: (l.count + 1) as usize, ..l },
                size,
                g,
            )
        }
    } else {
        match bump_alloc(l.head[0], size) {
            Ok(r) => (ListV { head: l.head.update(0, r.block), ..l }, Ok(bumped_ptr(l.head[0], r))),
            Err(_) => if l.head.len() != 1 {
                head_alloc_spec(
                    ListV { rest: l.rest.insert(l.head[0].id, l.head[0]), head: l.head.drop_first(), ..l },
                    size,
                    g,
                )
            } else if l.count == usize::MAX || !g {
                (l, Err(AllocError::OutOfMemory))
            } else {
                let nb = fresh_bump(l.count);
                let l2 = ListV {
                    rest: l.rest.insert(l.head[0].id, l.head[0]),
                    head: seq![nb],
                    count: (l.count + 1) as usize,
                    ..l
                };
                match bump_alloc(nb, size) {
                    Ok(r) => (ListV { head: seq![r.block], ..l2 }, Ok(bumped_ptr(nb, r))),
                    Err(_) => (l2, Err(AllocError::OutOfMemory)),
                }
            },
        }
    }
}

/// A fresh block holds any allocation up to its capacity.
proof fn lemma_fresh_bump_fits(id: usize, size: usize)
    requires
        size <= BLOCK_CAPACITY,
    ensures
        bump_alloc(fresh_bump(id), size) is Ok,
{
    assert(line_round_up(size as int) <= BLOCK_CAPACITY);
}

/// The least power of two that is at least `x`, searched from `p` upward.
pub open spec fn pow2_at_least(x: nat, p: nat) -> nat
    decreases if x >= p {
        x - p
    } else {
        0
    },
{
    if p == 0 || p >= x {
        p
    } else {
        pow2_at_least(x, p * 2)
    }
}

/// Allocation of a large block of the next power of two bytes, kept under
/// the count; `g` tells whether the block is granted, and a refused one
/// leaves the list as it was.
pub open spec fn large_alloc_spec(l: ListV, size: usize, g: bool) -> (ListV, Result<PairPtr, AllocError>) {
    let bsize = pow2_at_least(size as nat, 1) as usize;
    if l.count == usize::MAX {
        (l, Err(AllocError::OutOfMemory))
    } else if !g {
        (l, Err(AllocError::InternalError(BlockError::OutOfMemory)))
    } else {
        (
            ListV {
                large: l.large.insert(l.count, LargeV { size: bsize, mark: Mark::Allocated }),
                count: (l.count + 1) as usize,
                ..l
            },
            Ok(PairPtr { meta: OR::R(l.count), data: 0 }),
        )
    }
}

/// Allocation by size class: small and medium objects go to the head
/// blocks, large ones to a block of their own; `g` tells whether a block
/// asked for is granted.
pub open spec fn alloc_spec(l: ListV, size: usize, g: bool) -> (ListV, Result<PairPtr, AllocError>) {
    match size_class(size) {
        Err(_) => (l, Err(AllocError::SizeTooBig)),
        Ok(SizeClass::Large) => large_alloc_spec(l, size, g),
        Ok(_) => head_alloc_spec(l, size, g),
    }
}

/// A bump block's shape: its hole within the data, a mark per line.
pub open spec fn bump_shaped(b: BumpV) -> bool {
    b.cursor <= b.limit <= BLOCK_CAPACITY && b.marks.len() == LINE_COUNT
}

/// Every block of the list has an identity of its own: the head blocks'
/// identities differ from each other, from the retired blocks' keys (under
/// which each retired block is kept) and from the large blocks' keys, and
/// all are below the count; every bump block is shaped.
pub open spec fn apart(l: ListV) -> bool {
    &&& forall|i: int, j: int| 0 <= i < j < l.head.len() ==> #[trigger] l.head[i].id != #[trigger] l.head[j].id
    &&& forall|i: int|
        0 <= i < l.head.len() ==> #[trigger] l.head[i].id < l.count && !l.rest.contains_key(l.head[i].id)
            && !l.large.contains_key(l.head[i].id) && bump_shaped(l.head[i])
    &&& forall|k: usize| #[trigger]
        l.rest.contains_key(k) ==> l.rest[k].id == k && k < l.count && !l.large.contains_key(k) && bump_shaped(
            l.rest[k],
        )
    &&& forall|k: usize| #[trigger] l.large.contains_key(k) ==> k < l.count
}

/// Byte `x` of a bump block is held: its line is in the block and not
/// unmarked, and it is outside the current hole.
pub open spec fn held(b: BumpV, x: int) -> bool {
    0 <= x / (LINE_SIZE as int) < LINE_COUNT && b.marks[x / (LINE_SIZE as int)] != Mark::Unmarked && !(b.cursor
        <= x < b.limit)
}

/// Byte `x` of the allocation at `p` lies in a block of the list that holds
/// it: a head or retired bump block with the pointer's identity, or the
/// large block with its key.
pub open spec fn lies_in(l: ListV, p: PairPtr, x: int) -> bool {
    match p.meta {
        OR::L(mp) => (exists|j: int| 0 <= j < l.head.len() && l.head[j].id == mp.block && held(#[trigger] l.head[j], x))
            || (l.rest.contains_key(mp.block) && held(l.rest[mp.block], x)),
        OR::R(key) => l.large.contains_key(key),
    }
}

/// Every byte of each allocation lies in a block of the list that holds it.
pub open spec fn placed(l: ListV, allocs: Seq<(PairPtr, usize)>) -> bool {
    forall|i: int, x: int|
        0 <= i < allocs.len() && #[trigger] in_alloc((allocs[i].0.data, allocs[i].1), x) ==> lies_in(l, allocs[i].0, x)
}

/// A new list is apart, with nothing allocated in it.
pub proof fn law_new_list_apart()
    ensures
        apart(ListV { head: Seq::empty(), rest: Map::empty(), large: Map::empty(), count: 0 }),
        placed(ListV { head: Seq::empty(), rest: Map::empty(), large: Map::empty(), count: 0 }, Seq::empty()),
{
}

/// The identity under which an allocation's byte lies is one the list
/// has numbered.
proof fn lemma_lies_in_below_count(l: ListV, p: PairPtr, x: int)
    requires
        apart(l),
        lies_in(l, p, x),
    ensures
        block_of(p) < l.count,
        (p.meta is L) ==> !l.large.contains_key(block_of(p)),
{
    match p.meta {
        OR::L(mp) => {
            if exists|j: int| 0 <= j < l.head.len() && l.head[j].id == mp.block && held(#[trigger] l.head[j], x) {
                let j = choose|j: int| 0 <= j < l.head.len() && l.head[j].id == mp.block && held(#[trigger] l.head[j], x);
                assert(l.head[j].id < l.count);
            }
        },
        OR::R(_) => {},
    }
}

/// A new allocation shares no byte with an allocation made before in the
/// same block: bump blocks and large blocks all have identities of their
/// own, a bump block places allocations apart, and a large block is new.
/// The allocations then all lie in the list, whose blocks stay apart; so,
/// from a new list and between sweeps, no two allocations of the whole
/// list overlap.
pub proof fn law_alloc_apart(l: ListV, allocs: Seq<(PairPtr, usize)>, size: usize, g: bool)
    requires
        apart(l),
        placed(l, allocs),
        alloc_spec(l, size, g).1 is Ok,
    ensures
        ({
            let (l2, r) = alloc_spec(l, size, g);
            let p = r->Ok_0;
            &&& forall|i: int, x: int|
                0 <= i < allocs.len() && #[trigger] in_alloc((allocs[i].0.data, allocs[i].1), x) && block_of(
                    allocs[i].0,
                ) == block_of(p) ==> !in_alloc((p.data, size), x)
            &&& apart(l2)
            &&& placed(l2, allocs.push((p, size)))
        }),
{
    match size_class(size) {
        Ok(SizeClass::Large) => lemma_large_apart(l, allocs, size, g),
        _ => lemma_head_apart(l, allocs, size, g),
    }
}

/// Whatever allocation gives, a refusal too, the list stays apart and the
/// allocations made before still lie in it.
pub proof fn law_alloc_keeps_apart(l: ListV, allocs: Seq<(PairPtr, usize)>, size: usize, g: bool)
    requires
        apart(l),
        placed(l, allocs),
    ensures
        apart(alloc_spec(l, size, g).0),
        placed(alloc_spec(l, size, g).0, allocs),
{
    let (l2, r) = alloc_spec(l, size, g);
    if r is Ok {
        law_alloc_apart(l, allocs, size, g);
        lemma_placed_prefix(l2, allocs, (r->Ok_0, size));
    } else {
        match size_class(size) {
            Ok(SizeClass::Large) => {},
            Ok(_) => lemma_head_keeps_apart(l, allocs, size, g),
            Err(_) => {},
        }
    }
}

/// What lies in a list with one allocation more lies in it without.
proof fn lemma_placed_prefix(l: ListV, allocs: Seq<(PairPtr, usize)>, a: (PairPtr, usize))
    requires
        placed(l, allocs.push(a)),
    ensures
        placed(l, allocs),
{
    assert forall|i: int, x: int|
        0 <= i < allocs.len() && #[trigger] in_alloc((allocs[i].0.data, allocs[i].1), x) implies lies_in(
        l,
        allocs[i].0,
        x,
    ) by {
        assert(allocs.push(a)[i] == allocs[i]);
    }
}

/// A list that retires its current block stays apart, its allocations
/// still lying in it.
proof fn lemma_retire_apart(l: ListV, allocs: Seq<(PairPtr, usize)>)
    requires
        apart(l),
        placed(l, allocs),
        l.head.len() > 0,
    ensures
        ({
            let l1 = ListV { rest: l.rest.insert(l.head[0].id, l.head[0]), head: l.head.drop_first(), ..l };
            apart(l1) && placed(l1, allocs)
        }),
{
    let h0 = l.head[0];
    let l1 = ListV { rest: l.rest.insert(h0.id, h0), head: l.head.drop_first(), ..l };
    assert forall|a: int, b: int| 0 <= a < b < l1.head.len() implies #[trigger] l1.head[a].id
        != #[trigger] l1.head[b].id by {
        assert(l.head[a + 1].id != l.head[b + 1].id);
    }
    assert forall|a: int| 0 <= a < l1.head.len() implies #[trigger] l1.head[a].id < l1.count
        && !l1.rest.contains_key(l1.head[a].id) && !l1.large.contains_key(l1.head[a].id)
        && bump_shaped(l1.head[a]) by {
        assert(l1.head[a] == l.head[a + 1]);
        assert(l.head[0].id != l.head[a + 1].id);
        assert(l.head[a + 1].id < l.count);
    }
    assert forall|k: usize| #[trigger] l1.rest.contains_key(k) implies l1.rest[k].id == k && k
        < l1.count && !l1.large.contains_key(k) && bump_shaped(l1.rest[k]) by {
        assert(l.head[0].id < l.count);
    }
    assert forall|i: int, x: int|
        0 <= i < allocs.len() && #[trigger] in_alloc((allocs[i].0.data, allocs[i].1), x) implies lies_in(
        l1,
        allocs[i].0,
        x,
    ) by {
        match allocs[i].0.meta {
            OR::L(mp) => {
                if exists|j: int| 0 <= j < l.head.len() && l.head[j].id == mp.block && held(#[trigger] l.head[j], x) {
                    let j = choose|j: int| 0 <= j < l.head.len() && l.head[j].id == mp.block && held(#[trigger] l.head[j], x);
                    if j > 0 {
                        assert(l1.head[j - 1] == l.head[j]);
                    }
                } else {
                    assert(l.rest.contains_key(mp.block));
                    assert(mp.block != h0.id);
                }
            },
            OR::R(_) => {},
        }
    }
}

proof fn lemma_head_keeps_apart(l: ListV, allocs: Seq<(PairPtr, usize)>, size: usize, g: bool)
    requires
        apart(l),
        placed(l, allocs),
        head_alloc_spec(l, size, g).1 is Err,
    ensures
        apart(head_alloc_spec(l, size, g).0),
        placed(head_alloc_spec(l, size, g).0, allocs),
    decreases (if l.head.len() == 0 {
        1int
    } else {
        0int
    }), l.head.len(),
{
    if l.head.len() == 0 {
        if !(l.count == usize::MAX || !g) {
            let l1 = ListV { head: seq![fresh_bump(l.count)], count: (l.count + 1) as usize, ..l };
            assert(placed(l1, allocs)) by {
                assert forall|i: int, x: int|
                    0 <= i < allocs.len() && #[trigger] in_alloc((allocs[i].0.data, allocs[i].1), x) implies lies_in(
                    l1,
                    allocs[i].0,
                    x,
                ) by {}
            }
            lemma_head_keeps_apart(l1, allocs, size, g);
        }
    } else {
        let h0 = l.head[0];
        if bump_alloc(h0, size) is Err {
            lemma_retire_apart(l, allocs);
            if l.head.len() != 1 {
                let l1 = ListV { rest: l.rest.insert(h0.id, h0), head: l.head.drop_first(), ..l };
                lemma_head_keeps_apart(l1, allocs, size, g);
            } else if !(l.count == usize::MAX || !g) {
                let nb = fresh_bump(l.count);
                let l1 = ListV { rest: l.rest.insert(h0.id, h0), head: l.head.drop_first(), ..l };
                let l2 = ListV { head: seq![nb], count: (l.count + 1) as usize, ..l1 };
                assert(head_alloc_spec(l, size, g).0 == l2);
                assert(placed(l2, allocs)) by {
                    assert forall|i: int, x: int|
                        0 <= i < allocs.len() && #[trigger] in_alloc((allocs[i].0.data, allocs[i].1), x) implies lies_in(
                        l2,
                        allocs[i].0,
                        x,
                    ) by {
                        assert(lies_in(l1, allocs[i].0, x));
                    }
                }
            }
        }
    }
}

proof fn lemma_large_apart(l: ListV, allocs: Seq<(PairPtr, usize)>, size: usize, g: bool)
    requires
        apart(l),
        placed(l, allocs),
        large_alloc_spec(l, size, g).1 is Ok,
    ensures
        ({
            let (l2, r) = large_alloc_spec(l, size, g);
            let p = r->Ok_0;
            &&& forall|i: int, x: int|
                0 <= i < allocs.len() && #[trigger] in_alloc((allocs[i].0.data, allocs[i].1), x) && block_of(
                    allocs[i].0,
                ) == block_of(p) ==> !in_alloc((p.data, size), x)
            &&& apart(l2)
            &&& placed(l2, allocs.push((p, size)))
        }),
{
    let (l2, r) = large_alloc_spec(l, size, g);
    let p = r->Ok_0;
    assert forall|i: int, x: int|
        0 <= i < allocs.len() && #[trigger] in_alloc((allocs[i].0.data, allocs[i].1), x) implies block_of(
            allocs[i].0,
        ) != block_of(p) && lies_in(l2, allocs[i].0, x) by {
        lemma_lies_in_below_count(l, allocs[i].0, x);
        match allocs[i].0.meta {
            OR::L(mp) => {
                if exists|j: int| 0 <= j < l.head.len() && l.head[j].id == mp.block && held(#[trigger] l.head[j], x) {
                    let j = choose|j: int| 0 <= j < l.head.len() && l.head[j].id == mp.block && held(#[trigger] l.head[j], x);
                    assert(l2.head[j] == l.head[j]);
                }
            },
            OR::R(_) => {},
        }
    }
    let a2 = allocs.push((p, size));
    assert forall|i: int, x: int| 0 <= i < a2.len() && #[trigger] in_alloc((a2[i].0.data, a2[i].1), x) implies lies_in(
        l2,
        a2[i].0,
        x,
    ) by {
        if i < allocs.len() {
            assert(a2[i] == allocs[i]);
        }
    }
}

proof fn lemma_head_apart(l: ListV, allocs: Seq<(PairPtr, usize)>, size: usize, g: bool)
    requires
        apart(l),
        placed(l, allocs),
        head_alloc_spec(l, size, g).1 is Ok,
    ensures
        ({
            let (l2, r) = head_alloc_spec(l, size, g);
            let p = r->Ok_0;
            &&& forall|i: int, x: int|
                0 <= i < allocs.len() && #[trigger] in_alloc((allocs[i].0.data, allocs[i].1), x) && block_of(
                    allocs[i].0,
                ) == block_of(p) ==> !in_alloc((p.data, size), x)
            &&& apart(l2)
            &&& placed(l2, allocs.push((p, size)))
        }),
    decreases (if l.head.len() == 0 {
        1int
    } else {
        0int
    }), l.head.len(),
{
    if l.head.len() == 0 {
        let l1 = ListV { head: seq![fresh_bump(l.count)], count: (l.count + 1) as usize, ..l };
        assert(placed(l1, allocs)) by {
            assert forall|i: int, x: int|
                0 <= i < allocs.len() && #[trigger] in_alloc((allocs[i].0.data, allocs[i].1), x) implies lies_in(
                l1,
                allocs[i].0,
                x,
            ) by {}
        }
        lemma_head_apart(l1, allocs, size, g);
    } else {
        let h0 = l.head[0];
        match bump_alloc(h0, size) {
            Ok(rb) => {
                let (l2, r) = head_alloc_spec(l, size, g);
                let p = r->Ok_0;
                assert(l2.head == l.head.update(0, rb.block));
                assert(p == bumped_ptr(h0, rb));
                assert forall|i: int, x: int|
                    0 <= i < allocs.len() && #[trigger] in_alloc((allocs[i].0.data, allocs[i].1), x) implies (
                    block_of(allocs[i].0) == block_of(p) ==> !in_alloc((p.data, size), x)) && lies_in(
                    l2,
                    allocs[i].0,
                    x,
                ) by {
                    let q = allocs[i].0;
                    match q.meta {
                        OR::L(mp) => {
                            if exists|j: int| 0 <= j < l.head.len() && l.head[j].id == mp.block && held(#[trigger] l.head[j], x) {
                                let j = choose|j: int|
                                    0 <= j < l.head.len() && l.head[j].id == mp.block && held(#[trigger] l.head[j], x);
                                if j == 0 {
                                    law_bump_alloc_placed(h0, seq![(q.data, allocs[i].1)], size);
                                    assert(in_alloc(seq![(q.data, allocs[i].1)][0], x));
                                    assert(allocs_placed(rb.block, seq![(q.data, allocs[i].1)].push((rb.data, size))));
                                    assert(seq![(q.data, allocs[i].1)].push((rb.data, size))[0] == (q.data, allocs[i].1));
                                    assert(held(l2.head[0], x));
                                } else {
                                    assert(l2.head[j] == l.head[j]);
                                    assert(mp.block != h0.id);
                                }
                            } else {
                                assert(l.rest.contains_key(mp.block));
                                assert(mp.block != h0.id);
                            }
                        },
                        OR::R(key) => {
                            assert(!l.large.contains_key(h0.id));
                        },
                    }
                }
                law_bump_alloc_placed(h0, Seq::empty(), size);
                let a2 = allocs.push((p, size));
                assert forall|i: int, x: int|
                    0 <= i < a2.len() && #[trigger] in_alloc((a2[i].0.data, a2[i].1), x) implies lies_in(
                    l2,
                    a2[i].0,
                    x,
                ) by {
                    if i < allocs.len() {
                        assert(a2[i] == allocs[i]);
                    } else {
                        assert(a2[i] == (p, size));
                        assert(Seq::<(usize, usize)>::empty().push((rb.data, size))[0] == (rb.data, size));
                        assert(in_alloc(Seq::<(usize, usize)>::empty().push((rb.data, size))[0], x));
                        assert(held(l2.head[0], x));
                    }
                }
                assert forall|a: int, b: int| 0 <= a < b < l2.head.len() implies #[trigger] l2.head[a].id
                    != #[trigger] l2.head[b].id by {
                    assert(l.head[a].id != l.head[b].id);
                }
                assert forall|a: int| 0 <= a < l2.head.len() implies #[trigger] l2.head[a].id < l2.count
                    && !l2.rest.contains_key(l2.head[a].id) && !l2.large.contains_key(l2.head[a].id) && bump_shaped(
                    l2.head[a],
                ) by {
                    assert(l.head[a].id < l.count);
                }
            },
            Err(_) => {
                if l.head.len() != 1 {
                    let l1 = ListV { rest: l.rest.insert(h0.id, h0), head: l.head.drop_first(), ..l };
                    assert(apart(l1)) by {
                        assert forall|a: int, b: int| 0 <= a < b < l1.head.len() implies #[trigger] l1.head[a].id
                            != #[trigger] l1.head[b].id by {
                            assert(l.head[a + 1].id != l.head[b + 1].id);
                        }
                        assert forall|a: int| 0 <= a < l1.head.len() implies #[trigger] l1.head[a].id < l1.count
                            && !l1.rest.contains_key(l1.head[a].id) && !l1.large.contains_key(l1.head[a].id)
                            && bump_shaped(l1.head[a]) by {
                            assert(l1.head[a] == l.head[a + 1]);
                            assert(l.head[0].id != l.head[a + 1].id);
                            assert(l.head[a + 1].id < l.count);
                        }
                        assert forall|k: usize| #[trigger] l1.rest.contains_key(k) implies l1.rest[k].id == k && k
                            < l1.count && !l1.large.contains_key(k) && bump_shaped(l1.rest[k]) by {
                            assert(l.head[0].id < l.count);
                        }
                    }
                    assert(placed(l1, allocs)) by {
                        assert forall|i: int, x: int|
                            0 <= i < allocs.len() && #[trigger] in_alloc((allocs[i].0.data, allocs[i].1), x) implies lies_in(
                            l1,
                            allocs[i].0,
                            x,
                        ) by {
                            match allocs[i].0.meta {
                                OR::L(mp) => {
                                    if exists|j: int|
                                        0 <= j < l.head.len() && l.head[j].id == mp.block && held(#[trigger] l.head[j], x) {
                                        let j = choose|j: int|
                                            0 <= j < l.head.len() && l.head[j].id == mp.block && held(
                                                #[trigger] l.head[j],
                                                x,
                                            );
                                        if j > 0 {
                                            assert(l1.head[j - 1] == l.head[j]);
                                        }
                                    } else {
                                        assert(l.rest.contains_key(mp.block));
                                        assert(mp.block != h0.id);
                                    }
                                },
                                OR::R(_) => {},
                            }
                        }
                    }
                    lemma_head_apart(l1, allocs, size, g);
                } else {
                    let nb = fresh_bump(l.count);
                    let (l2, r) = head_alloc_spec(l, size, g);
                    let p = r->Ok_0;
                    let rb = bump_alloc(nb, size)->Ok_0;
                    assert(l2 == ListV {
                        rest: l.rest.insert(h0.id, h0),
                        head: seq![rb.block],
                        count: (l.count + 1) as usize,
                        ..l
                    });
                    assert(p == bumped_ptr(nb, rb));
                    law_bump_alloc_placed(nb, Seq::empty(), size);
                    assert forall|i: int, x: int|
                        0 <= i < allocs.len() && #[trigger] in_alloc((allocs[i].0.data, allocs[i].1), x) implies block_of(
                        allocs[i].0,
                    ) != block_of(p) && lies_in(l2, allocs[i].0, x) by {
                        lemma_lies_in_below_count(l, allocs[i].0, x);
                        match allocs[i].0.meta {
                            OR::L(mp) => {
                                if exists|j: int|
                                    0 <= j < l.head.len() && l.head[j].id == mp.block && held(#[trigger] l.head[j], x) {
                                    let j = choose|j: int|
                                        0 <= j < l.head.len() && l.head[j].id == mp.block && held(#[trigger] l.head[j], x);
                                    assert(j == 0);
                                    assert(l2.rest[h0.id] == h0);
                                } else {
                                    assert(mp.block != h0.id);
                                }
                            },
                            OR::R(_) => {},
                        }
                    }
                    let a2 = allocs.push((p, size));
                    assert forall|i: int, x: int|
                        0 <= i < a2.len() && #[trigger] in_alloc((a2[i].0.data, a2[i].1), x) implies lies_in(
                        l2,
                        a2[i].0,
                        x,
                    ) by {
                        if i < allocs.len() {
                            assert(a2[i] == allocs[i]);
                        } else {
                            assert(a2[i] == (p, size));
                            assert(Seq::<(usize, usize)>::empty().push((rb.data, size))[0] == (rb.data, size));
                            assert(in_alloc(Seq::<(usize, usize)>::empty().push((rb.data, size))[0], x));
                            assert(held(l2.head[0], x));
                        }
                    }
                    assert forall|k: usize| #[trigger] l2.rest.contains_key(k) implies l2.rest[k].id == k && k
                        < l2.count && !l2.large.contains_key(k) && bump_shaped(l2.rest[k]) by {
                        assert(l.head[0].id < l.count);
                    }
                }
            },
        }
    }
}

/// Every line of `b` is unmarked.
pub open spec fn fresh_v(b: BumpV) -> bool {
    forall|i: int| 0 <= i < LINE_COUNT ==> b.marks[i] == Mark::Unmarked
}

/// The fresh blocks of `rest` with keys below `n`, in ascending key order.
pub open spec fn fresh_below(rest: Map<usize, BumpV>, n: int) -> Seq<BumpV>
    decreases n,
{
    if n <= 0 {
        Seq::empty()
    } else {
        fresh_below(rest, n - 1) + (if rest.contains_key((n - 1) as usize) && fresh_v(
            rest[(n - 1) as usize],
        ) {
            seq![rest[(n - 1) as usize]]
        } else {
            Seq::empty()
        })
    }
}

/// `b` with every line unmarked.
pub open spec fn unmarked_v(b: BumpV) -> BumpV {
    BumpV { marks: Seq::new(LINE_COUNT as nat, |i: int| Mark::Unmarked), ..b }
}

/// What unmarking leaves: every large block, the current head block and
/// every retired block unmarked.
pub open spec fn unmark_all_spec(l: ListV) -> ListV {
    ListV {
        large: l.large.map_values(|b: LargeV| LargeV { mark: Mark::Unmarked, ..b }),
        head: if l.head.len() > 0 {
            l.head.update(0, unmarked_v(l.head[0]))
        } else {
            l.head
        },
        rest: l.rest.map_values(|b: BumpV| unmarked_v(b)),
        count: l.count,
    }
}

/// Index of the first head block with identity `id`, from `i`.
pub open spec fn head_index(head: Seq<BumpV>, id: usize, i: int) -> Option<int>
    decreases head.len() - i,
{
    if i < 0 || i >= head.len() {
        None
    } else if head[i].id == id {
        Some(i)
    } else {
        head_index(head, id, i + 1)
    }
}

/// Replacing a head block by one of the same identity keeps where each
/// identity is first found.
proof fn lemma_head_index_same_ids(head: Seq<BumpV>, j: int, b: BumpV, id: usize, i: int)
    requires
        0 <= j < head.len(),
        b.id == head[j].id,
    ensures
        head_index(head.update(j, b), id, i) == head_index(head, id, i),
    decreases head.len() - i,
{
    if 0 <= i < head.len() {
        lemma_head_index_same_ids(head, j, b, id, i + 1);
    }
}

/// After every block is unmarked, each allocation in the current head
/// block, in a retired block that no head block shares an identity with,
/// or in a large block reads as unmarked.
pub proof fn law_unmark_all_unmarks(l: ListV, p: PairPtr)
    requires
        match p.meta {
            OR::L(mp) => mp.low < LINE_COUNT && ((l.head.len() > 0 && l.head[0].id == mp.block) || (head_index(
                l.head,
                mp.block,
                0,
            ) is None && l.rest.contains_key(mp.block))),
            OR::R(key) => l.large.contains_key(key),
        },
    ensures
        is_unmarked_spec(unmark_all_spec(l), p),
{
    let u = unmark_all_spec(l);
    match p.meta {
        OR::L(mp) => {
            if l.head.len() > 0 {
                lemma_head_index_same_ids(l.head, 0, unmarked_v(l.head[0]), mp.block, 0);
            }
            if l.head.len() > 0 && l.head[0].id == mp.block {
                assert(head_index(u.head, mp.block, 0) == Some(0int));
            } else {
                assert(u.rest[mp.block] == unmarked_v(l.rest[mp.block]));
            }
        },
        OR::R(key) => {
            assert(u.large[key] == LargeV { mark: Mark::Unmarked, ..l.large[key] });
        },
    }
}

/// Set the mark of an allocation: the lines of a bump-block allocation (in
/// the first head block with its identity, else the retired one), or the
/// mark of its large block; a pointer to no block changes nothing.
pub open spec fn set_mark_spec(l: ListV, p: PairPtr, mark: Mark) -> ListV {
    match p.meta {
        OR::L(mp) => if mp.high >= LINE_COUNT {
            l
        } else {
            match head_index(l.head, mp.block, 0) {
                Some(i) => ListV {
                    head: l.head.update(
                        i,
                        BumpV { marks: set_range(l.head[i].marks, mp.low as int, mp.high as int, mark), ..l.head[i] },
                    ),
                    ..l
                },
                None => if l.rest.contains_key(mp.block) {
                    ListV {
                        rest: l.rest.insert(
                            mp.block,
                            BumpV {
                                marks: set_range(l.rest[mp.block].marks, mp.low as int, mp.high as int, mark),
                                ..l.rest[mp.block]
                            },
                        ),
                        ..l
                    }
                } else {
                    l
                },
            }
        },
        OR::R(key) => if l.large.contains_key(key) {
            ListV { large: l.large.insert(key, LargeV { mark, ..l.large[key] }), ..l }
        } else {
            l
        },
    }
}

/// Where `head_index` finds an identity, a head block has it.
proof fn lemma_head_index_found(head: Seq<BumpV>, id: usize, i: int)
    ensures
        head_index(head, id, i) matches Some(j) ==> 0 <= j < head.len() && head[j].id == id,
    decreases head.len() - i,
{
    if 0 <= i < head.len() && head[i].id != id {
        lemma_head_index_found(head, id, i + 1);
    }
}

/// Setting a mark changes exactly the marks the pointer names: the lines
/// `low..=high` of the first head block with its identity (else of the
/// retired block with it) take the mark and every other line keeps its
/// own; for a large block, its mark. Every other block is left as it was,
/// and a pointer to no block of the list changes nothing.
pub proof fn law_set_mark_lines(l: ListV, p: PairPtr, mark: Mark)
    ensures
        ({
            let m = set_mark_spec(l, p, mark);
            match p.meta {
                OR::L(mp) => if mp.high >= LINE_COUNT {
                    m == l
                } else {
                    match head_index(l.head, mp.block, 0) {
                        Some(i) => {
                            &&& 0 <= i < l.head.len() && l.head[i].id == mp.block
                            &&& m.rest == l.rest && m.large == l.large && m.count == l.count
                            &&& m.head.len() == l.head.len()
                            &&& forall|j: int| 0 <= j < l.head.len() && j != i ==> #[trigger] m.head[j] == l.head[j]
                            &&& m.head[i].id == l.head[i].id && m.head[i].cursor == l.head[i].cursor
                                && m.head[i].limit == l.head[i].limit
                            &&& m.head[i].marks.len() == l.head[i].marks.len()
                            &&& forall|k: int|
                                0 <= k < l.head[i].marks.len() ==> #[trigger] m.head[i].marks[k] == if mp.low <= k
                                    <= mp.high {
                                    mark
                                } else {
                                    l.head[i].marks[k]
                                }
                        },
                        None => if l.rest.contains_key(mp.block) {
                            let b = l.rest[mp.block];
                            &&& m.head == l.head && m.large == l.large && m.count == l.count
                            &&& m.rest.dom() == l.rest.dom()
                            &&& forall|k: usize| #[trigger] l.rest.contains_key(k) && k != mp.block ==> m.rest[k]
                                == l.rest[k]
                            &&& m.rest[mp.block].id == b.id && m.rest[mp.block].cursor == b.cursor
                                && m.rest[mp.block].limit == b.limit
                            &&& m.rest[mp.block].marks.len() == b.marks.len()
                            &&& forall|k: int|
                                0 <= k < b.marks.len() ==> #[trigger] m.rest[mp.block].marks[k] == if mp.low <= k
                                    <= mp.high {
                                    mark
                                } else {
                                    b.marks[k]
                                }
                        } else {
                            m == l
                        },
                    }
                },
                OR::R(key) => if l.large.contains_key(key) {
                    &&& m.head == l.head && m.rest == l.rest && m.count == l.count
                    &&& m.large == l.large.insert(key, LargeV { mark, ..l.large[key] })
                } else {
                    m == l
                },
            }
        }),
{
    let m = set_mark_spec(l, p, mark);
    match p.meta {
        OR::L(mp) => {
            lemma_head_index_found(l.head, mp.block, 0);
            if mp.high < LINE_COUNT && head_index(l.head, mp.block, 0) is None && l.rest.contains_key(mp.block) {
                assert(m.rest.dom() =~= l.rest.dom());
            }
        },
        OR::R(_) => {},
    }
}

/// A mark set through a pointer is what is read back through any copy of
/// it: the allocation, in a head block, a retired block or a large block of
/// the list, reads as unmarked exactly when the mark set is `Unmarked`.
pub proof fn law_set_mark_read_back(l: ListV, p: PairPtr, q: PairPtr, mark: Mark)
    requires
        q == p,
        match p.meta {
            OR::L(mp) => mp.low <= mp.high < LINE_COUNT && match head_index(l.head, mp.block, 0) {
                Some(i) => l.head[i].marks.len() == LINE_COUNT,
                None => l.rest.contains_key(mp.block) && l.rest[mp.block].marks.len() == LINE_COUNT,
            },
            OR::R(key) => l.large.contains_key(key),
        },
    ensures
        is_unmarked_spec(set_mark_spec(l, p, mark), q) == (mark == Mark::Unmarked),
{
    let l2 = set_mark_spec(l, p, mark);
    match p.meta {
        OR::L(mp) => {
            lemma_head_index_found(l.head, mp.block, 0);
            match head_index(l.head, mp.block, 0) {
                Some(i) => {
                    let b = BumpV {
                        marks: set_range(l.head[i].marks, mp.low as int, mp.high as int, mark),
                        ..l.head[i]
                    };
                    lemma_head_index_same_ids(l.head, i, b, mp.block, 0);
                    assert(l2.head[i] == b);
                },
                None => {
                    assert(l2.head == l.head);
                },
            }
        },
        OR::R(key) => {},
    }
}

/// Whether an allocation is unmarked: the first line of a bump-block
/// allocation, or the mark of its large block; a pointer to no block is
/// not.
pub open spec fn is_unmarked_spec(l: ListV, p: PairPtr) -> bool {
    match p.meta {
        OR::L(mp) => if mp.low >= LINE_COUNT {
            false
        } else {
            match head_index(l.head, mp.block, 0) {
                Some(i) => l.head[i].marks[mp.low as int] == Mark::Unmarked,
                None => l.rest.contains_key(mp.block) && l.rest[mp.block].marks[mp.low as int]
                    == Mark::Unmarked,
            }
        },
        OR::R(key) => l.large.contains_key(key) && l.large[key].mark == Mark::Unmarked,
    }
}

/// The least power of two at least `x`.
pub fn next_power_of_two(x: usize) -> (res: usize)
    requires
        x <= usize::MAX / 2 + 1,
    ensures
        res == pow2_at_least(x as nat, 1),
        is_pow2(res as nat),
{
    let mut p: usize = 1;
    while p < x
        invariant
            1 <= p,
            x <= usize::MAX / 2 + 1,
            is_pow2(p as nat),
            pow2_at_least(x as nat, 1) == pow2_at_least(x as nat, p as nat),
        decreases usize::MAX - p,
    {
        assert(is_pow2((p * 2) as nat)) by {
            assert((p * 2) as nat / 2 == p as nat);
        }
        p = p * 2;
    }
    p
}

/// What sweeping leaves: the fresh retired blocks move to the head blocks
/// in key order, and the unmarked large blocks are given back.
pub open spec fn sweep_spec(l: ListV) -> ListV {
    ListV {
        head: l.head + fresh_below(l.rest, l.count as int),
        rest: Map::new(|k: usize| l.rest.contains_key(k) && !fresh_v(l.rest[k]), |k: usize| l.rest[k]),
        large: Map::new(
            |k: usize| l.large.contains_key(k) && l.large[k].mark != Mark::Unmarked,
            |k: usize| l.large[k],
        ),
        count: l.count,
    }
}

/// The fresh retired blocks below `n`, in key order, are retired blocks
/// under their own identities, which rise.
proof fn lemma_fresh_below_ids(rest: Map<usize, BumpV>, n: int)
    requires
        n <= usize::MAX,
        forall|k: usize| #[trigger] rest.contains_key(k) ==> rest[k].id == k,
    ensures
        forall|i: int|
            0 <= i < fresh_below(rest, n).len() ==> #[trigger] fresh_below(rest, n)[i].id < n && rest.contains_key(
                fresh_below(rest, n)[i].id,
            ) && rest[fresh_below(rest, n)[i].id] == fresh_below(rest, n)[i] && fresh_v(fresh_below(rest, n)[i]),
        forall|i: int, j: int|
            0 <= i < j < fresh_below(rest, n).len() ==> #[trigger] fresh_below(rest, n)[i].id
                < #[trigger] fresh_below(rest, n)[j].id,
    decreases n,
{
    if n > 0 {
        lemma_fresh_below_ids(rest, n - 1);
        let a = fresh_below(rest, n - 1);
        let fb = fresh_below(rest, n);
        assert forall|i: int| 0 <= i < fb.len() implies #[trigger] fb[i].id < n && rest.contains_key(fb[i].id)
            && rest[fb[i].id] == fb[i] && fresh_v(fb[i]) by {
            if i < a.len() {
                assert(fb[i] == a[i]);
            }
        }
        assert forall|i: int, j: int| 0 <= i < j < fb.len() implies #[trigger] fb[i].id < #[trigger] fb[j].id by {
            assert(fb[i] == a[i]);
            if j < a.len() {
                assert(fb[j] == a[j]);
            } else {
                let k = (n - 1) as usize;
                assert(rest.contains_key(k) && fb[j] == rest[k]);
                assert(rest[k].id == k);
                assert(fb[i].id < n - 1);
            }
        }
    }
}

/// Unmarking, setting a mark and sweeping keep the blocks of a list apart:
/// marks change, identities do not, and sweeping moves retired blocks to
/// the head under the identities they were kept by. With allocation (see
/// `law_alloc_apart`) and a new list, every list is apart.
pub proof fn law_list_ops_keep_apart(l: ListV, p: PairPtr, mark: Mark)
    requires
        apart(l),
    ensures
        apart(unmark_all_spec(l)),
        apart(set_mark_spec(l, p, mark)),
        apart(sweep_spec(l)),
{
    let u = unmark_all_spec(l);
    assert forall|i: int, j: int| 0 <= i < j < u.head.len() implies #[trigger] u.head[i].id != #[trigger] u.head[j].id by {
        assert(l.head[i].id != l.head[j].id);
    }
    assert forall|i: int| 0 <= i < u.head.len() implies #[trigger] u.head[i].id < u.count && !u.rest.contains_key(
        u.head[i].id,
    ) && !u.large.contains_key(u.head[i].id) && bump_shaped(u.head[i]) by {
        assert(l.head[i].id < l.count);
    }
    assert forall|k: usize| #[trigger] u.rest.contains_key(k) implies u.rest[k].id == k && k < u.count
        && !u.large.contains_key(k) && bump_shaped(u.rest[k]) by {
        assert(l.rest.contains_key(k));
    }
    assert forall|k: usize| #[trigger] u.large.contains_key(k) implies k < u.count by {
        assert(l.large.contains_key(k));
    }
    let m = set_mark_spec(l, p, mark);
    match p.meta {
        OR::L(mp) => {
            lemma_head_index_found(l.head, mp.block, 0);
            assert forall|i: int, j: int| 0 <= i < j < m.head.len() implies #[trigger] m.head[i].id
                != #[trigger] m.head[j].id by {
                assert(l.head[i].id != l.head[j].id);
            }
            assert forall|i: int| 0 <= i < m.head.len() implies #[trigger] m.head[i].id < m.count
                && !m.rest.contains_key(m.head[i].id) && !m.large.contains_key(m.head[i].id) && bump_shaped(
                m.head[i],
            ) by {
                assert(l.head[i].id < l.count);
            }
            assert forall|k: usize| #[trigger] m.rest.contains_key(k) implies m.rest[k].id == k && k < m.count
                && !m.large.contains_key(k) && bump_shaped(m.rest[k]) by {
                assert(l.rest.contains_key(k));
            }
        },
        OR::R(_) => {},
    }
    let w = sweep_spec(l);
    let fb = fresh_below(l.rest, l.count as int);
    lemma_fresh_below_ids(l.rest, l.count as int);
    assert forall|i: int, j: int| 0 <= i < j < w.head.len() implies #[trigger] w.head[i].id != #[trigger] w.head[j].id by {
        if j < l.head.len() {
            assert(l.head[i].id != l.head[j].id);
        } else if i < l.head.len() {
            assert(w.head[j] == fb[j - l.head.len()]);
            assert(l.rest.contains_key(fb[j - l.head.len()].id));
        } else {
            assert(w.head[i] == fb[i - l.head.len()]);
            assert(w.head[j] == fb[j - l.head.len()]);
            assert(fb[i - l.head.len()].id < fb[j - l.head.len()].id);
        }
    }
    assert forall|i: int| 0 <= i < w.head.len() implies #[trigger] w.head[i].id < w.count && !w.rest.contains_key(
        w.head[i].id,
    ) && !w.large.contains_key(w.head[i].id) && bump_shaped(w.head[i]) by {
        if i < l.head.len() {
            assert(l.head[i].id < l.count);
        } else {
            let b = fb[i - l.head.len()];
            assert(w.head[i] == b);
            assert(l.rest.contains_key(b.id) && l.rest[b.id] == b && fresh_v(b));
            assert(!w.rest.contains_key(b.id));
            assert(!l.large.contains_key(b.id));
        }
    }
}

pub struct BlockList {
    head: VecDeque<BumpBlock>,
    large: HashMap<usize, LargeBlock>,
    rest: HashMap<usize, BumpBlock>,
    count: usize,
}

pub open spec fn bumps_view(s: Seq<BumpBlock>) -> Seq<BumpV> {
    Seq::new(s.len(), |i: int| s[i]@)
}

impl View for BlockList {
    type V = ListV;

    closed spec fn view(&self) -> ListV {
        ListV {
            head: bumps_view(self.head@),
            rest: self.rest@.map_values(|b: BumpBlock| b@),
            large: self.large@.map_values(|b: LargeBlock| b@),
            count: self.count,
        }
    }
}

impl BlockList {
    pub closed spec fn wf(&self) -> bool {
        &&& forall|i: int|
            0 <= i < self.head@.len() ==> #[trigger] self.head@[i].wf() && self.head@[i]@.id
                < self.count
        &&& forall|k: usize| #[trigger]
            self.rest@.contains_key(k) ==> self.rest@[k].wf() && k < self.count && self.rest@[k]@.id
                < self.count
        &&& forall|k: usize| #[trigger] self.large@.contains_key(k) ==> k < self.count
    }

    pub fn new() -> (res: BlockList)
        ensures
            res.wf(),
            res@ == (ListV { head: Seq::empty(), rest: Map::empty(), large: Map::empty(), count: 0 }),
    {
        let l = BlockList {
            head: VecDeque::new(),
            large: HashMap::new(),
            rest: HashMap::new(),
            count: 0,
        };
        assert(bumps_view(l.head@) =~= Seq::empty());
        assert(l.rest@.map_values(|b: BumpBlock| b@) =~= Map::empty());
        assert(l.large@.map_values(|b: LargeBlock| b@) =~= Map::empty());
        l
    }

    /// A new bump block numbered by the count; none where the count is
    /// exhausted or the allocator refuses.
    fn fresh_block(&mut self) -> (res: Option<BumpBlock>)
        requires
            old(self).wf(),
        ensures
            final(self).wf(),
            match res {
                Some(b) => b.wf() && b@ == fresh_bump(old(self)@.count) && b@.id < final(self)@.count
                    && old(self)@.count < usize::MAX
                    && final(self)@ == (ListV { count: (old(self)@.count + 1) as usize, ..old(self)@ }),
                None => final(self)@ == old(self)@,
            },
    {
        if self.count == usize::MAX {
            return None;
        }
        match BumpBlock::new(self.count) {
            Ok(b) => {
                self.count = self.count + 1;
                assert forall|i: int| 0 <= i < self.head@.len() implies #[trigger] self.head@[i].wf()
                    && self.head@[i]@.id < self.count by {
                    assert(old(self).head@[i].wf());
                }
                assert forall|k: usize| #[trigger]
                    self.rest@.contains_key(k) implies self.rest@[k].wf() && k < self.count by {}
                assert forall|k: usize| #[trigger] self.large@.contains_key(k) implies k < self.count by {}
                Some(b)
            },
            Err(_) => None,
        }
    }

    /// Retire a bump block to the rest, under its identity.
    fn retire(&mut self, b: BumpBlock)
        requires
            old(self).wf(),
            b.wf(),
            b@.id < old(self)@.count,
        ensures
            final(self).wf(),
            final(self)@ == (ListV { rest: old(self)@.rest.insert(b@.id, b@), ..old(self)@ }),
    {
        let ghost bv = b@;
        let id = b.id();
        self.rest.insert(id, b);
        assert(self.rest@.map_values(|b: BumpBlock| b@) =~= old(self)@.rest.insert(bv.id, bv));
    }

    /// Allocate in the current block, which is put back first.
    fn alloc_in(&mut self, mut b: BumpBlock, alloc_size: usize) -> (res: Result<PairPtr, BlockError>)
        requires
            old(self).wf(),
            b.wf(),
            b@.id < old(self)@.count,
        ensures
            final(self).wf(),
            match bump_alloc(b@, alloc_size) {
                Ok(r) => final(self)@ == (ListV { head: seq![r.block] + old(self)@.head, ..old(self)@ })
                    && res == Ok::<PairPtr, BlockError>(bumped_ptr(b@, r)),
                Err(e) => final(self)@ == (ListV { head: seq![b@] + old(self)@.head, ..old(self)@ })
                    && res == Err::<PairPtr, BlockError>(e),
            },
    {
        let ghost before = self.head@;
        let r = b.inner_alloc(alloc_size);
        let ghost bv = b@;
        self.head.push_front(b);
        assert(bumps_view(self.head@) =~= seq![bv] + bumps_view(before));
        match r {
            Ok((meta_ptr, cursor)) => Ok(PairPtr { meta: OR::L(meta_ptr), data: cursor }),
            Err(e) => Err(e),
        }
    }

    /// Allocation where `first` is the only head block: in it, else in a
    /// new block that replaces it.
    fn alloc_single(&mut self, first: BumpBlock, alloc_size: usize) -> (res: Result<PairPtr, AllocError>)
        requires
            old(self).wf(),
            first.wf(),
            first@.id < old(self)@.count,
            old(self)@.head.len() == 0,
            alloc_size <= BLOCK_CAPACITY,
        ensures
            final(self).wf(),
            (final(self)@, res) == head_alloc_spec(ListV { head: seq![first@], ..old(self)@ }, alloc_size, true)
                || (final(self)@, res) == head_alloc_spec(
                ListV { head: seq![first@], ..old(self)@ },
                alloc_size,
                false,
            ),
            res matches Err(e) ==> e is OutOfMemory,
    {
        let ghost l0 = ListV { head: seq![first@], ..self@ };
        let ghost fv = first@;
        match self.alloc_in(first, alloc_size) {
            Ok(ptr) => {
                assert(seq![bump_alloc(fv, alloc_size)->Ok_0.block] =~= l0.head.update(
                    0,
                    bump_alloc(fv, alloc_size)->Ok_0.block,
                ));
                return Ok(ptr);
            },
            Err(_) => {},
        }
        // it is full: replace it by a new block
        assert(bumps_view(self.head@).len() == self.head@.len());
        assert(bumps_view(self.head@)[0] == self.head@[0]@);
        let first = self.head.pop_front().unwrap();
        assert(bumps_view(self.head@) =~= Seq::empty());
        let new_bump = match self.fresh_block() {
            Some(b) => b,
            None => {
                let ghost before = self.head@;
                self.head.push_front(first);
                assert(bumps_view(self.head@) =~= seq![first@] + bumps_view(before));
                assert(bumps_view(self.head@) =~= l0.head);
                return Err(AllocError::OutOfMemory);
            },
        };
        self.retire(first);
        match self.alloc_in(new_bump, alloc_size) {
            Ok(ptr) => Ok(ptr),
            Err(_) => Err(AllocError::OutOfMemory),
        }
    }

    fn head_alloc(&mut self, alloc_size: usize) -> (res: Result<PairPtr, AllocError>)
        requires
            old(self).wf(),
            alloc_size <= BLOCK_CAPACITY,
        ensures
            final(self).wf(),
            (final(self)@, res) == head_alloc_spec(old(self)@, alloc_size, true) || (final(self)@, res)
                == head_alloc_spec(old(self)@, alloc_size, false),
            res matches Err(e) ==> e is OutOfMemory,
        decreases (if old(self).head@.len() == 0 {
            1int
        } else {
            0int
        }), old(self).head@.len(),
    {
        if self.head.len() == 0 {
            let new_block = match self.fresh_block() {
                Some(b) => b,
                None => return Err(AllocError::OutOfMemory),
            };
            let ghost nb = new_block@;
            assert(bumps_view(self.head@).len() == 0);
            assert(self.head@.len() == 0);
            self.head.push_back(new_block);
            assert(self.head@.len() == 1);
            assert(self.head@[0]@ == nb);
            assert(bumps_view(self.head@) =~= seq![nb]);
            // recursion
            let ghost l1 = self@;
            proof {
                lemma_fresh_bump_fits(nb.id, alloc_size);
                assert(head_alloc_spec(old(self)@, alloc_size, true) == head_alloc_spec(l1, alloc_size, true));
                assert(head_alloc_spec(l1, alloc_size, false) == head_alloc_spec(l1, alloc_size, true));
            }
            let r = self.head_alloc(alloc_size);
            return r;
        }
        let ghost l0 = self@;
        assert(self.head@[0].wf() && self.head@[0]@.id < self.count);
        let first = self.head.pop_front().unwrap();
        assert(bumps_view(self.head@) =~= l0.head.drop_first());
        let ghost fv = first@;
        if self.head.len() == 0 {
            // the current block is the only one
            assert(l0.head =~= seq![fv]);
            assert(l0 == (ListV { head: seq![fv], ..self@ }));
            let r = self.alloc_single(first, alloc_size);
            r
        } else {
            match self.alloc_in(first, alloc_size) {
                Ok(ptr) => {
                    assert(seq![bump_alloc(fv, alloc_size)->Ok_0.block] + l0.head.drop_first() =~= l0.head.update(0, bump_alloc(fv, alloc_size)->Ok_0.block));
                    assert((self@, Ok::<PairPtr, AllocError>(ptr)) == head_alloc_spec(old(self)@, alloc_size, true));
                    Ok(ptr)
                },
                Err(_) => {
                    // head[0] bump block is full: retire it and try the next
                    assert(bumps_view(self.head@).len() == self.head@.len());
                    assert(bumps_view(self.head@)[0] == self.head@[0]@);
                    let ghost l1 = self@;
                    let first = self.head.pop_front().unwrap();
                    assert(bumps_view(self.head@) =~= l1.head.drop_first());
                    assert(first@ == fv);
                    assert(l0.head[0] == fv);
                    assert(bump_alloc(fv, alloc_size) is Err);
                    let ghost l2 = ListV { rest: l0.rest.insert(fv.id, fv), head: l0.head.drop_first(), ..l0 };
                    assert(head_alloc_spec(l0, alloc_size, true) == head_alloc_spec(l2, alloc_size, true));
                    assert(head_alloc_spec(l0, alloc_size, false) == head_alloc_spec(l2, alloc_size, false));
                    self.retire(first);
                    assert(self@.head == l2.head);
                    assert(self@ == l2);
                    let r = self.head_alloc(alloc_size);
                    r
                },
            }
        }
    }

    fn large_alloc(&mut self, alloc_size: usize) -> (res: Result<PairPtr, AllocError>)
        requires
            old(self).wf(),
            alloc_size <= usize::MAX / 2 + 1,
        ensures
            final(self).wf(),
            (final(self)@, res) == large_alloc_spec(old(self)@, alloc_size, true) || (final(self)@, res)
                == large_alloc_spec(old(self)@, alloc_size, false),
    {
        let size = next_power_of_two(alloc_size);
        if self.count == usize::MAX {
            return Err(AllocError::OutOfMemory);
        }
        let new_large_block = match LargeBlock::new(size) {
            Ok(b) => b,
            Err(e) => return Err(AllocError::InternalError(e)),
        };
        let ghost bv = new_large_block@;
        let key = self.count;
        self.large.insert(key, new_large_block);
        self.count = self.count + 1;
        assert(self.large@.map_values(|b: LargeBlock| b@) =~= old(self)@.large.insert(key, bv));
        assert forall|i: int| 0 <= i < self.head@.len() implies #[trigger] self.head@[i].wf()
            && self.head@[i]@.id < self.count by {
            assert(old(self).head@[i].wf());
        }
        assert forall|k: usize| #[trigger]
            self.rest@.contains_key(k) implies self.rest@[k].wf() && k < self.count by {
            assert(old(self).rest@.contains_key(k));
        }
        assert forall|k: usize| #[trigger] self.large@.contains_key(k) implies k < self.count by {
            if k != key {
                assert(old(self).large@.contains_key(k));
            }
        }
        Ok(PairPtr { meta: OR::R(key), data: 0 })
    }

    /// Allocate `alloc_size` bytes by their size class.
    pub fn allocate(&mut self, alloc_size: usize) -> (res: Result<PairPtr, AllocError>)
        requires
            old(self).wf(),
            alloc_size <= usize::MAX / 2 + 1,
        ensures
            final(self).wf(),
            (final(self)@, res) == alloc_spec(old(self)@, alloc_size, true) || (final(self)@, res) == alloc_spec(
                old(self)@,
                alloc_size,
                false,
            ),
    {
        let size = match SizeClass::from(alloc_size) {
            Ok(size) => size,
            Err(e) => return Err(AllocError::from(e)),
        };
        match size {
            SizeClass::Small | SizeClass::Medium => self.head_alloc(alloc_size),
            SizeClass::Large => self.large_alloc(alloc_size),
        }
    }

    /// Give back every large block that is unmarked.
    fn dealloc_large(&mut self)
        requires
            old(self).wf(),
        ensures
            final(self).wf(),
            final(self)@ == (ListV {
                large: Map::new(
                    |k: usize| old(self)@.large.contains_key(k) && old(self)@.large[k].mark != Mark::Unmarked,
                    |k: usize| old(self)@.large[k],
                ),
                ..old(self)@
            }),
    {
        let ghost l0 = self@;
        let mut idx: usize = 0;
        assert(l0.large =~= Map::new(
            |k: usize| l0.large.contains_key(k) && (k < 0 ==> l0.large[k].mark != Mark::Unmarked),
            |k: usize| l0.large[k],
        ));
        while idx < self.count
            invariant
                self.wf(),
                self.count == old(self)@.count,
                l0 == old(self)@,
                self@ == (ListV {
                    large: Map::new(
                        |k: usize| l0.large.contains_key(k) && (k < idx ==> l0.large[k].mark != Mark::Unmarked),
                        |k: usize| l0.large[k],
                    ),
                    ..l0
                }),
            decreases old(self)@.count - idx,
        {
            let ghost before = self@.large;
            let drop = match self.large.get(&idx) {
                Some(b) => b.is_unmarked(),
                None => false,
            };
            assert(drop == (before.contains_key(idx) && before[idx].mark == Mark::Unmarked));
            if drop {
                let removed = self.large.remove(&idx);
                match removed {
                    Some(b) => b.dealloc_block(),
                    None => {},
                }
                assert(self@.large =~= before.remove(idx));
            }
            assert forall|k: usize| #[trigger] self.large@.contains_key(k) implies k < self.count by {
                assert(before.contains_key(k));
            }
            assert(self@.large =~= Map::new(
                |k: usize| l0.large.contains_key(k) && (k < idx + 1 ==> l0.large[k].mark != Mark::Unmarked),
                |k: usize| l0.large[k],
            ));
            idx = idx + 1;
        }
        assert(self@.large =~= Map::new(
            |k: usize| l0.large.contains_key(k) && l0.large[k].mark != Mark::Unmarked,
            |k: usize| l0.large[k],
        ));
    }

    /// Move every fresh retired block back to the head blocks.
    fn recycle(&mut self)
        requires
            old(self).wf(),
        ensures
            final(self).wf(),
            final(self)@ == (ListV {
                head: old(self)@.head + fresh_below(old(self)@.rest, old(self)@.count as int),
                rest: Map::new(
                    |k: usize| old(self)@.rest.contains_key(k) && !fresh_v(old(self)@.rest[k]),
                    |k: usize| old(self)@.rest[k],
                ),
                ..old(self)@
            }),
    {
        let ghost l0 = self@;
        let mut idx: usize = 0;
        assert(l0.rest =~= Map::new(
            |k: usize| l0.rest.contains_key(k) && (k < 0 ==> !fresh_v(l0.rest[k])),
            |k: usize| l0.rest[k],
        ));
        assert(l0.head + fresh_below(l0.rest, 0) =~= l0.head);
        while idx < self.count
            invariant
                self.wf(),
                self.count == old(self)@.count,
                idx <= self.count,
                l0 == old(self)@,
                self@ == (ListV {
                    head: l0.head + fresh_below(l0.rest, idx as int),
                    rest: Map::new(
                        |k: usize| l0.rest.contains_key(k) && (k < idx ==> !fresh_v(l0.rest[k])),
                        |k: usize| l0.rest[k],
                    ),
                    ..l0
                }),
            decreases old(self)@.count - idx,
        {
            let ghost before = self@;
            let fresh = match self.rest.get(&idx) {
                Some(b) => b.is_fresh(),
                None => false,
            };
            assert(fresh == (before.rest.contains_key(idx) && fresh_v(before.rest[idx])));
            if fresh {
                let ghost hv = self.head@;
                let ghost rc = self.rest@;
                let blk = self.rest.remove(&idx).unwrap();
                assert(self.rest@.map_values(|b: BumpBlock| b@) =~= before.rest.remove(idx));
                let ghost bv = blk@;
                self.head.push_back(blk);
                assert(bumps_view(self.head@) =~= bumps_view(hv).push(bv));
                assert(self@.head =~= l0.head + fresh_below(l0.rest, idx + 1));
                assert(self@.rest =~= Map::new(
                    |k: usize| l0.rest.contains_key(k) && (k < idx + 1 ==> !fresh_v(l0.rest[k])),
                    |k: usize| l0.rest[k],
                ));
                assert forall|i: int| 0 <= i < self.head@.len() implies #[trigger] self.head@[i].wf()
                    && self.head@[i]@.id < self.count by {
                    if i < hv.len() {
                        assert(hv[i] == self.head@[i]);
                    }
                }
                assert forall|k: usize| #[trigger] self.rest@.contains_key(k) implies self.rest@[k].wf()
                    && k < self.count && self.rest@[k]@.id < self.count by {
                    assert(rc.contains_key(k) && rc[k] == self.rest@[k]);
                }
            } else {
                assert(self@.head =~= l0.head + fresh_below(l0.rest, idx + 1));
                assert(self@.rest =~= Map::new(
                    |k: usize| l0.rest.contains_key(k) && (k < idx + 1 ==> !fresh_v(l0.rest[k])),
                    |k: usize| l0.rest[k],
                ));
            }
            idx = idx + 1;
        }
        assert(self@.rest =~= Map::new(
            |k: usize| l0.rest.contains_key(k) && !fresh_v(l0.rest[k]),
            |k: usize| l0.rest[k],
        ));
    }

    /// Give back the unmarked large blocks and reuse the fresh bump blocks.
    pub fn sweep(&mut self)
        requires
            old(self).wf(),
        ensures
            final(self).wf(),
            final(self)@ == sweep_spec(old(self)@),
    {
        self.dealloc_large();
        self.recycle();
    }

    fn unmark_large(&mut self)
        requires
            old(self).wf(),
        ensures
            final(self).wf(),
            final(self)@ == (ListV {
                large: old(self)@.large.map_values(|b: LargeV| LargeV { mark: Mark::Unmarked, ..b }),
                ..old(self)@
            }),
    {
        let ghost l0 = self@;
        let mut idx: usize = 0;
        assert(l0.large =~= Map::new(
            |k: usize| l0.large.contains_key(k),
            |k: usize| if k < 0 { LargeV { mark: Mark::Unmarked, ..l0.large[k] } } else { l0.large[k] },
        ));
        while idx < self.count
            invariant
                self.wf(),
                self.count == old(self)@.count,
                idx <= self.count,
                l0 == old(self)@,
                self@ == (ListV {
                    large: Map::new(
                        |k: usize| l0.large.contains_key(k),
                        |k: usize| if k < idx {
                            LargeV { mark: Mark::Unmarked, ..l0.large[k] }
                        } else {
                            l0.large[k]
                        },
                    ),
                    ..l0
                }),
            decreases old(self)@.count - idx,
        {
            let ghost before = self@.large;
            let ghost lc = self.large@;
            match self.large.remove(&idx) {
                Some(mut lblk) => {
                    assert(lc.contains_key(idx) && lblk == lc[idx]);
                    assert(before.contains_key(idx));
                    assert(l0.large.contains_key(idx));
                    assert(before[idx] == l0.large[idx]);
                    lblk.unmark();
                    let ghost bv = lblk@;
                    self.large.insert(idx, lblk);
                    assert(self@.large =~= before.insert(idx, bv));
                },
                None => {
                    assert(!lc.contains_key(idx));
                    assert(self.large@ =~= lc);
                    assert(!before.contains_key(idx));
                    assert(!l0.large.contains_key(idx));
                },
            }
            assert(self@.large =~= Map::new(
                |k: usize| l0.large.contains_key(k),
                |k: usize| if k < idx + 1 {
                    LargeV { mark: Mark::Unmarked, ..l0.large[k] }
                } else {
                    l0.large[k]
                },
            ));
            assert forall|k: usize| #[trigger] self.large@.contains_key(k) implies k < self.count by {
                assert(lc.contains_key(k));
            }
            idx = idx + 1;
        }
        assert(self@.large =~= l0.large.map_values(|b: LargeV| LargeV { mark: Mark::Unmarked, ..b }));
    }

    fn unmark_rest(&mut self)
        requires
            old(self).wf(),
        ensures
            final(self).wf(),
            final(self)@ == (ListV { rest: old(self)@.rest.map_values(|b: BumpV| unmarked_v(b)), ..old(self)@ }),
    {
        let ghost l0 = self@;
        let mut idx: usize = 0;
        assert(l0.rest =~= Map::new(
            |k: usize| l0.rest.contains_key(k),
            |k: usize| if k < 0 { unmarked_v(l0.rest[k]) } else { l0.rest[k] },
        ));
        while idx < self.count
            invariant
                self.wf(),
                self.count == old(self)@.count,
                idx <= self.count,
                l0 == old(self)@,
                self@ == (ListV {
                    rest: Map::new(
                        |k: usize| l0.rest.contains_key(k),
                        |k: usize| if k < idx {
                            unmarked_v(l0.rest[k])
                        } else {
                            l0.rest[k]
                        },
                    ),
                    ..l0
                }),
            decreases old(self)@.count - idx,
        {
            let ghost before = self@.rest;
            let ghost rc = self.rest@;
            match self.rest.remove(&idx) {
                Some(mut blk) => {
                    assert(rc.contains_key(idx) && blk == rc[idx]);
                    assert(before.contains_key(idx));
                    assert(l0.rest.contains_key(idx));
                    assert(before[idx] == l0.rest[idx]);
                    blk.unmark();
                    let ghost bv = blk@;
                    self.rest.insert(idx, blk);
                    assert(self@.rest =~= before.insert(idx, bv));
                },
                None => {
                    assert(!rc.contains_key(idx));
                    assert(self.rest@ =~= rc);
                    assert(!before.contains_key(idx));
                    assert(!l0.rest.contains_key(idx));
                },
            }
            assert(self@.rest =~= Map::new(
                |k: usize| l0.rest.contains_key(k),
                |k: usize| if k < idx + 1 {
                    unmarked_v(l0.rest[k])
                } else {
                    l0.rest[k]
                },
            ));
            assert forall|k: usize| #[trigger] self.rest@.contains_key(k) implies self.rest@[k].wf()
                && k < self.count && self.rest@[k]@.id < self.count by {
                assert(rc.contains_key(k));
            }
            idx = idx + 1;
        }
        assert(self@.rest =~= l0.rest.map_values(|b: BumpV| unmarked_v(b)));
    }

    /// Unmark every block: the large blocks, the current head block and the
    /// retired blocks.
    pub fn unmark_all(&mut self)
        requires
            old(self).wf(),
        ensures
            final(self).wf(),
            final(self)@ == unmark_all_spec(old(self)@),
    {
        self.unmark_head();
        self.unmark_large();
        self.unmark_rest();
    }

    fn unmark_head(&mut self)
        requires
            old(self).wf(),
        ensures
            final(self).wf(),
            final(self)@ == (ListV {
                head: if old(self)@.head.len() > 0 {
                    old(self)@.head.update(0, unmarked_v(old(self)@.head[0]))
                } else {
                    old(self)@.head
                },
                ..old(self)@
            }),
    {
        if self.head.len() != 0 {
            let ghost l1 = self@;
            assert(self.head@.len() > 0);
            assert(self.wf());
            assert(self.head@[0].wf());
            assert(bumps_view(self.head@)[0] == self.head@[0]@);
            let mut first = self.head.pop_front().unwrap();
            first.unmark();
            let ghost fv = first@;
            let ghost hv = self.head@;
            self.head.push_front(first);
            assert(bumps_view(self.head@) =~= l1.head.update(0, unmarked_v(l1.head[0])));
            assert forall|i: int| 0 <= i < self.head@.len() implies #[trigger] self.head@[i].wf()
                && self.head@[i]@.id < self.count by {
                if i > 0 {
                    assert(self.head@[i] == hv[i - 1]);
                    assert(old(self).head@[i].wf());
                }
            }
        }
    }

    /// Set the marks of lines `low..=high` of head block `i`.
    fn mark_head(&mut self, i: usize, mark: &Mark, low: usize, high: usize)
        requires
            old(self).wf(),
            i < old(self)@.head.len(),
            high < LINE_COUNT,
        ensures
            final(self).wf(),
            final(self)@ == (ListV {
                head: old(self)@.head.update(
                    i as int,
                    BumpV {
                        marks: set_range(old(self)@.head[i as int].marks, low as int, high as int, *mark),
                        ..old(self)@.head[i as int]
                    },
                ),
                ..old(self)@
            }),
    {
        let ghost l0 = self@;
        assert(self.wf());
        assert(self.head@[i as int].wf());
        assert(bumps_view(self.head@)[i as int] == self.head@[i as int]@);
        let ghost hv = self.head@;
        let mut b = self.head.remove(i).unwrap();
        b.set_marks(mark, low, high);
        let ghost bv = b@;
        let ghost bb = b;
        self.head.insert(i, b);
        assert(self.head@ =~= hv.update(i as int, bb));
        assert(bumps_view(self.head@) =~= l0.head.update(i as int, bv));
        assert forall|j: int| 0 <= j < self.head@.len() implies #[trigger] self.head@[j].wf()
            && self.head@[j]@.id < self.count by {
            if j != i {
                assert(self.head@[j] == hv[j]);
                assert(old(self).head@[j].wf());
            } else {
                assert(self.head@[j] == bb);
                assert(old(self).head@[j].wf());
            }
        }
    }

    /// Set the marks of lines `low..=high` of the retired block `key`, if any.
    fn mark_rest(&mut self, key: usize, mark: &Mark, low: usize, high: usize)
        requires
            old(self).wf(),
            high < LINE_COUNT,
        ensures
            final(self).wf(),
            final(self)@ == (if old(self)@.rest.contains_key(key) {
                ListV {
                    rest: old(self)@.rest.insert(
                        key,
                        BumpV {
                            marks: set_range(old(self)@.rest[key].marks, low as int, high as int, *mark),
                            ..old(self)@.rest[key]
                        },
                    ),
                    ..old(self)@
                }
            } else {
                old(self)@
            }),
    {
        let ghost rc = self.rest@;
        match self.rest.remove(&key) {
            Some(mut b) => {
                assert(rc.contains_key(key) && b == rc[key]);
                assert(old(self).rest@.contains_key(key));
                b.set_marks(mark, low, high);
                let ghost bv = b@;
                self.rest.insert(key, b);
                assert(self@.rest =~= old(self)@.rest.insert(key, bv));
                assert forall|k: usize| #[trigger] self.rest@.contains_key(k) implies self.rest@[k].wf()
                    && k < self.count && self.rest@[k]@.id < self.count by {
                    if k != key {
                        assert(rc.contains_key(k));
                    }
                }
            },
            None => {
                assert(self.rest@ =~= rc);
            },
        }
    }

    /// Set the mark of the large block `key`, if any.
    fn mark_large(&mut self, key: usize, mark: &Mark)
        requires
            old(self).wf(),
        ensures
            final(self).wf(),
            final(self)@ == (if old(self)@.large.contains_key(key) {
                ListV { large: old(self)@.large.insert(key, LargeV { mark: *mark, ..old(self)@.large[key] }), ..old(self)@ }
            } else {
                old(self)@
            }),
    {
        let ghost lc = self.large@;
        match self.large.remove(&key) {
            Some(mut b) => {
                assert(lc.contains_key(key) && b == lc[key]);
                b.set_mark(mark);
                let ghost bv = b@;
                self.large.insert(key, b);
                assert(self@.large =~= old(self)@.large.insert(key, bv));
                assert forall|k: usize| #[trigger] self.large@.contains_key(k) implies k < self.count by {
                    if k != key {
                        assert(lc.contains_key(k));
                    }
                }
            },
            None => {
                assert(self.large@ =~= lc);
            },
        }
    }

    /// Whether line `low` of head block `i` is unmarked.
    fn head_is_unmarked(&self, i: usize, low: usize) -> (res: bool)
        requires
            self.wf(),
            i < self@.head.len(),
            low < LINE_COUNT,
        ensures
            res == (self@.head[i as int].marks[low as int] == Mark::Unmarked),
    {
        assert(self.head@[i as int].wf());
        assert(bumps_view(self.head@)[i as int] == self.head@[i as int]@);
        self.head[i].meta.is_unmarked(low)
    }

    /// Set the mark of the allocation `ptr`.
    pub fn set_mark(&mut self, ptr: &PairPtr, mark: &Mark)
        requires
            old(self).wf(),
        ensures
            final(self).wf(),
            final(self)@ == set_mark_spec(old(self)@, *ptr, *mark),
    {
        match ptr.meta {
            OR::L(mp) => {
                if mp.high >= LINE_COUNT {
                    return ;
                }
                let ghost l0 = self@;
                let mut i: usize = 0;
                while i < self.head.len()
                    invariant
                        *self == *old(self),
                        l0 == old(self)@,
                        self.wf(),
                        ptr.meta == OR::<MetaPtr, usize>::L(mp),
                        mp.high < LINE_COUNT,
                        i <= self.head@.len(),
                        head_index(l0.head, mp.block, 0) == head_index(l0.head, mp.block, i as int),
                    decreases self.head@.len() - i,
                {
                    assert(bumps_view(self.head@)[i as int] == self.head@[i as int]@);
                    if self.head[i].id() == mp.block {
                        assert(head_index(l0.head, mp.block, i as int) == Some(i as int));
                        self.mark_head(i, mark, mp.low, mp.high);
                        return ;
                    }
                    i = i + 1;
                }
                self.mark_rest(mp.block, mark, mp.low, mp.high);
            },
            OR::R(key) => self.mark_large(key, mark),
        }
    }

    /// Whether the allocation `ptr` is unmarked.
    pub fn is_unmarked(&self, ptr: &PairPtr) -> (res: bool)
        requires
            self.wf(),
        ensures
            res == is_unmarked_spec(self@, *ptr),
    {
        match ptr.meta {
            OR::L(mp) => {
                if mp.low >= LINE_COUNT {
                    return false;
                }
                let ghost l0 = self@;
                let mut i: usize = 0;
                while i < self.head.len()
                    invariant
                        l0 == self@,
                        self.wf(),
                        ptr.meta == OR::<MetaPtr, usize>::L(mp),
                        mp.low < LINE_COUNT,
                        i <= self.head@.len(),
                        head_index(l0.head, mp.block, 0) == head_index(l0.head, mp.block, i as int),
                    decreases self.head@.len() - i,
                {
                    assert(bumps_view(self.head@)[i as int] == self.head@[i as int]@);
                    if self.head[i].id() == mp.block {
                        assert(head_index(l0.head, mp.block, i as int) == Some(i as int));
                        return self.head_is_unmarked(i, mp.low);
                    }
                    i = i + 1;
                }
                match self.rest.get(&mp.block) {
                    Some(b) => {
                        assert(self.rest@.contains_key(mp.block));
                        b.meta.is_unmarked(mp.low)
                    },
                    None => false,
                }
            },
            OR::R(key) => match self.large.get(&key) {
                Some(b) => b.is_unmarked(),
                None => false,
            },
        }
    }
}

impl Default for BlockList {
    fn default() -> (res: Self)
        ensures
            res.wf(),
            res@ == (ListV { head: Seq::empty(), rest: Map::empty(), large: Map::empty(), count: 0 }),
    {
        Self::new()
    }
}

} // verus!
