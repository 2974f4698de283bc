use vstd::prelude::*;

use super::block::{BLOCK_CAPACITY, LINE_COUNT};
use super::bump::{allocs_above, down_alloc, law_down_alloc_placed, BumpBlock, BumpV};
use crate::immix::blocks::in_alloc;
use crate::memory::errors::{AllocError, BlockError};
use crate::immix::size::SizeClass;

verus! {

/// A fresh bump block as a value.
pub open spec fn fresh_bump() -> BumpV {
    BumpV { cursor: BLOCK_CAPACITY, limit: 0, marks: Seq::new(LINE_COUNT as nat, |i: int| 0u8) }
}

/// The block list as a value: the current block and the block for medium
/// objects that do not fit the current hole, each with its identity, the
/// retired blocks, and the count that numbers new blocks.
pub struct ListV {
    pub head: Option<(usize, BumpV)>,
    pub overflow: Option<(usize, BumpV)>,
    pub rest: Seq<BumpV>,
    pub count: usize,
}

/// Where a space was found: the identity of its block and its offset there.
pub type Space = (usize, usize);

/// Allocation in the overflow block: a full overflow block is retired and
/// replaced by a new one, numbered by the count. `g` tells whether the new
/// block is granted; a refused one (or one that no identity is left for)
/// leaves the list as it was and gives `OutOfMemory`.
pub open spec fn overflow_alloc_spec(l: ListV, size: usize, g: bool) -> (ListV, Result<Space, AllocError>) {
    match l.overflow {
        Some((oid, o)) => match down_alloc(o, size) {
            Ok((o2, p)) => (ListV { overflow: Some((oid, o2)), ..l }, Ok((oid, p))),
            Err(_) => if !g || l.count == usize::MAX {
                (l, Err(AllocError::OutOfMemory))
            } else {
                let l2 = ListV { rest: l.rest.push(o), count: (l.count + 1) as usize, ..l };
                match down_alloc(fresh_bump(), size) {
                    Ok((f2, p)) => (ListV { overflow: Some((l.count, f2)), ..l2 }, Ok((l.count, p))),
                    Err(_) => (ListV { overflow: Some((l.count, fresh_bump())), ..l2 }, Err(AllocError::OutOfMemory)),
                }
            },
        },
        None => if !g || l.count == usize::MAX {
            (l, Err(AllocError::OutOfMemory))
        } else {
            match down_alloc(fresh_bump(), size) {
                Ok((f2, p)) => (
                    ListV { overflow: Some((l.count, f2)), count: (l.count + 1) as usize, ..l },
                    Ok((l.count, p)),
                ),
                Err(_) => (l, Err(AllocError::OutOfMemory)),
            }
        },
    }
}

/// A fresh block holds any allocation up to its capacity.
pub proof fn lemma_fresh_fits(size: usize)
    requires
        size <= BLOCK_CAPACITY,
    ensures
        down_alloc(fresh_bump(), size) is Ok,
{
}

/// Finding space for an object of a size class: large objects are
/// refused; a medium object that does not fit the current hole goes to the
/// overflow block; a full current block is retired and replaced by a new
/// one, numbered by the count. `g` tells whether a new block asked for is
/// granted; a refused one (or one that no identity is left for) leaves the
/// list as it was.
pub open spec fn find_space_spec(l: ListV, size: usize, class: SizeClass, g: bool) -> (ListV, Result<Space, AllocError>) {
    if class == SizeClass::Large {
        (l, Err(AllocError::SizeTooBig))
    } else {
        match l.head {
            Some((hid, h)) => if class == SizeClass::Medium && size > h.cursor - h.limit {
                overflow_alloc_spec(l, size, g)
            } else {
                match down_alloc(h, size) {
                    Ok((h2, p)) => (ListV { head: Some((hid, h2)), ..l }, Ok((hid, p))),
                    Err(_) => if !g || l.count == usize::MAX {
                        (l, Err(AllocError::InternalError(BlockError::OutOfMemory)))
                    } else {
                        let l2 = ListV { rest: l.rest.push(h), count: (l.count + 1) as usize, ..l };
                        match down_alloc(fresh_bump(), size) {
                            Ok((f2, p)) => (ListV { head: Some((l.count, f2)), ..l2 }, Ok((l.count, p))),
                            Err(e) => (ListV { head: Some((l.count, fresh_bump())), ..l2 }, Err(AllocError::InternalError(e))),
                        }
                    },
                }
            },
            None => if !g || l.count == usize::MAX {
                (l, Err(AllocError::InternalError(BlockError::OutOfMemory)))
            } else {
                match down_alloc(fresh_bump(), size) {
                    Ok((f2, p)) => (
                        ListV { head: Some((l.count, f2)), count: (l.count + 1) as usize, ..l },
                        Ok((l.count, p)),
                    ),
                    Err(e) => (l, Err(AllocError::InternalError(e))),
                }
            },
        }
    }
}

/// A bump block's shape: its hole within the data, a mark per line.
pub open spec fn shaped(b: BumpV) -> bool {
    b.limit <= b.cursor <= BLOCK_CAPACITY && b.marks.len() == LINE_COUNT
}

/// The blocks that take allocations are shaped and numbered below the
/// count, the current block and the overflow block apart.
pub open spec fn list_ok(l: ListV) -> bool {
    &&& (l.head matches Some((hid, h)) ==> hid < l.count && shaped(h))
    &&& (l.overflow matches Some((oid, o)) ==> oid < l.count && shaped(o))
    &&& (l.head matches Some((hid, _)) ==> (l.overflow matches Some((oid, _)) ==> hid != oid))
}

/// The bytes of the allocation in block `id` at `x`: the block was
/// numbered, and if it still takes allocations, the byte lies at or above
/// its cursor.
pub open spec fn above_cursor(l: ListV, id: usize, x: int) -> bool {
    &&& id < l.count
    &&& match l.head {
        Some((hid, h)) => hid == id ==> h.cursor <= x,
        None => true,
    }
    &&& match l.overflow {
        Some((oid, o)) => oid == id ==> o.cursor <= x,
        None => true,
    }
}

/// Every byte of each allocation made in the list lies in a numbered block,
/// at or above the cursor of a block that still takes allocations.
pub open spec fn spaced(l: ListV, allocs: Seq<(Space, usize)>) -> bool {
    forall|i: int, x: int|
        0 <= i < allocs.len() && #[trigger] in_alloc((allocs[i].0.1, allocs[i].1), x) ==> above_cursor(
            l,
            allocs[i].0.0,
            x,
        )
}

/// A new list is as the law below needs it, with nothing found in it.
pub proof fn law_new_list_spaced()
    ensures
        list_ok(ListV { head: None, overflow: None, rest: Seq::empty(), count: 0 }),
        spaced(ListV { head: None, overflow: None, rest: Seq::empty(), count: 0 }, Seq::empty()),
{
}

/// What a successful allocation keeps, for the law below.
pub open spec fn apart_after(l: ListV, allocs: Seq<(Space, usize)>, size: usize, l2: ListV, p: Space) -> bool {
    &&& forall|i: int, x: int|
        0 <= i < allocs.len() && #[trigger] in_alloc((allocs[i].0.1, allocs[i].1), x) && allocs[i].0.0 == p.0
            ==> !in_alloc((p.1, size), x)
    &&& list_ok(l2)
    &&& spaced(l2, allocs.push((p, size)))
}

/// Allocation in a block that takes allocations, or in a new one, keeps the
/// allocations apart.
proof fn lemma_bump_into(
    l: ListV,
    allocs: Seq<(Space, usize)>,
    size: usize,
    id: usize,
    b: BumpV,
    to_head: bool,
    l2: ListV,
)
    requires
        list_ok(l),
        spaced(l, allocs),
        shaped(b),
        down_alloc(b, size) is Ok,
        id < l.count ==> if to_head {
            l.head == Some((id, b))
        } else {
            l.overflow == Some((id, b))
        },
        id >= l.count ==> id == l.count && l.count < usize::MAX && b == fresh_bump() && if to_head {
            l.head is None
        } else {
            l.overflow is None
        },
        l2.count == if id == l.count {
            l.count + 1
        } else {
            l.count as int
        },
        to_head ==> l2.head == Some((id, down_alloc(b, size)->Ok_0.0)) && l2.overflow == l.overflow,
        !to_head ==> l2.overflow == Some((id, down_alloc(b, size)->Ok_0.0)) && l2.head == l.head,
    ensures
        apart_after(l, allocs, size, l2, (id, down_alloc(b, size)->Ok_0.1)),
{
    let (b1, p) = down_alloc(b, size)->Ok_0;
    law_down_alloc_placed(b, Seq::empty(), size);
    assert forall|i: int, x: int|
        0 <= i < allocs.len() && #[trigger] in_alloc((allocs[i].0.1, allocs[i].1), x) implies (allocs[i].0.0 == id
        ==> !in_alloc((p, size), x)) && above_cursor(l2, allocs[i].0.0, x) by {
        if allocs[i].0.0 == id {
            let one = seq![(allocs[i].0.1, allocs[i].1)];
            assert(one[0] == (allocs[i].0.1, allocs[i].1));
            assert(allocs_above(b, one));
            law_down_alloc_placed(b, one, size);
            assert(in_alloc(one[0], x));
            assert(one.push((p, size))[0] == one[0]);
        }
    }
    let a2 = allocs.push(((id, p), size));
    assert forall|i: int, x: int| 0 <= i < a2.len() && #[trigger] in_alloc((a2[i].0.1, a2[i].1), x) implies above_cursor(
        l2,
        a2[i].0.0,
        x,
    ) by {
        if i < allocs.len() {
            assert(a2[i] == allocs[i]);
        } else {
            assert(a2[i] == ((id, p), size));
            assert(Seq::<(usize, usize)>::empty().push((p, size))[0] == (p, size));
            assert(in_alloc(Seq::<(usize, usize)>::empty().push((p, size))[0], x));
        }
    }
}

/// A space found shares no byte with a space found before in the same
/// block: the blocks that take allocations place them downward apart, and
/// a new block has an identity never given before. The list stays as the
/// law needs it; so, from a new list, no two spaces ever found overlap.
pub proof fn law_find_space_apart(l: ListV, allocs: Seq<(Space, usize)>, size: usize, class: SizeClass, g: bool)
    requires
        list_ok(l),
        spaced(l, allocs),
        find_space_spec(l, size, class, g).1 is Ok,
    ensures
        ({
            let (l2, r) = find_space_spec(l, size, class, g);
            apart_after(l, allocs, size, l2, r->Ok_0)
        }),
{
    let (l2, r) = find_space_spec(l, size, class, g);
    match l.head {
        Some((hid, h)) => if class == SizeClass::Medium && size > h.cursor - h.limit {
            law_overflow_alloc_apart(l, allocs, size, g);
        } else {
            match down_alloc(h, size) {
                Ok(_) => lemma_bump_into(l, allocs, size, hid, h, true, l2),
                Err(_) => {
                    let lr = ListV { rest: l.rest.push(h), head: None, ..l };
                    assert(spaced(lr, allocs)) by {
                        assert forall|i: int, x: int|
                            0 <= i < allocs.len() && #[trigger] in_alloc((allocs[i].0.1, allocs[i].1), x)
                            implies above_cursor(lr, allocs[i].0.0, x) by {}
                    }
                    lemma_bump_into(lr, allocs, size, l.count, fresh_bump(), true, l2);
                    assert forall|i: int, x: int|
                        0 <= i < allocs.len() && #[trigger] in_alloc((allocs[i].0.1, allocs[i].1), x) && allocs[i].0.0
                            == r->Ok_0.0 implies !in_alloc((r->Ok_0.1, size), x) by {
                        assert(above_cursor(l, allocs[i].0.0, x));
                    }
                },
            }
        },
        None => lemma_bump_into(l, allocs, size, l.count, fresh_bump(), true, l2),
    }
}

/// A space found in the overflow block (the current one, or a new one
/// when it is full, the full one retired) shares no byte with a space found
/// before in the same block, and the list stays as the laws need it.
pub proof fn law_overflow_alloc_apart(l: ListV, allocs: Seq<(Space, usize)>, size: usize, g: bool)
    requires
        list_ok(l),
        spaced(l, allocs),
        overflow_alloc_spec(l, size, g).1 is Ok,
    ensures
        ({
            let (l2, r) = overflow_alloc_spec(l, size, g);
            apart_after(l, allocs, size, l2, r->Ok_0)
        }),
{
    let (l2, r) = overflow_alloc_spec(l, size, g);
    match l.overflow {
        Some((oid, o)) => match down_alloc(o, size) {
            Ok(_) => lemma_bump_into(l, allocs, size, oid, o, false, l2),
            Err(_) => {
                let lr = ListV { rest: l.rest.push(o), overflow: None, ..l };
                assert(spaced(lr, allocs)) by {
                    assert forall|i: int, x: int|
                        0 <= i < allocs.len() && #[trigger] in_alloc((allocs[i].0.1, allocs[i].1), x)
                        implies above_cursor(lr, allocs[i].0.0, x) by {}
                }
                lemma_bump_into(lr, allocs, size, l.count, fresh_bump(), false, l2);
                assert forall|i: int, x: int|
                    0 <= i < allocs.len() && #[trigger] in_alloc((allocs[i].0.1, allocs[i].1), x) && allocs[i].0.0
                        == r->Ok_0.0 implies !in_alloc((r->Ok_0.1, size), x) by {
                    assert(above_cursor(l, allocs[i].0.0, x));
                }
            },
        },
        None => lemma_bump_into(l, allocs, size, l.count, fresh_bump(), false, l2),
    }
}

pub struct BlockList {
    pub head: Option<BumpBlock>,
    pub overflow: Option<BumpBlock>,
    pub rest: Vec<BumpBlock>,
    /// identity of the current block
    head_id: usize,
    /// identity of the overflow block
    overflow_id: usize,
    /// the identity the next block gets
    count: usize,
}

pub open spec fn opt_view(b: Option<BumpBlock>, id: usize) -> Option<(usize, BumpV)> {
    match b {
        Some(b) => Some((id, b@)),
        None => None,
    }
}

impl View for BlockList {
    type V = ListV;

    closed spec fn view(&self) -> ListV {
        ListV {
            head: opt_view(self.head, self.head_id),
            overflow: opt_view(self.overflow, self.overflow_id),
            rest: Seq::new(self.rest@.len(), |i: int| self.rest@[i]@),
            count: self.count,
        }
    }
}

impl BlockList {
    pub closed spec fn wf(&self) -> bool {
        &&& (self.head matches Some(b) ==> b.wf())
        &&& (self.overflow matches Some(b) ==> b.wf())
        &&& list_ok(self@)
    }

    pub fn new() -> (res: BlockList)
        ensures
            res.wf(),
            res@ == (ListV { head: None, overflow: None, rest: Seq::empty(), count: 0 }),
    {
        let l = BlockList { head: None, overflow: None, rest: Vec::new(), head_id: 0, overflow_id: 0, count: 0 };
        assert(l@.rest =~= Seq::empty());
        l
    }

    /// Retire a block.
    fn retire(&mut self, b: BumpBlock)
        ensures
            final(self).head == old(self).head && final(self).overflow == old(self).overflow,
            final(self).head_id == old(self).head_id && final(self).overflow_id == old(self).overflow_id,
            final(self).count == old(self).count,
            final(self)@ == (ListV { rest: old(self)@.rest.push(b@), ..old(self)@ }),
    {
        let ghost bv = b@;
        self.rest.push(b);
        assert(self@.rest =~= old(self)@.rest.push(bv));
    }

    /// Allocate in the overflow block, where medium objects go that do not
    /// fit the current hole; gives the block's identity and the offset.
    pub fn overflow_alloc(&mut self, alloc_size: usize) -> (res: Result<Space, AllocError>)
        requires
            old(self).wf(),
            old(self)@.overflow is Some || alloc_size <= BLOCK_CAPACITY,
        ensures
            final(self).wf(),
            (final(self)@, res) == overflow_alloc_spec(old(self)@, alloc_size, true) || (final(self)@, res)
                == overflow_alloc_spec(old(self)@, alloc_size, false),
    {
        match self.overflow.take() {
            Some(mut overflow) => match overflow.inner_alloc(alloc_size) {
                Ok(space) => {
                    self.overflow = Some(overflow);
                    Ok((self.overflow_id, space))
                },
                Err(_) => {
                    // current bump block is full
                    if self.count == usize::MAX {
                        self.overflow = Some(overflow);
                        return Err(AllocError::OutOfMemory);
                    }
                    let mut new_bump = match BumpBlock::new() {
                        Ok(b) => b,
                        Err(_) => {
                            self.overflow = Some(overflow);
                            return Err(AllocError::OutOfMemory);
                        },
                    };
                    self.retire(overflow);
                    let space = new_bump.inner_alloc(alloc_size);
                    self.overflow = Some(new_bump);
                    self.overflow_id = self.count;
                    self.count = self.count + 1;
                    match space {
                        Ok(space) => Ok((self.overflow_id, space)),
                        Err(_) => Err(AllocError::OutOfMemory),
                    }
                },
            },
            None => {
                if self.count == usize::MAX {
                    return Err(AllocError::OutOfMemory);
                }
                let mut overflow = match BumpBlock::new() {
                    Ok(b) => b,
                    Err(_) => {
                        return Err(AllocError::OutOfMemory);
                    },
                };
                proof {
                    lemma_fresh_fits(alloc_size);
                }
                let space = overflow.inner_alloc(alloc_size);
                self.overflow = Some(overflow);
                self.overflow_id = self.count;
                self.count = self.count + 1;
                match space {
                    Ok(space) => Ok((self.overflow_id, space)),
                    // a fresh block holds the object
                    Err(_) => Err(AllocError::OutOfMemory),
                }
            },
        }
    }

    /// Find space for `alloc_size` bytes of the given size class; gives the
    /// identity of the block that serves it and the offset there.
    pub fn find_space(&mut self, alloc_size: usize, size_class: SizeClass) -> (res: Result<Space, AllocError>)
        requires
            old(self).wf(),
            size_class == SizeClass::Medium ==> alloc_size <= BLOCK_CAPACITY || old(self)@.overflow is Some,
        ensures
            final(self).wf(),
            (final(self)@, res) == find_space_spec(old(self)@, alloc_size, size_class, true) || (final(self)@, res)
                == find_space_spec(old(self)@, alloc_size, size_class, false),
    {
        if size_class == SizeClass::Large {
            return Err(AllocError::SizeTooBig);
        }
        match self.head.take() {
            Some(mut head) => {
                if size_class == SizeClass::Medium && alloc_size > head.current_hole_size() {
                    self.head = Some(head);
                    return self.overflow_alloc(alloc_size);
                }
                match head.inner_alloc(alloc_size) {
                    Ok(space) => {
                        self.head = Some(head);
                        Ok((self.head_id, space))
                    },
                    Err(_) => {
                        if self.count == usize::MAX {
                            self.head = Some(head);
                            return Err(AllocError::InternalError(BlockError::OutOfMemory));
                        }
                        let mut new_head = match BumpBlock::new() {
                            Ok(b) => b,
                            Err(e) => {
                                self.head = Some(head);
                                return Err(AllocError::InternalError(e));
                            },
                        };
                        self.retire(head);
                        let space = new_head.inner_alloc(alloc_size);
                        self.head = Some(new_head);
                        self.head_id = self.count;
                        self.count = self.count + 1;
                        match space {
                            Ok(space) => Ok((self.head_id, space)),
                            Err(e) => Err(AllocError::InternalError(e)),
                        }
                    },
                }
            },
            None => {
                if self.count == usize::MAX {
                    return Err(AllocError::InternalError(BlockError::OutOfMemory));
                }
                let mut head = match BumpBlock::new() {
                    Ok(b) => b,
                    Err(e) => {
                        return Err(AllocError::InternalError(e));
                    },
                };
                match head.inner_alloc(alloc_size) {
                    Ok(space) => {
                        self.head = Some(head);
                        self.head_id = self.count;
                        self.count = self.count + 1;
                        Ok((self.head_id, space))
                    },
                    Err(e) => Err(AllocError::InternalError(e)),
                }
            },
        }
    }
}

} // verus!
