use vstd::prelude::*;

use super::blocks::{is_unmarked_spec, set_mark_spec, BlockList};
use super::mark::Mark;
use std::marker::PhantomData;

verus! {

/// The place of a `T` in the managed heap: the identity of the block that
/// holds it and its address inside that block.
#[derive(Debug)]
pub struct RawPtr<T: Sized> {
    block: usize,
    addr: usize,
    tag: PhantomData<T>,
}

impl<T: Sized> RawPtr<T> {
    pub closed spec fn spec_block(&self) -> usize {
        self.block
    }

    pub closed spec fn spec_addr(&self) -> usize {
        self.addr
    }

    /// Create a new `RawPtr` to address `addr` of block `block`.
    pub fn new(block: usize, addr: usize) -> (res: Self)
        ensures
            res.spec_block() == block,
            res.spec_addr() == addr,
    {
        RawPtr { block, addr, tag: PhantomData }
    }

    /// The address inside the block.
    pub fn as_ptr(self) -> (res: usize)
        ensures
            res == self.spec_addr(),
    {
        self.addr
    }

    /// Get the address inside the block.
    pub fn as_addr(self) -> (res: usize)
        ensures
            res == self.spec_addr(),
    {
        self.addr
    }

    /// The identity of the block.
    pub fn block(self) -> (res: usize)
        ensures
            res == self.spec_block(),
    {
        self.block
    }
}

impl<T: Sized> Clone for RawPtr<T> {
    fn clone(&self) -> (res: RawPtr<T>)
        ensures
            res.spec_block() == self.spec_block(),
            res.spec_addr() == self.spec_addr(),
    {
        RawPtr { block: self.block, addr: self.addr, tag: PhantomData }
    }
}

impl<T: Sized> Copy for RawPtr<T> {}

impl<T: Sized> PartialEq for RawPtr<T> {
    fn eq(&self, other: &RawPtr<T>) -> (res: bool) {
        self.block == other.block && self.addr == other.addr
    }
}

impl<T: Sized> vstd::std_specs::cmp::PartialEqSpecImpl for RawPtr<T> {
    open spec fn obeys_eq_spec() -> bool {
        true
    }

    open spec fn eq_spec(&self, other: &RawPtr<T>) -> bool {
        self.spec_block() == other.spec_block() && self.spec_addr() == other.spec_addr()
    }
}

#[derive(Debug, Clone, Copy, PartialEq, Eq, Structural)]
pub enum OR<L, R> {
    L(L),
    R(R),
}

/// Lines `low..=high` of the bump block with key `block`.
#[derive(Debug, Clone, Copy, PartialEq, Eq, Structural)]
pub struct MetaPtr {
    pub low: usize,
    pub high: usize,
    pub block: usize,
}

/// Where an allocation's mark lives (line marks of a bump block, or the
/// mark of a large block with the given key) and the address of its data.
#[derive(Debug, Clone, Copy, PartialEq, Eq, Structural)]
pub struct PairPtr {
    pub meta: OR<MetaPtr, usize>,
    pub data: usize,
}

/// The identity of the block an allocation lies in: its bump block, or the
/// key of its large block.
pub open spec fn block_of(p: PairPtr) -> usize {
    match p.meta {
        OR::L(mp) => mp.block,
        OR::R(key) => key,
    }
}

impl PairPtr {
    /// Set the mark of this allocation in the blocks that hold it.
    pub fn set_mark(&self, blocks: &mut BlockList, mark: &Mark)
        requires
            old(blocks).wf(),
        ensures
            final(blocks).wf(),
            final(blocks)@ == set_mark_spec(old(blocks)@, *self, *mark),
    {
        blocks.set_mark(self, mark)
    }

    /// Whether this allocation is unmarked in the blocks that hold it.
    pub fn is_unmarked(&self, blocks: &BlockList) -> (res: bool)
        requires
            blocks.wf(),
        ensures
            res == is_unmarked_spec(blocks@, *self),
    {
        blocks.is_unmarked(self)
    }
}

#[derive(Debug, PartialEq)]
pub struct TypedPtr<T> {
    pub ptr: PairPtr,
    pub tag: PhantomData<T>,
}

impl<T> Clone for TypedPtr<T> {
    fn clone(&self) -> (res: Self)
        ensures
            res.ptr == self.ptr,
    {
        TypedPtr { ptr: self.ptr, tag: PhantomData }
    }
}

impl<T> TypedPtr<T> {
    /// Set the mark of the typed value in the blocks that hold it.
    pub fn set_mark(&self, blocks: &mut BlockList, mark: &Mark)
        requires
            old(blocks).wf(),
        ensures
            final(blocks).wf(),
            final(blocks)@ == set_mark_spec(old(blocks)@, self.ptr, *mark),
    {
        self.ptr.set_mark(blocks, mark)
    }

    /// The address of the typed value.
    pub fn as_ptr(&self) -> (res: usize)
        ensures
            res == self.ptr.data,
    {
        self.ptr.data
    }
}

} // verus!
