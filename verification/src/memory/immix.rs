use vstd::prelude::*;

use crate::allocator::immix::memory::block::BLOCK_CAPACITY;
use crate::allocator::immix::memory::blocklist::{find_space_spec, BlockList, ListV, Space};
use super::errors::AllocError;
use crate::immix::size::SizeClass;
use std::marker::PhantomData;

verus! {

pub struct Immix<T> {
    blocks: BlockList,
    _header_type: PhantomData<T>,
}

impl<T> View for Immix<T> {
    type V = ListV;

    closed spec fn view(&self) -> ListV {
        self.blocks@
    }
}

impl<T> Immix<T> {
    pub closed spec fn wf(&self) -> bool {
        self.blocks.wf()
    }


    pub fn new() -> (res: Immix<T>)
        ensures
            res.wf(),
            res@ == (ListV { head: None, overflow: None, rest: Seq::empty(), count: 0 }),
    {
        Immix { blocks: BlockList::new(), _header_type: PhantomData }
    }

    /// Find space for `alloc_size` bytes of the given size class; gives the
    /// identity of the block that serves it and the offset there.
    pub fn find_space(&mut self, alloc_size: usize, size_class: SizeClass) -> (res: Result<Space, AllocError>)
        requires
            old(self).wf(),
            size_class == SizeClass::Medium ==> alloc_size <= BLOCK_CAPACITY || old(self)@.overflow is Some,
        ensures
            final(self).wf(),
            (final(self)@, res) == find_space_spec(old(self)@, alloc_size, size_class, true) || (final(self)@, res)
                == find_space_spec(old(self)@, alloc_size, size_class, false),
    {
        self.blocks.find_space(alloc_size, size_class)
    }
}

} // verus!
