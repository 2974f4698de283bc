use vstd::prelude::*;

use crate::immix::ptr::RawPtr;

verus! {

pub const TAG_MASK: usize = 0x3;

pub const TAG_SYMBOL: usize = 0x0;

pub const TAG_PAIR: usize = 0x1;

pub const TAG_OBJECT: usize = 0x2;

pub const TAG_NUMBER: usize = 0x3;

pub const PTR_MASK: usize = !0x3;

/// A pointer that carries a type tag in its two lowest bits.
pub trait Tagged<T>: Sized {
    /// The pointer with `tag` in the low bits of its address.
    fn tag(self, tag: usize) -> Self;

    /// The pointer with its tag bits cleared.
    fn untag(from: Self) -> Self;
}

impl<T> Tagged<T> for RawPtr<T> {
    fn tag(self, tag: usize) -> (res: RawPtr<T>)
        ensures
            res.spec_block() == self.spec_block(),
            res.spec_addr() == self.spec_addr() | tag,
    {
        RawPtr::new(self.block(), self.as_addr() | tag)
    }

    fn untag(from: RawPtr<T>) -> (res: RawPtr<T>)
        ensures
            res.spec_block() == from.spec_block(),
            res.spec_addr() == from.spec_addr() & PTR_MASK,
    {
        RawPtr::new(from.block(), from.as_addr() & PTR_MASK)
    }
}

/// Tagging an address whose two low bits are clear, then untagging, gives
/// the address back, and the tag can be read from the low bits.
pub proof fn law_untag_tag(addr: usize, tag: usize)
    requires
        addr % 4 == 0,
        tag <= TAG_MASK,
    ensures
        (addr | tag) & PTR_MASK == addr,
        (addr | tag) & TAG_MASK == tag,
{
    assert((addr | tag) & !0x3usize == addr && (addr | tag) & 0x3usize == tag) by (bit_vector)
        requires
            addr % 4 == 0,
            tag <= 3,
    ;
}

/// A tagged pointer: a block and an address whose low bits hold the tag.
pub struct TaggedPtr {
    block: usize,
    tag: usize,
}

impl TaggedPtr {
    pub closed spec fn spec_block(&self) -> usize {
        self.block
    }

    pub closed spec fn spec_bits(&self) -> usize {
        self.tag
    }

    /// The pointer to an object, tagged as one.
    pub fn object<T>(ptr: RawPtr<T>) -> (res: Self)
        ensures
            res.spec_block() == ptr.spec_block(),
            res.spec_bits() == ptr.spec_addr() | TAG_OBJECT,
    {
        let tagged = ptr.tag(TAG_OBJECT);
        TaggedPtr { block: tagged.block(), tag: tagged.as_addr() }
    }
}

} // verus!
