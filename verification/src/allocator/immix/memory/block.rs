// Block Layout
//
// Addr   Line  |-------128 byte--------|
// 0x7F00 7F    | MARK BITS             |
// --------------------------------------
// 0x7D00 7D    | DATA                  |
// ......................................
// 0x0000 0     |_______________________|
//
// Positions inside a block are byte offsets from its start.
use vstd::prelude::*;

use crate::memory::errors::BlockError;
use crate::immix::blocks::{is_pow2, is_power_of_two};

verus! {

/// 0x8000  32768 (Byte)
pub const BLOCK_SIZE: usize = 0x8000;

/// 0x80    128   (Byte)
pub const LINE_SIZE: usize = 0x80;

/// 0x100   256
pub const LINE_COUNT: usize = 0x100;

///  0x7F00  32512  (Byte)
pub const BLOCK_CAPACITY: usize = 0x7F00;

pub const LINE_MARK_START: usize = BLOCK_CAPACITY;

///  0xF    15
pub const ALIGN_WORD: usize = 15;

///  0xFFFF...0
pub const ALIGN_MASK: usize = !ALIGN_WORD;

pub type BlockSize = usize;

/// A block of memory whose size is a power of two.
#[derive(Debug)]
pub struct Block {
    memory: Vec<u8>,
    pub size: BlockSize,
}

impl Block {
    /// The block's size in bytes.
    pub closed spec fn spec_size(&self) -> usize {
        self.size
    }

    /// create new memory block.
    ///
    /// # Errors
    /// This function will return an error if [size] is not a power of two
    /// or cannot allocate memory
    pub fn new(size: BlockSize) -> (res: Result<Self, BlockError>)
        ensures
            match res {
                Ok(b) => is_pow2(size as nat) && b.spec_size() == size,
                Err(e) => if is_pow2(size as nat) {
                    e is OutOfMemory
                } else {
                    e == BlockError::BadSize(size)
                },
            },
    {
        if !is_power_of_two(size) {
            return Err(BlockError::BadSize(size));
        }
        let memory = Self::alloc_block(size)?;
        Ok(Block { size, memory })
    }

    /// allocate the block's memory.
    fn alloc_block(size: BlockSize) -> (res: Result<Vec<u8>, BlockError>)
        ensures
            res matches Err(e) ==> e is OutOfMemory,
    {
        let mut memory: Vec<u8> = Vec::new();
        match memory.try_reserve(size) {
            Ok(()) => Ok(memory),
            Err(_) => Err(BlockError::OutOfMemory),
        }
    }

    /// Give the block's memory back.
    pub fn dealloc_block(self) {
    }
}

} // verus!
