use vstd::prelude::*;

use super::size::SizeClassError;

verus! {

#[derive(Debug, Clone, Copy, PartialEq, Eq, Structural)]
pub enum BlockError {
    /// block size is not a power of two
    BadSize(usize),
    /// Cannot allocate memory
    OutOfMemory,
    /// Cannot allocate in block
    NoSpaceForAllocation,
    /// Address have overflow
    AddressOverflow,
}

#[derive(Debug, Clone, Copy, PartialEq, Eq, Structural)]
pub enum AllocError {
    /// Cannot allocate memory
    OutOfMemory,
    /// Size is too big to allocate
    SizeTooBig,
    /// Wrapper for block error
    InternalError(BlockError),
}

impl From<SizeClassError> for AllocError {
    fn from(value: SizeClassError) -> (res: Self) {
        match value {
            SizeClassError::TooBig => AllocError::SizeTooBig,
        }
    }
}

impl vstd::std_specs::convert::FromSpecImpl<SizeClassError> for AllocError {
    open spec fn obeys_from_spec() -> bool {
        true
    }

    open spec fn from_spec(v: SizeClassError) -> AllocError {
        AllocError::SizeTooBig
    }
}

impl From<BlockError> for AllocError {
    fn from(value: BlockError) -> (res: Self) {
        AllocError::InternalError(value)
    }
}

impl vstd::std_specs::convert::FromSpecImpl<BlockError> for AllocError {
    open spec fn obeys_from_spec() -> bool {
        true
    }

    open spec fn from_spec(v: BlockError) -> AllocError {
        AllocError::InternalError(v)
    }
}

#[derive(Debug, Clone, Copy, PartialEq, Eq, Structural)]
pub enum ImmixError {
    /// Key already exist
    DuplicatedKey,
    /// Wrapper for alloc error
    InternalError(AllocError),
}

impl From<AllocError> for ImmixError {
    fn from(value: AllocError) -> (res: Self) {
        ImmixError::InternalError(value)
    }
}

impl vstd::std_specs::convert::FromSpecImpl<AllocError> for ImmixError {
    open spec fn obeys_from_spec() -> bool {
        true
    }

    open spec fn from_spec(v: AllocError) -> ImmixError {
        ImmixError::InternalError(v)
    }
}

} // verus!
