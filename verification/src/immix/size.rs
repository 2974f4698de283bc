use vstd::prelude::*;

use super::blocks::{BLOCK_CAPACITY, LINE_SIZE};

verus! {

// Object size range
pub const SMALL_MIN: usize = 1;
pub const SMALL_MAX: usize = LINE_SIZE;
pub const MEDIUM_MIN: usize = SMALL_MAX + 1;
pub const MEDIUM_MAX: usize = BLOCK_CAPACITY;
pub const LARGE_MIN: usize = MEDIUM_MAX + 1;
pub const LARGE_MAX: usize = usize::MAX;

/// Represent Object's size
/// - Small fit inside a line
/// - Medium more than one line but small than block
/// - Large span multiple blocks
#[derive(Clone, Copy, Debug, PartialEq, Eq, Structural)]
pub enum SizeClass {
    Small,
    Medium,
    Large,
}

#[derive(Clone, Copy, Debug, PartialEq, Eq, Structural)]
pub enum SizeClassError {
    TooBig,
}

/// The size class of an allocation of `size` bytes; an empty one has none.
pub open spec fn size_class(size: usize) -> Result<SizeClass, SizeClassError> {
    if size == 0 {
        Err(SizeClassError::TooBig)
    } else if size <= SMALL_MAX {
        Ok(SizeClass::Small)
    } else if size <= MEDIUM_MAX {
        Ok(SizeClass::Medium)
    } else {
        Ok(SizeClass::Large)
    }
}

impl SizeClass {
    pub fn from(size: usize) -> (res: Result<SizeClass, SizeClassError>)
        ensures
            res == size_class(size),
    {
        if SMALL_MIN <= size && size <= SMALL_MAX {
            Ok(SizeClass::Small)
        } else if MEDIUM_MIN <= size && size <= MEDIUM_MAX {
            Ok(SizeClass::Medium)
        } else if LARGE_MIN <= size && size <= LARGE_MAX {
            Ok(SizeClass::Large)
        } else {
            Err(SizeClassError::TooBig)
        }
    }
}

} // verus!
