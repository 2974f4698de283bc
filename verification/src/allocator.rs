use vstd::prelude::*;

pub mod immix;

use crate::immix::errors::AllocError;
use crate::immix::mark::Mark;
use crate::immix::ptr::RawPtr;
use crate::immix::size::SizeClass;
use crate::object::ObjectType;

verus! {

/// The length in bytes of an array allocation.
pub type ArraySize = usize;

/// An allocator of objects and arrays, each behind a header.
pub trait AllocRaw {
    type Header: AllocHeader;

    /// Place `object` in the heap and give its address.
    fn allocate<T>(&self, object: T) -> Result<RawPtr<T>, AllocError> where
        T: AllocObject<<Self::Header as AllocHeader>::TypeId>;

    /// The address of the header of the object at `object`.
    fn get_header(object: usize) -> usize;

    /// The address of the object behind the header at `header`.
    fn get_object(header: usize) -> usize;

    /// Reserve an array of `size_bytes` bytes and give its address.
    fn alloc_array(&self, size_bytes: ArraySize) -> Result<RawPtr<u8>, AllocError>;
}

/// The header the allocator keeps in front of each object.
pub trait AllocHeader: Sized {
    /// The type tag of allocated objects.
    type TypeId: AllocTypeId;

    /// A header for an object of type `O`.
    fn new<O: AllocObject<Self::TypeId>>(size: usize, size_class: SizeClass, mark: Mark) -> Self;

    /// A header for an array.
    fn new_array(size: ArraySize, size_class: SizeClass, mark: Mark) -> Self;

    /// Set the mark to marked.
    fn mark(&mut self);

    /// Whether the object is marked.
    fn is_marked(&self) -> bool;

    /// The size class of the object.
    fn size_class(&self) -> SizeClass;

    /// The size of the object.
    fn size(&self) -> usize;

    /// The type of the object.
    fn type_id(&self) -> Self::TypeId;
}

/// A type tag that headers can carry.
pub trait AllocTypeId: Copy + Clone {}

/// A type whose values the allocator can hold, with its tag.
pub trait AllocObject<T: AllocTypeId> {
    const TYPE_ID: T;
}

impl AllocTypeId for ObjectType {}

} // verus!
