pub mod bump;
pub mod errors;
pub mod immix;
pub mod pointers;
