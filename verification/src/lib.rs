pub mod allocator;
pub mod ast;
pub mod bytecode;
pub mod bytecode_vm;
pub mod heap;
pub mod immix;
pub mod memory;
pub mod object;
pub mod test;
pub mod token;
pub mod treewalker;
pub mod utils;
