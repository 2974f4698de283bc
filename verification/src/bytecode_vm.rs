pub mod bytecode;
pub mod repl;
pub mod vm;
pub mod vm_spec;
