pub mod instruction;
pub mod instructions;
pub mod op;
pub mod opcode;
pub mod symbol;

use vstd::prelude::*;

use self::instructions::Instructions;
use crate::object::Object;

verus! {

/// Compiled program of the smaller instruction set: constants and code.
pub struct Bytecode {
    pub constants: Vec<Object>,
    pub instructions: Instructions,
}

impl Bytecode {
    pub fn new() -> (res: Self)
        ensures
            res.constants@.len() == 0,
            res.instructions.wf(),
            res.instructions@.len == 0,
            res.instructions@.cap == 0,
    {
        Self { constants: Vec::new(), instructions: Instructions::new() }
    }
}

} // verus!
