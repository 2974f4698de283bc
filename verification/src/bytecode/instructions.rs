use vstd::prelude::*;

use super::instruction::{opcode_of, Instruction};
use super::opcode::has_operand;

verus! {

/// Code buffer of the smaller instruction set: memory reserved for the code,
/// its capacity as recorded, and the bytes written.
pub struct Instructions {
    byte: Vec<u8>,
    cap: usize,
    len: usize,
}

/// The buffer as a value: its recorded capacity and length.
pub struct InstructionsV {
    pub cap: usize,
    pub len: usize,
}

impl View for Instructions {
    type V = InstructionsV;

    closed spec fn view(&self) -> InstructionsV {
        InstructionsV { cap: self.cap, len: self.len }
    }
}

const SIZE: usize = 0x10000;

impl Instructions {
    pub closed spec fn wf(&self) -> bool {
        self.cap <= isize::MAX
    }

    /// A buffer with memory reserved, of capacity and length zero.
    pub fn new() -> (res: Self)
        ensures
            res.wf(),
            res@ == (InstructionsV { cap: 0, len: 0 }),
    {
        let byte: Vec<u8> = Vec::with_capacity(SIZE);
        Self { byte, cap: 0, len: 0 }
    }

    /// Make room for `ins`: the capacity doubles where the instruction
    /// would reach it. Nothing is written.
    pub fn add_instruction(&mut self, ins: Instruction)
        requires
            old(self).wf(),
            old(self)@.cap <= isize::MAX / 2,
            old(self)@.len + 9 <= usize::MAX,
        ensures
            final(self).wf(),
            final(self)@.len == old(self)@.len,
            final(self)@.cap == if old(self)@.len + (if has_operand(opcode_of(ins)) {
                9int
            } else {
                1int
            }) >= old(self)@.cap {
                2 * old(self)@.cap
            } else {
                old(self)@.cap as int
            },
    {
        if self.len + ins.opcode().length() >= self.cap {
            self.grow();
        }
    }

    /// Double the capacity.
    fn grow(&mut self)
        requires
            old(self).wf(),
            old(self)@.cap <= isize::MAX / 2,
        ensures
            final(self).wf(),
            final(self)@.cap == 2 * old(self)@.cap,
            final(self)@.len == old(self)@.len,
    {
        let new_cap = 2 * self.cap;
        self.byte.reserve(new_cap - self.cap);
        self.cap = new_cap;
    }
}

} // verus!
