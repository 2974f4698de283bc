use vstd::prelude::*;

use super::opcode::OpCode;

verus! {

/// Definition of instruction's length and arg
pub struct Definition {
    pub length: usize,
    pub arg_size: Vec<usize>,
}

pub enum Instruction {
    PUSH,
    POP,
    CONST { idx: usize },
    ADD,
    SUB,
    PRODUCT,
    DIVIDE,
    MOD,
    BANG,
    NEG,
    CGT,
    CLT,
    CEQ,
    CNEQ,
    JMP { idx: usize },
    JEQ { idx: usize },
    JNEQ { idx: usize },
}

/// The opcode of an instruction.
pub open spec fn opcode_of(ins: Instruction) -> OpCode {
    match ins {
        Instruction::PUSH => OpCode::PUSH,
        Instruction::POP => OpCode::POP,
        Instruction::CONST { .. } => OpCode::CONST,
        Instruction::ADD => OpCode::ADD,
        Instruction::SUB => OpCode::SUB,
        Instruction::PRODUCT => OpCode::PRODUCT,
        Instruction::DIVIDE => OpCode::DIVIDE,
        Instruction::MOD => OpCode::MOD,
        Instruction::BANG => OpCode::BANG,
        Instruction::NEG => OpCode::NEG,
        Instruction::CGT => OpCode::CGT,
        Instruction::CLT => OpCode::CLT,
        Instruction::CEQ => OpCode::CEQ,
        Instruction::CNEQ => OpCode::CNEQ,
        Instruction::JMP { .. } => OpCode::JMP,
        Instruction::JEQ { .. } => OpCode::JEQ,
        Instruction::JNEQ { .. } => OpCode::JNEQ,
    }
}

impl Instruction {
    pub fn opcode(&self) -> (res: OpCode)
        ensures
            res == opcode_of(*self),
    {
        match self {
            Instruction::PUSH => OpCode::PUSH,
            Instruction::POP => OpCode::POP,
            Instruction::CONST { idx: _ } => OpCode::CONST,
            Instruction::ADD => OpCode::ADD,
            Instruction::SUB => OpCode::SUB,
            Instruction::PRODUCT => OpCode::PRODUCT,
            Instruction::DIVIDE => OpCode::DIVIDE,
            Instruction::MOD => OpCode::MOD,
            Instruction::BANG => OpCode::BANG,
            Instruction::NEG => OpCode::NEG,
            Instruction::CGT => OpCode::CGT,
            Instruction::CLT => OpCode::CLT,
            Instruction::CEQ => OpCode::CEQ,
            Instruction::CNEQ => OpCode::CNEQ,
            Instruction::JMP { idx: _ } => OpCode::JMP,
            Instruction::JEQ { idx: _ } => OpCode::JEQ,
            Instruction::JNEQ { idx: _ } => OpCode::JNEQ,
        }
    }
}

} // verus!
