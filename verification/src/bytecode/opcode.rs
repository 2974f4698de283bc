use vstd::prelude::*;

verus! {

/// Raw opcode
#[derive(Debug, Clone, Copy, PartialEq, Eq, Structural)]
pub enum OpCode {
    PUSH,
    POP,
    CONST,
    ADD,
    SUB,
    PRODUCT,
    DIVIDE,
    MOD,
    BANG,
    NEG,
    CGT,
    CGTE,
    CLT,
    CLTE,
    CEQ,
    CNEQ,
    AND,
    OR,
    BAND,
    BOR,
    JMP,
    JEQ,
    JNEQ,
}

/// Whether the opcode carries one eight-byte operand (constants and
/// jumps); the others carry none.
pub open spec fn has_operand(op: OpCode) -> bool {
    op == OpCode::CONST || op == OpCode::JMP || op == OpCode::JEQ || op == OpCode::JNEQ
}

impl OpCode {
    /// Sizes of the operands.
    pub fn arg_len(&self) -> (res: Vec<usize>)
        ensures
            res@ == if has_operand(*self) {
                seq![8usize]
            } else {
                Seq::<usize>::empty()
            },
    {
        let mut v: Vec<usize> = Vec::new();
        match self {
            OpCode::CONST | OpCode::JMP | OpCode::JEQ | OpCode::JNEQ => {
                v.push(8);
            },
            _ => {},
        }
        assert(v@ =~= if has_operand(*self) {
            seq![8usize]
        } else {
            Seq::<usize>::empty()
        });
        v
    }

    /// Length of the instruction: the opcode byte and its operand.
    pub fn length(&self) -> (res: usize)
        ensures
            res == if has_operand(*self) {
                9usize
            } else {
                1usize
            },
    {
        match self {
            OpCode::CONST | OpCode::JMP | OpCode::JEQ | OpCode::JNEQ => 1 + 8,
            _ => 1,
        }
    }
}

} // verus!
