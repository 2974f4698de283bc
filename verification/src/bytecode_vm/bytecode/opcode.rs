use vstd::prelude::*;

use crate::utils::word_bytes;

verus! {

/// Raw opcode
#[derive(Debug, Clone, Copy, PartialEq, Eq, Structural)]
pub enum OpCode {
    PUSH,
    POP,
    CONST,
    /// Define global
    DEFGLB,
    /// Get global
    GETGLB,
    /// Define local
    DEFLCL,
    /// Get local
    GETLCL,
    GETFREE,
    ADD,
    SUB,
    PRODUCT,
    DIVIDE,
    MOD,
    BANG,
    NEG,
    CGT,
    CGTE,
    CLT,
    CLTE,
    CEQ,
    CNEQ,
    /// Logical AND
    AND,
    /// Logical OR
    OR,
    /// Bit AND
    BAND,
    /// Bit OR
    BOR,
    JMP,
    /// jump if state
    JIS,
    /// jump if not state
    JNS,
    JEQ,
    JNEQ,
    ARRAY,
    INDEX,
    CALL,
    /// Return
    RETN,
    /// Return with value
    RETV,
    /// Create a closure
    CLOSURE,
    /// Get current function
    GETCUR,
}

/// The byte that encodes an opcode: its position in the declaration.
pub open spec fn op_byte(op: OpCode) -> u8 {
    match op {
        OpCode::PUSH => 0u8,
        OpCode::POP => 1u8,
        OpCode::CONST => 2u8,
        OpCode::DEFGLB => 3u8,
        OpCode::GETGLB => 4u8,
        OpCode::DEFLCL => 5u8,
        OpCode::GETLCL => 6u8,
        OpCode::GETFREE => 7u8,
        OpCode::ADD => 8u8,
        OpCode::SUB => 9u8,
        OpCode::PRODUCT => 10u8,
        OpCode::DIVIDE => 11u8,
        OpCode::MOD => 12u8,
        OpCode::BANG => 13u8,
        OpCode::NEG => 14u8,
        OpCode::CGT => 15u8,
        OpCode::CGTE => 16u8,
        OpCode::CLT => 17u8,
        OpCode::CLTE => 18u8,
        OpCode::CEQ => 19u8,
        OpCode::CNEQ => 20u8,
        OpCode::AND => 21u8,
        OpCode::OR => 22u8,
        OpCode::BAND => 23u8,
        OpCode::BOR => 24u8,
        OpCode::JMP => 25u8,
        OpCode::JIS => 26u8,
        OpCode::JNS => 27u8,
        OpCode::JEQ => 28u8,
        OpCode::JNEQ => 29u8,
        OpCode::ARRAY => 30u8,
        OpCode::INDEX => 31u8,
        OpCode::CALL => 32u8,
        OpCode::RETN => 33u8,
        OpCode::RETV => 34u8,
        OpCode::CLOSURE => 35u8,
        OpCode::GETCUR => 36u8,
    }
}

/// The opcode that a byte encodes, if any.
pub open spec fn byte_op(b: u8) -> Option<OpCode> {
    if b == 0 {
        Some(OpCode::PUSH)
    } else if b == 1 {
        Some(OpCode::POP)
    } else if b == 2 {
        Some(OpCode::CONST)
    } else if b == 3 {
        Some(OpCode::DEFGLB)
    } else if b == 4 {
        Some(OpCode::GETGLB)
    } else if b == 5 {
        Some(OpCode::DEFLCL)
    } else if b == 6 {
        Some(OpCode::GETLCL)
    } else if b == 7 {
        Some(OpCode::GETFREE)
    } else if b == 8 {
        Some(OpCode::ADD)
    } else if b == 9 {
        Some(OpCode::SUB)
    } else if b == 10 {
        Some(OpCode::PRODUCT)
    } else if b == 11 {
        Some(OpCode::DIVIDE)
    } else if b == 12 {
        Some(OpCode::MOD)
    } else if b == 13 {
        Some(OpCode::BANG)
    } else if b == 14 {
        Some(OpCode::NEG)
    } else if b == 15 {
        Some(OpCode::CGT)
    } else if b == 16 {
        Some(OpCode::CGTE)
    } else if b == 17 {
        Some(OpCode::CLT)
    } else if b == 18 {
        Some(OpCode::CLTE)
    } else if b == 19 {
        Some(OpCode::CEQ)
    } else if b == 20 {
        Some(OpCode::CNEQ)
    } else if b == 21 {
        Some(OpCode::AND)
    } else if b == 22 {
        Some(OpCode::OR)
    } else if b == 23 {
        Some(OpCode::BAND)
    } else if b == 24 {
        Some(OpCode::BOR)
    } else if b == 25 {
        Some(OpCode::JMP)
    } else if b == 26 {
        Some(OpCode::JIS)
    } else if b == 27 {
        Some(OpCode::JNS)
    } else if b == 28 {
        Some(OpCode::JEQ)
    } else if b == 29 {
        Some(OpCode::JNEQ)
    } else if b == 30 {
        Some(OpCode::ARRAY)
    } else if b == 31 {
        Some(OpCode::INDEX)
    } else if b == 32 {
        Some(OpCode::CALL)
    } else if b == 33 {
        Some(OpCode::RETN)
    } else if b == 34 {
        Some(OpCode::RETV)
    } else if b == 35 {
        Some(OpCode::CLOSURE)
    } else if b == 36 {
        Some(OpCode::GETCUR)
    } else {
        None
    }
}

/// Number of bytes of the opcode byte before the operands.
pub open spec fn operand_count(op: OpCode) -> nat {
    match op {
        OpCode::CONST
        | OpCode::DEFGLB
        | OpCode::GETGLB
        | OpCode::DEFLCL
        | OpCode::GETLCL
        | OpCode::GETFREE
        | OpCode::JMP
        | OpCode::JIS
        | OpCode::JNS
        | OpCode::JEQ
        | OpCode::JNEQ
        | OpCode::ARRAY
        | OpCode::CALL => 1,
        OpCode::CLOSURE => 2,
        _ => 0,
    }
}

/// Encoded length of an instruction with this opcode: one opcode byte
/// followed by one native-width word per operand.
pub open spec fn op_length(op: OpCode) -> nat {
    if operand_count(op) == 0 {
        1
    } else if operand_count(op) == 1 {
        1 + word_bytes()
    } else {
        1 + 2 * word_bytes()
    }
}

/// Decoding the byte of an opcode gives the opcode back.
pub proof fn lemma_byte_op_roundtrip(op: OpCode)
    ensures
        byte_op(op_byte(op)) == Some(op),
        op_byte(op) < 37,
{
}

/// A byte decodes to an opcode exactly when it is below the count of
/// opcodes, and then it is that opcode's byte.
pub proof fn lemma_op_byte_roundtrip(b: u8)
    ensures
        byte_op(b) matches Some(op) ==> op_byte(op) == b,
        byte_op(b) is Some <==> b < 37,
{
}

impl OpCode {
    /// The byte that encodes this opcode.
    pub fn to_byte(&self) -> (res: u8)
        ensures
            res == op_byte(*self),
    {
        match self {
            OpCode::PUSH => 0,
            OpCode::POP => 1,
            OpCode::CONST => 2,
            OpCode::DEFGLB => 3,
            OpCode::GETGLB => 4,
            OpCode::DEFLCL => 5,
            OpCode::GETLCL => 6,
            OpCode::GETFREE => 7,
            OpCode::ADD => 8,
            OpCode::SUB => 9,
            OpCode::PRODUCT => 10,
            OpCode::DIVIDE => 11,
            OpCode::MOD => 12,
            OpCode::BANG => 13,
            OpCode::NEG => 14,
            OpCode::CGT => 15,
            OpCode::CGTE => 16,
            OpCode::CLT => 17,
            OpCode::CLTE => 18,
            OpCode::CEQ => 19,
            OpCode::CNEQ => 20,
            OpCode::AND => 21,
            OpCode::OR => 22,
            OpCode::BAND => 23,
            OpCode::BOR => 24,
            OpCode::JMP => 25,
            OpCode::JIS => 26,
            OpCode::JNS => 27,
            OpCode::JEQ => 28,
            OpCode::JNEQ => 29,
            OpCode::ARRAY => 30,
            OpCode::INDEX => 31,
            OpCode::CALL => 32,
            OpCode::RETN => 33,
            OpCode::RETV => 34,
            OpCode::CLOSURE => 35,
            OpCode::GETCUR => 36,
        }
    }

    /// Operand widths in bytes, one entry per operand.
    pub fn arg_len(&self) -> (res: Vec<usize>)
        ensures
            res@.len() == operand_count(*self),
            forall|i: int| 0 <= i < res@.len() ==> res@[i] == word_bytes(),
    {
        let w: usize = (usize::BITS / 8) as usize;
        let mut v: Vec<usize> = Vec::new();
        match self {
            OpCode::CONST
            | OpCode::DEFGLB
            | OpCode::GETGLB
            | OpCode::DEFLCL
            | OpCode::GETLCL
            | OpCode::GETFREE
            | OpCode::JMP
            | OpCode::JIS
            | OpCode::JNS
            | OpCode::JEQ
            | OpCode::JNEQ
            | OpCode::ARRAY
            | OpCode::CALL => {
                v.push(w);
            },
            OpCode::CLOSURE => {
                v.push(w);
                v.push(w);
            },
            _ => {},
        }
        v
    }

    /// Encoded length in bytes of an instruction with this opcode.
    pub fn length(&self) -> (res: usize)
        ensures
            res == op_length(*self),
    {
        let w: usize = (usize::BITS / 8) as usize;
        assert(w == word_bytes());
        assert(w == 4 || w == 8);
        match self {
            OpCode::CONST
            | OpCode::DEFGLB
            | OpCode::GETGLB
            | OpCode::DEFLCL
            | OpCode::GETLCL
            | OpCode::GETFREE
            | OpCode::JMP
            | OpCode::JIS
            | OpCode::JNS
            | OpCode::JEQ
            | OpCode::JNEQ
            | OpCode::ARRAY
            | OpCode::CALL => 1 + w,
            OpCode::CLOSURE => 1 + 2 * w,
            _ => 1,
        }
    }

    /// Decode an opcode byte; `Err(())` for bytes that name no opcode.
    pub fn try_from(byte: u8) -> (res: Result<OpCode, ()>)
        ensures
            match res {
                Ok(op) => byte_op(byte) == Some(op),
                Err(_) => byte_op(byte) is None,
            },
    {
        if byte == 0 {
            Ok(OpCode::PUSH)
        } else if byte == 1 {
            Ok(OpCode::POP)
        } else if byte == 2 {
            Ok(OpCode::CONST)
        } else if byte == 3 {
            Ok(OpCode::DEFGLB)
        } else if byte == 4 {
            Ok(OpCode::GETGLB)
        } else if byte == 5 {
            Ok(OpCode::DEFLCL)
        } else if byte == 6 {
            Ok(OpCode::GETLCL)
        } else if byte == 7 {
            Ok(OpCode::GETFREE)
        } else if byte == 8 {
            Ok(OpCode::ADD)
        } else if byte == 9 {
            Ok(OpCode::SUB)
        } else if byte == 10 {
            Ok(OpCode::PRODUCT)
        } else if byte == 11 {
            Ok(OpCode::DIVIDE)
        } else if byte == 12 {
            Ok(OpCode::MOD)
        } else if byte == 13 {
            Ok(OpCode::BANG)
        } else if byte == 14 {
            Ok(OpCode::NEG)
        } else if byte == 15 {
            Ok(OpCode::CGT)
        } else if byte == 16 {
            Ok(OpCode::CGTE)
        } else if byte == 17 {
            Ok(OpCode::CLT)
        } else if byte == 18 {
            Ok(OpCode::CLTE)
        } else if byte == 19 {
            Ok(OpCode::CEQ)
        } else if byte == 20 {
            Ok(OpCode::CNEQ)
        } else if byte == 21 {
            Ok(OpCode::AND)
        } else if byte == 22 {
            Ok(OpCode::OR)
        } else if byte == 23 {
            Ok(OpCode::BAND)
        } else if byte == 24 {
            Ok(OpCode::BOR)
        } else if byte == 25 {
            Ok(OpCode::JMP)
        } else if byte == 26 {
            Ok(OpCode::JIS)
        } else if byte == 27 {
            Ok(OpCode::JNS)
        } else if byte == 28 {
            Ok(OpCode::JEQ)
        } else if byte == 29 {
            Ok(OpCode::JNEQ)
        } else if byte == 30 {
            Ok(OpCode::ARRAY)
        } else if byte == 31 {
            Ok(OpCode::INDEX)
        } else if byte == 32 {
            Ok(OpCode::CALL)
        } else if byte == 33 {
            Ok(OpCode::RETN)
        } else if byte == 34 {
            Ok(OpCode::RETV)
        } else if byte == 35 {
            Ok(OpCode::CLOSURE)
        } else if byte == 36 {
            Ok(OpCode::GETCUR)
        } else {
            Err(())
        }
    }
}

} // verus!
