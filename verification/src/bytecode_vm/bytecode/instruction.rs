use vstd::prelude::*;

use super::opcode::{op_byte, op_length, operand_count, OpCode};
use crate::utils::{decimal, lemma_ne_bytes_roundtrip, ne_bytes, push_decimal, usize_to_ne_bytes, word_bytes};

verus! {

/// Definition of instruction's length and arg
pub struct Definition {
    pub length: usize,
    pub arg_size: Vec<usize>,
}

impl Definition {
    /// The definition of instructions with the given opcode.
    pub fn of(op: OpCode) -> (res: Definition)
        ensures
            res.length == op_length(op),
            res.arg_size@.len() == operand_count(op),
            forall|i: int| 0 <= i < res.arg_size@.len() ==> res.arg_size@[i] == word_bytes(),
    {
        Definition { length: op.length(), arg_size: op.arg_len() }
    }
}

#[derive(Debug, Clone, Copy, PartialEq, Eq, Structural)]
pub enum Instruction {
    PUSH,
    POP,
    CONST {
        idx: usize,
    },
    /// Define global
    DEFGLB {
        idx: usize,
    },
    /// Get global
    GETGLB {
        idx: usize,
    },
    /// Define local
    DEFLCL {
        idx: usize,
    },
    /// Get local
    GETLCL {
        idx: usize,
    },
    /// Push a captured (free) value
    GETFREE {
        idx: usize,
    },
    ADD,
    SUB,
    PRODUCT,
    DIVIDE,
    MOD,
    BANG,
    NEG,
    CGT,
    CGTE,
    CLT,
    CLTE,
    CEQ,
    CNEQ,
    AND,
    OR,
    BAND,
    BOR,
    JMP {
        idx: usize,
    },
    /// jump if state
    JIS {
        idx: usize,
    },
    /// jump if not state
    JNS {
        idx: usize,
    },
    JEQ {
        idx: usize,
    },
    JNEQ {
        idx: usize,
    },
    ARRAY {
        count: usize,
    },
    INDEX,
    CALL {
        arg_len: usize,
    },
    /// Return
    RETN,
    /// Return with value
    RETV,
    /// Create a closure of the compiled function at constant `idx` capturing `free` values
    CLOSURE {
        idx: usize,
        free: usize,
    },
    /// Push the running closure
    GETCUR,
}

/// Mnemonic of an opcode.
pub open spec fn mnemonic(op: OpCode) -> Seq<char> {
    match op {
        OpCode::PUSH => "PUSH"@,
        OpCode::POP => "POP"@,
        OpCode::CONST => "CONST"@,
        OpCode::DEFGLB => "DEFGLB"@,
        OpCode::GETGLB => "GETGLB"@,
        OpCode::DEFLCL => "DEFLCL"@,
        OpCode::GETLCL => "GETLCL"@,
        OpCode::GETFREE => "GETFREE"@,
        OpCode::ADD => "ADD"@,
        OpCode::SUB => "SUB"@,
        OpCode::PRODUCT => "PRODUCT"@,
        OpCode::DIVIDE => "DIVIDE"@,
        OpCode::MOD => "MOD"@,
        OpCode::BANG => "BANG"@,
        OpCode::NEG => "NEG"@,
        OpCode::CGT => "CGT"@,
        OpCode::CGTE => "CGTE"@,
        OpCode::CLT => "CLT"@,
        OpCode::CLTE => "CLTE"@,
        OpCode::CEQ => "CEQ"@,
        OpCode::CNEQ => "CNEQ"@,
        OpCode::AND => "AND"@,
        OpCode::OR => "OR"@,
        OpCode::BAND => "BAND"@,
        OpCode::BOR => "BOR"@,
        OpCode::JMP => "JMP"@,
        OpCode::JIS => "JIS"@,
        OpCode::JNS => "JNS"@,
        OpCode::JEQ => "JEQ"@,
        OpCode::JNEQ => "JNEQ"@,
        OpCode::ARRAY => "ARRAY"@,
        OpCode::INDEX => "INDEX"@,
        OpCode::CALL => "CALL"@,
        OpCode::RETN => "RETN"@,
        OpCode::RETV => "RETV"@,
        OpCode::CLOSURE => "CLOSURE"@,
        OpCode::GETCUR => "GETCUR"@,
    }
}

/// The length, first, second and last characters of a text.
spec fn text_key(t: Seq<char>) -> (nat, char, char, char) {
    (t.len(), t[0], t[1], t[t.len() - 1])
}

/// Different opcodes have different mnemonics, so the text of an
/// instruction tells which instruction it is.
pub proof fn law_mnemonic_distinct(a: OpCode, b: OpCode)
    ensures
        mnemonic(a) == mnemonic(b) ==> a == b,
{
    reveal_strlit("PUSH");
    reveal_strlit("POP");
    reveal_strlit("CONST");
    reveal_strlit("DEFGLB");
    reveal_strlit("GETGLB");
    reveal_strlit("DEFLCL");
    reveal_strlit("GETLCL");
    reveal_strlit("GETFREE");
    reveal_strlit("ADD");
    reveal_strlit("SUB");
    reveal_strlit("PRODUCT");
    reveal_strlit("DIVIDE");
    reveal_strlit("MOD");
    reveal_strlit("BANG");
    reveal_strlit("NEG");
    reveal_strlit("CGT");
    reveal_strlit("CGTE");
    reveal_strlit("CLT");
    reveal_strlit("CLTE");
    reveal_strlit("CEQ");
    reveal_strlit("CNEQ");
    reveal_strlit("AND");
    reveal_strlit("OR");
    reveal_strlit("BAND");
    reveal_strlit("BOR");
    reveal_strlit("JMP");
    reveal_strlit("JIS");
    reveal_strlit("JNS");
    reveal_strlit("JEQ");
    reveal_strlit("JNEQ");
    reveal_strlit("ARRAY");
    reveal_strlit("INDEX");
    reveal_strlit("CALL");
    reveal_strlit("RETN");
    reveal_strlit("RETV");
    reveal_strlit("CLOSURE");
    reveal_strlit("GETCUR");
    if mnemonic(a) == mnemonic(b) {
        assert(text_key(mnemonic(a)) == text_key(mnemonic(b)));
    }
}

fn mnemonic_str(op: OpCode) -> (res: &'static str)
    ensures
        res@ == mnemonic(op),
{
    match op {
        OpCode::PUSH => "PUSH",
        OpCode::POP => "POP",
        OpCode::CONST => "CONST",
        OpCode::DEFGLB => "DEFGLB",
        OpCode::GETGLB => "GETGLB",
        OpCode::DEFLCL => "DEFLCL",
        OpCode::GETLCL => "GETLCL",
        OpCode::GETFREE => "GETFREE",
        OpCode::ADD => "ADD",
        OpCode::SUB => "SUB",
        OpCode::PRODUCT => "PRODUCT",
        OpCode::DIVIDE => "DIVIDE",
        OpCode::MOD => "MOD",
        OpCode::BANG => "BANG",
        OpCode::NEG => "NEG",
        OpCode::CGT => "CGT",
        OpCode::CGTE => "CGTE",
        OpCode::CLT => "CLT",
        OpCode::CLTE => "CLTE",
        OpCode::CEQ => "CEQ",
        OpCode::CNEQ => "CNEQ",
        OpCode::AND => "AND",
        OpCode::OR => "OR",
        OpCode::BAND => "BAND",
        OpCode::BOR => "BOR",
        OpCode::JMP => "JMP",
        OpCode::JIS => "JIS",
        OpCode::JNS => "JNS",
        OpCode::JEQ => "JEQ",
        OpCode::JNEQ => "JNEQ",
        OpCode::ARRAY => "ARRAY",
        OpCode::INDEX => "INDEX",
        OpCode::CALL => "CALL",
        OpCode::RETN => "RETN",
        OpCode::RETV => "RETV",
        OpCode::CLOSURE => "CLOSURE",
        OpCode::GETCUR => "GETCUR",
    }
}

impl Instruction {
    pub open spec fn spec_opcode(self) -> OpCode {
        match self {
            Instruction::PUSH => OpCode::PUSH,
            Instruction::POP => OpCode::POP,
            Instruction::CONST { .. } => OpCode::CONST,
            Instruction::DEFGLB { .. } => OpCode::DEFGLB,
            Instruction::GETGLB { .. } => OpCode::GETGLB,
            Instruction::DEFLCL { .. } => OpCode::DEFLCL,
            Instruction::GETLCL { .. } => OpCode::GETLCL,
            Instruction::GETFREE { .. } => OpCode::GETFREE,
            Instruction::ADD => OpCode::ADD,
            Instruction::SUB => OpCode::SUB,
            Instruction::PRODUCT => OpCode::PRODUCT,
            Instruction::DIVIDE => OpCode::DIVIDE,
            Instruction::MOD => OpCode::MOD,
            Instruction::BANG => OpCode::BANG,
            Instruction::NEG => OpCode::NEG,
            Instruction::CGT => OpCode::CGT,
            Instruction::CGTE => OpCode::CGTE,
            Instruction::CLT => OpCode::CLT,
            Instruction::CLTE => OpCode::CLTE,
            Instruction::CEQ => OpCode::CEQ,
            Instruction::CNEQ => OpCode::CNEQ,
            Instruction::AND => OpCode::AND,
            Instruction::OR => OpCode::OR,
            Instruction::BAND => OpCode::BAND,
            Instruction::BOR => OpCode::BOR,
            Instruction::JMP { .. } => OpCode::JMP,
            Instruction::JIS { .. } => OpCode::JIS,
            Instruction::JNS { .. } => OpCode::JNS,
            Instruction::JEQ { .. } => OpCode::JEQ,
            Instruction::JNEQ { .. } => OpCode::JNEQ,
            Instruction::ARRAY { .. } => OpCode::ARRAY,
            Instruction::INDEX => OpCode::INDEX,
            Instruction::CALL { .. } => OpCode::CALL,
            Instruction::RETN => OpCode::RETN,
            Instruction::RETV => OpCode::RETV,
            Instruction::CLOSURE { .. } => OpCode::CLOSURE,
            Instruction::GETCUR => OpCode::GETCUR,
        }
    }

    /// Operand values, in encoding order.
    pub open spec fn operands(self) -> Seq<usize> {
        match self {
            Instruction::CONST { idx } => seq![idx],
            Instruction::DEFGLB { idx } => seq![idx],
            Instruction::GETGLB { idx } => seq![idx],
            Instruction::DEFLCL { idx } => seq![idx],
            Instruction::GETLCL { idx } => seq![idx],
            Instruction::GETFREE { idx } => seq![idx],
            Instruction::JMP { idx } => seq![idx],
            Instruction::JIS { idx } => seq![idx],
            Instruction::JNS { idx } => seq![idx],
            Instruction::JEQ { idx } => seq![idx],
            Instruction::JNEQ { idx } => seq![idx],
            Instruction::ARRAY { count } => seq![count],
            Instruction::CALL { arg_len } => seq![arg_len],
            Instruction::CLOSURE { idx, free } => seq![idx, free],
            _ => seq![],
        }
    }

    /// Encoded bytes: the opcode byte, then each operand in the native
    /// width and byte order of the machine.
    pub open spec fn encode(self) -> Seq<u8> {
        let ops = self.operands();
        if ops.len() == 0 {
            seq![op_byte(self.spec_opcode())]
        } else if ops.len() == 1 {
            seq![op_byte(self.spec_opcode())] + ne_bytes(ops[0])
        } else {
            seq![op_byte(self.spec_opcode())] + ne_bytes(ops[0]) + ne_bytes(ops[1])
        }
    }

    /// Text of the instruction: its mnemonic, then its operands.
    pub open spec fn text(self) -> Seq<char> {
        let ops = self.operands();
        if ops.len() == 0 {
            mnemonic(self.spec_opcode())
        } else if ops.len() == 1 {
            mnemonic(self.spec_opcode()) + "\t\t"@ + decimal(ops[0] as nat)
        } else {
            mnemonic(self.spec_opcode()) + "\t\t"@ + decimal(ops[0] as nat) + " "@ + decimal(ops[1] as nat)
        }
    }

    pub proof fn lemma_operands_count(self)
        ensures
            self.operands().len() == operand_count(self.spec_opcode()),
            self.encode().len() == op_length(self.spec_opcode()),
    {
        match self {
            Instruction::CLOSURE { idx, free } => {
                lemma_ne_bytes_roundtrip(idx);
                lemma_ne_bytes_roundtrip(free);
            },
            _ => {
                if self.operands().len() == 1 {
                    lemma_ne_bytes_roundtrip(self.operands()[0]);
                }
            },
        }
    }

    pub fn opcode(&self) -> (res: OpCode)
        ensures
            res == self.spec_opcode(),
    {
        match self {
            Instruction::PUSH => OpCode::PUSH,
            Instruction::POP => OpCode::POP,
            Instruction::CONST { .. } => OpCode::CONST,
            Instruction::DEFGLB { .. } => OpCode::DEFGLB,
            Instruction::GETGLB { .. } => OpCode::GETGLB,
            Instruction::DEFLCL { .. } => OpCode::DEFLCL,
            Instruction::GETLCL { .. } => OpCode::GETLCL,
            Instruction::GETFREE { .. } => OpCode::GETFREE,
            Instruction::ADD => OpCode::ADD,
            Instruction::SUB => OpCode::SUB,
            Instruction::PRODUCT => OpCode::PRODUCT,
            Instruction::DIVIDE => OpCode::DIVIDE,
            Instruction::MOD => OpCode::MOD,
            Instruction::BANG => OpCode::BANG,
            Instruction::NEG => OpCode::NEG,
            Instruction::CGT => OpCode::CGT,
            Instruction::CGTE => OpCode::CGTE,
            Instruction::CLT => OpCode::CLT,
            Instruction::CLTE => OpCode::CLTE,
            Instruction::CEQ => OpCode::CEQ,
            Instruction::CNEQ => OpCode::CNEQ,
            Instruction::AND => OpCode::AND,
            Instruction::OR => OpCode::OR,
            Instruction::BAND => OpCode::BAND,
            Instruction::BOR => OpCode::BOR,
            Instruction::JMP { .. } => OpCode::JMP,
            Instruction::JIS { .. } => OpCode::JIS,
            Instruction::JNS { .. } => OpCode::JNS,
            Instruction::JEQ { .. } => OpCode::JEQ,
            Instruction::JNEQ { .. } => OpCode::JNEQ,
            Instruction::ARRAY { .. } => OpCode::ARRAY,
            Instruction::INDEX => OpCode::INDEX,
            Instruction::CALL { .. } => OpCode::CALL,
            Instruction::RETN => OpCode::RETN,
            Instruction::RETV => OpCode::RETV,
            Instruction::CLOSURE { .. } => OpCode::CLOSURE,
            Instruction::GETCUR => OpCode::GETCUR,
        }
    }

    /// Encode the instruction.
    pub fn as_byte(&self) -> (res: Vec<u8>)
        ensures
            res@ == self.encode(),
    {
        let mut buf: Vec<u8> = Vec::new();
        buf.push(self.opcode().to_byte());
        match self {
            Instruction::CONST { idx } => {
                let mut b = usize_to_ne_bytes(*idx);
                buf.append(&mut b);
            },
            Instruction::DEFGLB { idx } => {
                let mut b = usize_to_ne_bytes(*idx);
                buf.append(&mut b);
            },
            Instruction::GETGLB { idx } => {
                let mut b = usize_to_ne_bytes(*idx);
                buf.append(&mut b);
            },
            Instruction::DEFLCL { idx } => {
                let mut b = usize_to_ne_bytes(*idx);
                buf.append(&mut b);
            },
            Instruction::GETLCL { idx } => {
                let mut b = usize_to_ne_bytes(*idx);
                buf.append(&mut b);
            },
            Instruction::GETFREE { idx } => {
                let mut b = usize_to_ne_bytes(*idx);
                buf.append(&mut b);
            },
            Instruction::JMP { idx } => {
                let mut b = usize_to_ne_bytes(*idx);
                buf.append(&mut b);
            },
            Instruction::JIS { idx } => {
                let mut b = usize_to_ne_bytes(*idx);
                buf.append(&mut b);
            },
            Instruction::JNS { idx } => {
                let mut b = usize_to_ne_bytes(*idx);
                buf.append(&mut b);
            },
            Instruction::JEQ { idx } => {
                let mut b = usize_to_ne_bytes(*idx);
                buf.append(&mut b);
            },
            Instruction::JNEQ { idx } => {
                let mut b = usize_to_ne_bytes(*idx);
                buf.append(&mut b);
            },
            Instruction::ARRAY { count } => {
                let mut b = usize_to_ne_bytes(*count);
                buf.append(&mut b);
            },
            Instruction::CALL { arg_len } => {
                let mut b = usize_to_ne_bytes(*arg_len);
                buf.append(&mut b);
            },
            Instruction::CLOSURE { idx, free } => {
                let mut b = usize_to_ne_bytes(*idx);
                buf.append(&mut b);
                let mut c = usize_to_ne_bytes(*free);
                buf.append(&mut c);
            },
            _ => {},
        }
        assert(buf@ =~= self.encode());
        buf
    }

    /// The instruction as text, e.g. `CONST\t\t3`.
    pub fn to_string(&self) -> (res: String)
        ensures
            res@ == self.text(),
    {
        let mut buf = String::from_str(mnemonic_str(self.opcode()));
        match self {
            Instruction::CONST { idx } => {
                buf.append("\t\t");
                push_decimal(&mut buf, *idx);
            },
            Instruction::DEFGLB { idx } => {
                buf.append("\t\t");
                push_decimal(&mut buf, *idx);
            },
            Instruction::GETGLB { idx } => {
                buf.append("\t\t");
                push_decimal(&mut buf, *idx);
            },
            Instruction::DEFLCL { idx } => {
                buf.append("\t\t");
                push_decimal(&mut buf, *idx);
            },
            Instruction::GETLCL { idx } => {
                buf.append("\t\t");
                push_decimal(&mut buf, *idx);
            },
            Instruction::GETFREE { idx } => {
                buf.append("\t\t");
                push_decimal(&mut buf, *idx);
            },
            Instruction::JMP { idx } => {
                buf.append("\t\t");
                push_decimal(&mut buf, *idx);
            },
            Instruction::JIS { idx } => {
                buf.append("\t\t");
                push_decimal(&mut buf, *idx);
            },
            Instruction::JNS { idx } => {
                buf.append("\t\t");
                push_decimal(&mut buf, *idx);
            },
            Instruction::JEQ { idx } => {
                buf.append("\t\t");
                push_decimal(&mut buf, *idx);
            },
            Instruction::JNEQ { idx } => {
                buf.append("\t\t");
                push_decimal(&mut buf, *idx);
            },
            Instruction::ARRAY { count } => {
                buf.append("\t\t");
                push_decimal(&mut buf, *count);
            },
            Instruction::CALL { arg_len } => {
                buf.append("\t\t");
                push_decimal(&mut buf, *arg_len);
            },
            Instruction::CLOSURE { idx, free } => {
                buf.append("\t\t");
                push_decimal(&mut buf, *idx);
                buf.append(" ");
                push_decimal(&mut buf, *free);
            },
            _ => {},
        }
        assert(buf@ =~= self.text());
        buf
    }
}

} // verus!
