use vstd::prelude::*;

use super::errors::InstructionsError;
use super::instruction::Instruction;
use super::opcode::{byte_op, lemma_byte_op_roundtrip, op_byte, op_length, operand_count, OpCode};
use crate::utils::{
    decimal, from_ne_bytes, lemma_from_ne_bytes_roundtrip, lemma_ne_bytes_roundtrip, ne_bytes,
    pad_left, push_decimal, push_decimal_padded, usize_from_ne_bytes, word_bytes,
};
use std::alloc::Layout;

verus! {

/// Bytes reserved when a buffer is created.
pub const SIZE: usize = 2048;

/// Owned encoded bytecode. Clones have independent storage.
#[derive(Debug, PartialEq)]
pub struct Instructions {
    byte: Vec<u8>,
}

impl View for Instructions {
    type V = Seq<u8>;

    closed spec fn view(&self) -> Seq<u8> {
        self.byte@
    }
}

impl Clone for Instructions {
    fn clone(&self) -> (res: Self)
        ensures
            res@ == self@,
    {
        let mut byte: Vec<u8> = Vec::new();
        let mut i: usize = 0;
        while i < self.byte.len()
            invariant
                i <= self.byte@.len(),
                byte@ == self.byte@.subrange(0, i as int),
            decreases self.byte@.len() - i,
        {
            byte.push(self.byte[i]);
            i = i + 1;
            assert(byte@ =~= self.byte@.subrange(0, i as int));
        }
        assert(byte@ =~= self.byte@);
        Instructions { byte }
    }
}

/// The operand word stored at byte position `p`.
pub open spec fn operand_at(b: Seq<u8>, p: int) -> usize {
    from_ne_bytes(b.subrange(p, p + word_bytes()))
}

/// The instruction with opcode `op` and operands `a` (first) and `c`
/// (second), where the opcode takes them.
pub open spec fn make_instruction(op: OpCode, a: usize, c: usize) -> Instruction {
    match op {
        OpCode::PUSH => Instruction::PUSH,
        OpCode::POP => Instruction::POP,
        OpCode::CONST => Instruction::CONST { idx: a },
        OpCode::DEFGLB => Instruction::DEFGLB { idx: a },
        OpCode::GETGLB => Instruction::GETGLB { idx: a },
        OpCode::DEFLCL => Instruction::DEFLCL { idx: a },
        OpCode::GETLCL => Instruction::GETLCL { idx: a },
        OpCode::GETFREE => Instruction::GETFREE { idx: a },
        OpCode::ADD => Instruction::ADD,
        OpCode::SUB => Instruction::SUB,
        OpCode::PRODUCT => Instruction::PRODUCT,
        OpCode::DIVIDE => Instruction::DIVIDE,
        OpCode::MOD => Instruction::MOD,
        OpCode::BANG => Instruction::BANG,
        OpCode::NEG => Instruction::NEG,
        OpCode::CGT => Instruction::CGT,
        OpCode::CGTE => Instruction::CGTE,
        OpCode::CLT => Instruction::CLT,
        OpCode::CLTE => Instruction::CLTE,
        OpCode::CEQ => Instruction::CEQ,
        OpCode::CNEQ => Instruction::CNEQ,
        OpCode::AND => Instruction::AND,
        OpCode::OR => Instruction::OR,
        OpCode::BAND => Instruction::BAND,
        OpCode::BOR => Instruction::BOR,
        OpCode::JMP => Instruction::JMP { idx: a },
        OpCode::JIS => Instruction::JIS { idx: a },
        OpCode::JNS => Instruction::JNS { idx: a },
        OpCode::JEQ => Instruction::JEQ { idx: a },
        OpCode::JNEQ => Instruction::JNEQ { idx: a },
        OpCode::ARRAY => Instruction::ARRAY { count: a },
        OpCode::INDEX => Instruction::INDEX,
        OpCode::CALL => Instruction::CALL { arg_len: a },
        OpCode::RETN => Instruction::RETN,
        OpCode::RETV => Instruction::RETV,
        OpCode::CLOSURE => Instruction::CLOSURE { idx: a, free: c },
        OpCode::GETCUR => Instruction::GETCUR,
    }
}

/// The instruction encoded at byte offset `off` of `b`, if a whole one is there.
pub open spec fn decode_at(b: Seq<u8>, off: int) -> Option<Instruction> {
    if 0 <= off < b.len() {
        match byte_op(b[off]) {
            Some(op) => if off + op_length(op) <= b.len() {
                Some(make_instruction(op, operand_at(b, off + 1), operand_at(b, off + 1 + word_bytes())))
            } else {
                None
            },
            None => None,
        }
    } else {
        None
    }
}

/// `b` with the bytes from `off` on replaced by `new`.
pub open spec fn splice(b: Seq<u8>, off: int, new: Seq<u8>) -> Seq<u8> {
    b.subrange(0, off) + new + b.subrange(off + new.len(), b.len() as int)
}

proof fn lemma_make_operands(ins: Instruction)
    ensures
        ins.operands().len() == operand_count(ins.spec_opcode()),
        make_instruction(
            ins.spec_opcode(),
            if ins.operands().len() >= 1 { ins.operands()[0] } else { 0 },
            if ins.operands().len() >= 2 { ins.operands()[1] } else { 0 },
        ) == ins,
{
}

/// Decoding the bytes of an encoded instruction, wherever they stand,
/// gives the instruction back.
pub proof fn lemma_decode_encode(pre: Seq<u8>, ins: Instruction, post: Seq<u8>)
    ensures
        decode_at(pre + ins.encode() + post, pre.len() as int) == Some(ins),
{
    let enc = ins.encode();
    let b = pre + enc + post;
    let off = pre.len() as int;
    let op = ins.spec_opcode();
    let w = word_bytes() as int;
    ins.lemma_operands_count();
    lemma_byte_op_roundtrip(op);
    lemma_make_operands(ins);
    assert(b[off] == enc[0]);
    assert(byte_op(b[off]) == Some(op));
    let ops = ins.operands();
    if ops.len() >= 1 {
        lemma_ne_bytes_roundtrip(ops[0]);
        assert(b.subrange(off + 1, off + 1 + w) =~= ne_bytes(ops[0]));
    }
    if ops.len() >= 2 {
        lemma_ne_bytes_roundtrip(ops[1]);
        assert(b.subrange(off + 1 + w, off + 1 + w + w) =~= ne_bytes(ops[1]));
    }
}

/// Reading at the offset where an instruction was written over the code
/// gives that instruction back.
pub proof fn law_read_after_update(b: Seq<u8>, off: int, ins: Instruction)
    requires
        0 <= off,
        off + ins.encode().len() <= b.len(),
    ensures
        decode_at(splice(b, off, ins.encode()), off) == Some(ins),
{
    let pre = b.subrange(0, off);
    let post = b.subrange(off + ins.encode().len(), b.len() as int);
    lemma_decode_encode(pre, ins, post);
    assert(splice(b, off, ins.encode()) == pre + ins.encode() + post);
}

/// Where an instruction decodes, its encoding is exactly the bytes it was
/// read from.
pub proof fn lemma_encode_decode(b: Seq<u8>, off: int)
    requires
        decode_at(b, off) is Some,
    ensures
        ({
            let ins = decode_at(b, off)->0;
            off + ins.encode().len() <= b.len() && b.subrange(off, off + ins.encode().len())
                == ins.encode()
        }),
{
    let ins = decode_at(b, off)->0;
    let op = byte_op(b[off])->0;
    let w = word_bytes() as int;
    ins.lemma_operands_count();
    crate::bytecode_vm::bytecode::opcode::lemma_op_byte_roundtrip(b[off]);
    assert(ins.spec_opcode() == op);
    let enc = ins.encode();
    if operand_count(op) >= 1 {
        lemma_from_ne_bytes_roundtrip(b.subrange(off + 1, off + 1 + w));
    }
    if operand_count(op) >= 2 {
        lemma_from_ne_bytes_roundtrip(b.subrange(off + 1 + w, off + 1 + w + w));
    }
    assert(b.subrange(off, off + enc.len()) =~= enc);
}

fn make(op: OpCode, a: usize, c: usize) -> (res: Instruction)
    ensures
        res == make_instruction(op, a, c),
{
    match op {
        OpCode::PUSH => Instruction::PUSH,
        OpCode::POP => Instruction::POP,
        OpCode::CONST => Instruction::CONST { idx: a },
        OpCode::DEFGLB => Instruction::DEFGLB { idx: a },
        OpCode::GETGLB => Instruction::GETGLB { idx: a },
        OpCode::DEFLCL => Instruction::DEFLCL { idx: a },
        OpCode::GETLCL => Instruction::GETLCL { idx: a },
        OpCode::GETFREE => Instruction::GETFREE { idx: a },
        OpCode::ADD => Instruction::ADD,
        OpCode::SUB => Instruction::SUB,
        OpCode::PRODUCT => Instruction::PRODUCT,
        OpCode::DIVIDE => Instruction::DIVIDE,
        OpCode::MOD => Instruction::MOD,
        OpCode::BANG => Instruction::BANG,
        OpCode::NEG => Instruction::NEG,
        OpCode::CGT => Instruction::CGT,
        OpCode::CGTE => Instruction::CGTE,
        OpCode::CLT => Instruction::CLT,
        OpCode::CLTE => Instruction::CLTE,
        OpCode::CEQ => Instruction::CEQ,
        OpCode::CNEQ => Instruction::CNEQ,
        OpCode::AND => Instruction::AND,
        OpCode::OR => Instruction::OR,
        OpCode::BAND => Instruction::BAND,
        OpCode::BOR => Instruction::BOR,
        OpCode::JMP => Instruction::JMP { idx: a },
        OpCode::JIS => Instruction::JIS { idx: a },
        OpCode::JNS => Instruction::JNS { idx: a },
        OpCode::JEQ => Instruction::JEQ { idx: a },
        OpCode::JNEQ => Instruction::JNEQ { idx: a },
        OpCode::ARRAY => Instruction::ARRAY { count: a },
        OpCode::INDEX => Instruction::INDEX,
        OpCode::CALL => Instruction::CALL { arg_len: a },
        OpCode::RETN => Instruction::RETN,
        OpCode::RETV => Instruction::RETV,
        OpCode::CLOSURE => Instruction::CLOSURE { idx: a, free: c },
        OpCode::GETCUR => Instruction::GETCUR,
    }
}

/// `Layout::array::<u8>(size)`: a layout exists exactly when `size` does not
/// exceed `isize::MAX`, as the std documentation states.
#[verifier::external_body]
fn layout_array_u8(size: usize) -> (res: Option<Layout>)
    ensures
        res is Some <==> size <= isize::MAX,
{
    Layout::array::<u8>(size).ok()
}

/// One line of a listing.
pub open spec fn listing_line(off: nat, ins: Instruction, highlight: Option<usize>) -> Seq<char> {
    (if highlight == Some(off as usize) { ">>"@ } else { ""@ }) + pad_left(decimal(off), 5, '0')
        + "\t\t"@ + ins.text() + "\n"@
}

/// Listing of the instructions from `off` on: `Err(o)` names the first
/// offset at which no instruction can be read.
pub open spec fn listing(b: Seq<u8>, off: nat, highlight: Option<usize>) -> Result<Seq<char>, nat>
    decreases b.len() - off,
{
    if off >= b.len() {
        Ok(Seq::empty())
    } else {
        match decode_at(b, off as int) {
            None => Err(off),
            Some(ins) => {
                let next = off + op_length(ins.spec_opcode());
                match listing(b, next, highlight) {
                    Ok(rest) => Ok(listing_line(off, ins, highlight) + rest),
                    Err(e) => Err(e),
                }
            },
        }
    }
}

/// The text a listing prints: the lines, or the read error at the first
/// unreadable offset.
pub open spec fn listing_text(b: Seq<u8>, highlight: Option<usize>) -> Seq<char> {
    match listing(b, 0, highlight) {
        Ok(t) => t,
        Err(o) => "Error reading instruction: CannotRead { offset: "@ + decimal(o) + " }"@,
    }
}

fn push_listing_line(buf: &mut String, offset: usize, instruction: &Instruction, highlight: Option<usize>)
    ensures
        final(buf)@ == old(buf)@ + listing_line(offset as nat, *instruction, highlight),
{
    let ghost before = buf@;
    proof {
        reveal_strlit("0");
        reveal_strlit("");
    }
    match highlight {
        Some(h) => {
            if h == offset {
                buf.append(">>");
            }
        },
        None => {},
    }
    let ghost mid = buf@;
    assert(mid == before + (if highlight == Some(offset) { ">>"@ } else { ""@ }));
    push_decimal_padded(buf, offset, 5, "0");
    buf.append("\t\t");
    let text = instruction.to_string();
    buf.append(text.as_str());
    buf.append("\n");
    assert(pad_left(decimal(offset as nat), 5, "0"@[0]) == pad_left(decimal(offset as nat), 5, '0'));
    assert(final(buf)@ =~= before + listing_line(offset as nat, *instruction, highlight));
}

impl Instructions {
    /// Create an empty instruction buffer.
    pub fn create() -> (res: Result<Self, InstructionsError>)
        ensures
            match res {
                Ok(code) => code@ == Seq::<u8>::empty(),
                Err(e) => e is AllocationFailed,
            },
    {
        let mut code = Self { byte: Vec::new() };
        match code.reserve(SIZE) {
            Ok(()) => Ok(code),
            Err(e) => Err(e),
        }
    }

    /// Make room for `additional` more bytes.
    fn reserve(&mut self, additional: usize) -> (res: Result<(), InstructionsError>)
        ensures
            final(self)@ == old(self)@,
            match res {
                Ok(()) => old(self)@.len() + additional <= isize::MAX,
                Err(e) => (e is TooLargeToAllocate <==> old(self)@.len() + additional > isize::MAX)
                    && (e is TooLargeToAllocate || e is AllocationFailed),
            },
    {
        let size = match self.byte.len().checked_add(additional) {
            Some(size) => size,
            None => return Err(InstructionsError::TooLargeToAllocate),
        };
        let layout = match layout_array_u8(size) {
            Some(layout) => layout,
            None => return Err(InstructionsError::TooLargeToAllocate),
        };
        match self.byte.try_reserve(additional) {
            Ok(()) => Ok(()),
            Err(_) => Err(InstructionsError::AllocationFailed(layout)),
        }
    }

    /// Append an instruction and return its byte offset.
    pub fn add_instruction(&mut self, ins: Instruction) -> (res: Result<usize, InstructionsError>)
        ensures
            match res {
                Ok(off) => off == old(self)@.len() && final(self)@ == old(self)@ + ins.encode()
                    && old(self)@.len() + ins.encode().len() <= isize::MAX,
                Err(e) => final(self)@ == old(self)@ && (e is TooLargeToAllocate <==> old(self)@.len()
                    + ins.encode().len() > isize::MAX) && (e is TooLargeToAllocate
                    || e is AllocationFailed),
            },
    {
        let mut bytes = ins.as_byte();
        self.reserve(bytes.len())?;
        let offset = self.byte.len();
        self.byte.append(&mut bytes);
        Ok(offset)
    }

    /// Replace the bytes at `offset` by the encoding of `ins`.
    pub fn update_instruction(&mut self, ins: Instruction, offset: usize)
        requires
            offset + ins.encode().len() <= old(self)@.len(),
        ensures
            final(self)@ == splice(old(self)@, offset as int, ins.encode()),
    {
        let bytes = ins.as_byte();
        let n = self.byte.len();
        let mut i: usize = 0;
        while i < bytes.len()
            invariant
                i <= bytes@.len(),
                n == self.byte@.len(),
                bytes@ == ins.encode(),
                offset + bytes@.len() <= old(self)@.len(),
                self.byte@.len() == old(self)@.len(),
                forall|j: int| 0 <= j < offset ==> self.byte@[j] == old(self)@[j],
                forall|j: int| offset + i <= j < self.byte@.len() ==> self.byte@[j] == old(self)@[j],
                forall|j: int| 0 <= j < i ==> self.byte@[offset + j] == bytes@[j],
            decreases bytes@.len() - i,
        {
            self.byte[offset + i] = bytes[i];
            i = i + 1;
        }
        assert(self@ =~= splice(old(self)@, offset as int, ins.encode()));
    }

    /// Truncate the bytecode at an instruction boundary.
    pub fn remove_instruction(&mut self, new_len: usize)
        requires
            new_len <= old(self)@.len(),
        ensures
            final(self)@ == old(self)@.subrange(0, new_len as int),
    {
        self.byte.truncate(new_len);
    }

    fn read_operand(&self, offset: usize) -> (res: Option<usize>)
        ensures
            match res {
                Some(v) => offset + word_bytes() <= self@.len() && v == operand_at(self@, offset as int),
                None => offset + word_bytes() > self@.len(),
            },
    {
        let w: usize = (usize::BITS / 8) as usize;
        let len = self.byte.len();
        let end = match offset.checked_add(w) {
            Some(end) => end,
            None => return None,
        };
        if end > self.byte.len() {
            return None;
        }
        let mut tmp: Vec<u8> = Vec::new();
        let mut i: usize = offset;
        while i < end
            invariant
                offset <= i <= end,
                end <= self.byte@.len(),
                tmp@ == self.byte@.subrange(offset as int, i as int),
            decreases end - i,
        {
            tmp.push(self.byte[i]);
            i = i + 1;
            assert(tmp@ =~= self.byte@.subrange(offset as int, i as int));
        }
        Some(usize_from_ne_bytes(tmp.as_slice()))
    }

    /// Decode an instruction without assuming alignment of its operands.
    pub fn read_instruction(&self, offset: usize) -> (res: Result<Instruction, InstructionsError>)
        ensures
            match res {
                Ok(ins) => decode_at(self@, offset as int) == Some(ins),
                Err(e) => decode_at(self@, offset as int) is None && (e matches InstructionsError::CannotRead { offset: o } && o == offset),
            },
    {
        if offset >= self.byte.len() {
            return Err(InstructionsError::CannotRead { offset });
        }
        let op = match OpCode::try_from(self.byte[offset]) {
            Ok(op) => op,
            Err(_) => return Err(InstructionsError::CannotRead { offset }),
        };
        let count = op.arg_len().len();
        let w: usize = (usize::BITS / 8) as usize;
        let mut a: usize = 0;
        let mut c: usize = 0;
        if count >= 1 {
            match self.read_operand(offset + 1) {
                Some(v) => a = v,
                None => return Err(InstructionsError::CannotRead { offset }),
            }
        }
        if count >= 2 {
            match self.read_operand(offset + 1 + w) {
                Some(v) => c = v,
                None => return Err(InstructionsError::CannotRead { offset }),
            }
        }
        Ok(make(op, a, c))
    }

    /// Return the encoded length in bytes.
    pub fn length(&self) -> (res: usize)
        ensures
            res == self@.len(),
    {
        self.byte.len()
    }

    /// Listing with the instruction at `hidx` marked.
    pub fn to_string_with_highlight(&self, hidx: usize) -> (res: String)
        ensures
            res@ == listing_text(self@, Some(hidx)),
    {
        self.format(Some(hidx))
    }

    /// Listing of the whole buffer.
    pub fn to_string(&self) -> (res: String)
        ensures
            res@ == listing_text(self@, None),
    {
        self.format(None)
    }

    fn format(&self, highlight: Option<usize>) -> (res: String)
        ensures
            res@ == listing_text(self@, highlight),
    {
        let mut buf = String::new();
        let mut offset: usize = 0;
        while offset < self.byte.len()
            invariant
                offset <= self@.len(),
                listing(self@, 0, highlight) == match listing(self@, offset as nat, highlight) {
                    Ok(rest) => Ok(buf@ + rest),
                    Err(e) => Err(e),
                },
            decreases self@.len() - offset,
        {
            let instruction = match self.read_instruction(offset) {
                Ok(instruction) => instruction,
                Err(_) => {
                    let mut msg = String::from_str("Error reading instruction: CannotRead { offset: ");
                    push_decimal(&mut msg, offset);
                    msg.append(" }");
                    return msg;
                },
            };
            let ghost before = buf@;
            push_listing_line(&mut buf, offset, &instruction, highlight);
            let len = instruction.opcode().length();
            proof {
                instruction.lemma_operands_count();
                let next = (offset + len) as nat;
                assert(listing(self@, offset as nat, highlight) == match listing(self@, next, highlight) {
                    Ok(rest) => Ok(listing_line(offset as nat, instruction, highlight) + rest),
                    Err(e) => Err(e),
                });
                match listing(self@, next, highlight) {
                    Ok(rest) => {
                        assert(before + (listing_line(offset as nat, instruction, highlight) + rest) == buf@ + rest);
                    },
                    Err(e) => {},
                }
            }
            offset = offset + len;
        }
        buf
    }
}

} // verus!
