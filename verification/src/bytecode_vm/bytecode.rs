pub mod compiler;
pub mod compiler_spec;
pub mod errors;
pub mod instruction;
pub mod instructions;
pub mod opcode;
pub mod symbol;

use vstd::prelude::*;

use self::errors::BytecodeError;
use self::instructions::{listing_text, Instructions};
use crate::object::{object_text, objects_view, Object, ObjectTrait, ObjectV};
use crate::utils::{decimal, pad_left, push_decimal_padded};

verus! {

/// The lines of the first `n` constants: each index padded with `0` to six
/// places, two tabs and the constant's text.
pub open spec fn consts_text(cs: Seq<ObjectV>, n: int) -> Seq<char>
    decreases n,
{
    if n <= 0 {
        Seq::empty()
    } else {
        consts_text(cs, n - 1) + pad_left(decimal((n - 1) as nat), 6, '0') + "\t\t"@ + object_text(cs[n - 1]) + "\n"@
    }
}

/// Append the lines of the constants.
pub(crate) fn push_consts_text(buf: &mut String, cs: &Vec<Object>)
    ensures
        final(buf)@ == old(buf)@ + consts_text(objects_view(cs@), cs@.len() as int),
{
    let ghost start = buf@;
    let ghost v = objects_view(cs@);
    let mut idx: usize = 0;
    while idx < cs.len()
        invariant
            idx <= cs@.len(),
            v == objects_view(cs@),
            start == old(buf)@,
            buf@ == start + consts_text(v, idx as int),
        decreases cs@.len() - idx,
    {
        proof {
            reveal_strlit("0");
            reveal_strlit("\t\t");
            reveal_strlit("\n");
        }
        let ghost before = buf@;
        push_decimal_padded(buf, idx, 6, "0");
        buf.append("\t\t");
        let text = cs[idx].to_str();
        buf.append(text.as_str());
        buf.append("\n");
        assert(v[idx as int] == cs@[idx as int]@);
        assert(buf@ =~= start + consts_text(v, idx + 1));
        idx = idx + 1;
    }
}

/// Compiled program: the constant pool and the main function's code.
#[derive(Debug)]
pub struct Bytecode {
    pub constants: Vec<Object>,
    pub instructions: Instructions,
}

impl Bytecode {
    pub fn create() -> (res: Result<Self, BytecodeError>)
        ensures
            match res {
                Ok(b) => b.constants@.len() == 0 && b.instructions@.len() == 0,
                Err(e) => e matches BytecodeError::InnerError(i) && i is AllocationFailed,
            },
    {
        let new_instruction = match Instructions::create() {
            Ok(i) => i,
            Err(e) => return Err(BytecodeError::InnerError(e)),
        };
        Ok(Self { constants: Vec::new(), instructions: new_instruction })
    }

    /// The constants, one line each, then the listing of the code.
    pub fn to_string(&self) -> (res: String)
        ensures
            res@ == "\nCONSTS\n"@ + consts_text(objects_view(self.constants@), self.constants@.len() as int)
                + "\nINSTRUCTIONS\n"@ + listing_text(self.instructions@, None),
    {
        proof {
            reveal_strlit("\nCONSTS\n");
            reveal_strlit("\nINSTRUCTIONS\n");
        }
        let mut buf = String::new();
        buf.append("\nCONSTS\n");
        push_consts_text(&mut buf, &self.constants);
        buf.append("\nINSTRUCTIONS\n");
        let listing = self.instructions.to_string();
        buf.append(listing.as_str());
        buf
    }
}

} // verus!
