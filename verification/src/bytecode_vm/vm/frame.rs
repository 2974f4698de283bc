use vstd::prelude::*;

use crate::bytecode_vm::bytecode::errors::{FrameError, InstructionsError};
use crate::bytecode_vm::bytecode::instruction::Instruction;
use crate::bytecode_vm::bytecode::instructions::{decode_at, listing_text};
use crate::object::{closure_view, ClosureFunction, ClosureV};
use crate::utils::{decimal, push_decimal};

verus! {

/// Stack Frame of function.
///
/// * cf - Compiled function closure
/// * bp - base pointer aka bp (stack index of return)
/// * ic - instruction counter (same as program counter) aka ic
#[derive(Debug)]
pub struct Frame {
    cf: ClosureFunction,
    bp: usize,
    ic: usize,
}

/// A frame as a value.
pub struct FrameV {
    pub cf: ClosureV,
    pub bp: usize,
    pub ic: usize,
}

impl View for Frame {
    type V = FrameV;

    closed spec fn view(&self) -> FrameV {
        FrameV { cf: closure_view(self.cf), bp: self.bp, ic: self.ic }
    }
}

/// Text of a frame: its counters, then the listing of its code with the
/// current instruction marked.
pub open spec fn frame_text(f: FrameV) -> Seq<char> {
    "<FRAME> IC : "@ + decimal(f.ic as nat) + ", BP : "@ + decimal(f.bp as nat) + "\n"@
        + "\nINSTRUCTIONS\n"@ + listing_text(f.cf.fun.instructions, Some(f.ic))
}

impl Frame {
    /// Creates a new [`Frame`].
    /// * `fun`- Compiled function closure
    /// * `base_ptr` - base pointer aka bp (stack index of return)
    pub fn new(fun: ClosureFunction, base_ptr: usize) -> (res: Self)
        ensures
            res@ == (FrameV { cf: closure_view(fun), bp: base_ptr, ic: 0 }),
    {
        Self { cf: fun, bp: base_ptr, ic: 0 }
    }

    /// Returns the next instruction of this [`Frame`]
    /// by reading instruction from [`Self::cf`],
    ///
    /// # Errors [`FrameError::InnerError`]
    ///
    /// This function will return an error if failed to read instruction
    pub fn rext_instruction(&self) -> (res: Result<Instruction, FrameError>)
        ensures
            match res {
                Ok(ins) => decode_at(self@.cf.fun.instructions, self@.ic as int) == Some(ins),
                Err(e) => decode_at(self@.cf.fun.instructions, self@.ic as int) is None && (e matches FrameError::InnerError(InstructionsError::CannotRead { offset: o }) && o == self@.ic),
            },
    {
        match self.cf.fun.instructions.read_instruction(self.ic) {
            Ok(ins) => Ok(ins),
            Err(e) => Err(FrameError::InnerError(e)),
        }
    }

    /// Sets the ic of this [`Frame`].
    pub fn set_ic(&mut self, tgt: usize)
        ensures
            final(self)@ == (FrameV { ic: tgt, ..old(self)@ }),
    {
        self.ic = tgt
    }

    /// Add ic with given `offset`
    pub fn add_ic(&mut self, offset: usize)
        requires
            old(self)@.ic + offset <= usize::MAX,
        ensures
            final(self)@ == (FrameV { ic: (old(self)@.ic + offset) as usize, ..old(self)@ }),
    {
        self.ic += offset
    }

    /// Returns the ic of this [`Frame`].
    pub fn ic(&self) -> (res: usize)
        ensures
            res == self@.ic,
    {
        self.ic
    }

    /// Returns the bp of this [`Frame`].
    pub fn bp(&self) -> (res: usize)
        ensures
            res == self@.bp,
    {
        self.bp
    }

    /// Whether the instruction counter is still inside the code.
    pub fn is_runnable(&self) -> (res: bool)
        ensures
            res == (self@.ic < self@.cf.fun.instructions.len()),
    {
        self.ic < self.cf.fun.instructions.length()
    }

    /// Returns a reference to the closure of this [`Frame`].
    pub fn get_closure_ref(&self) -> (res: &ClosureFunction)
        ensures
            closure_view(*res) == self@.cf,
    {
        &self.cf
    }

    /// Create String from `&self`
    pub fn to_string(&self) -> (res: String)
        ensures
            res@ == frame_text(self@),
    {
        let mut buf = String::from_str("<FRAME> IC : ");
        push_decimal(&mut buf, self.ic);
        buf.append(", BP : ");
        push_decimal(&mut buf, self.bp);
        buf.append("\n");
        buf.append("\nINSTRUCTIONS\n");
        let listing = self.cf.fun.instructions.to_string_with_highlight(self.ic);
        buf.append(listing.as_str());
        buf
    }
}

} // verus!
