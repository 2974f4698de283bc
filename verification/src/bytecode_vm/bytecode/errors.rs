use vstd::prelude::*;

use crate::ast::Identifier;
use std::alloc::Layout;

verus! {

/// `std::alloc::Layout`, carried in allocation errors.
#[verifier::external_type_specification]
#[verifier::external_body]
pub struct ExLayout(Layout);

#[derive(Debug)]
pub enum CompileError {
    /// compile had not ended in main scope
    NotFinishedInMain,
    /// cannot find identifier on symbol table
    IdentifierNotFound(Identifier),
    /// creation of the compiler failed because its instruction buffer could not be created
    CreationFailed(InstructionsError),
    /// failed to write (emit) instruction
    InstructionWriteError(InstructionsError),
    /// failed to create new scope because of an [`InstructionsError`]
    ScopeCreateFaild(InstructionsError),
}

#[derive(Debug)]
pub enum InstructionsError {
    /// memory allocation have failed
    AllocationFailed(Layout),
    /// alloc size > [isize::MAX]
    TooLargeToAllocate,
    /// cannot read instruction at offset
    CannotRead { offset: usize },
}

#[derive(Debug)]
pub enum FrameError {
    /// wraper of InstructionsError
    InnerError(InstructionsError),
}

#[derive(Debug)]
pub enum BytecodeError {
    /// wraper of InstructionsError
    InnerError(InstructionsError),
}

impl From<InstructionsError> for FrameError {
    fn from(err: InstructionsError) -> (res: Self) {
        FrameError::InnerError(err)
    }
}

impl vstd::std_specs::convert::FromSpecImpl<InstructionsError> for FrameError {
    open spec fn obeys_from_spec() -> bool {
        true
    }

    open spec fn from_spec(v: InstructionsError) -> FrameError {
        FrameError::InnerError(v)
    }
}

impl From<InstructionsError> for BytecodeError {
    fn from(err: InstructionsError) -> (res: Self) {
        BytecodeError::InnerError(err)
    }
}

impl vstd::std_specs::convert::FromSpecImpl<InstructionsError> for BytecodeError {
    open spec fn obeys_from_spec() -> bool {
        true
    }

    open spec fn from_spec(v: InstructionsError) -> BytecodeError {
        BytecodeError::InnerError(v)
    }
}

} // verus!
