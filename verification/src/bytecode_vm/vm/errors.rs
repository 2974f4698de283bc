use vstd::prelude::*;

use crate::bytecode_vm::bytecode::errors::{FrameError, InstructionsError};
use crate::bytecode_vm::bytecode::instruction::Instruction;
use crate::object::{Object, ObjectV};

verus! {

#[derive(Debug)]
pub enum VmError {
    InstructionReadFailure(FrameError),
    InvalidIntegerInstruction(Instruction),
    InvalidBoolInstruction(Instruction),
    InvalidStringInstruction(Instruction),
    TypeNotSame { left: Object, right: Object },
    NotABolean { obj: Object },
    NotAInt { obj: Object },
    JumpConditionNotABolean { obj: Object },
    IndexTargetNotAArray { obj: Object },
    IndexNotAInt { obj: Object },
    IndexOutOfBounds { index: i64, length: usize },
    NotImplentedInstruction { ins: Instruction },
}

/// A VM error as a value; a read failure is given by the offset that
/// could not be read.
pub enum VmErrorV {
    InstructionReadFailure(usize),
    InvalidIntegerInstruction(Instruction),
    InvalidBoolInstruction(Instruction),
    InvalidStringInstruction(Instruction),
    TypeNotSame { left: ObjectV, right: ObjectV },
    NotABolean { obj: ObjectV },
    NotAInt { obj: ObjectV },
    JumpConditionNotABolean { obj: ObjectV },
    IndexTargetNotAArray { obj: ObjectV },
    IndexNotAInt { obj: ObjectV },
    IndexOutOfBounds { index: i64, length: usize },
    NotImplentedInstruction { ins: Instruction },
    OtherReadFailure,
}

impl View for VmError {
    type V = VmErrorV;

    open spec fn view(&self) -> VmErrorV {
        match self {
            VmError::InstructionReadFailure(FrameError::InnerError(InstructionsError::CannotRead { offset })) => VmErrorV::InstructionReadFailure(*offset),
            VmError::InstructionReadFailure(_) => VmErrorV::OtherReadFailure,
            VmError::InvalidIntegerInstruction(i) => VmErrorV::InvalidIntegerInstruction(*i),
            VmError::InvalidBoolInstruction(i) => VmErrorV::InvalidBoolInstruction(*i),
            VmError::InvalidStringInstruction(i) => VmErrorV::InvalidStringInstruction(*i),
            VmError::TypeNotSame { left, right } => VmErrorV::TypeNotSame { left: left@, right: right@ },
            VmError::NotABolean { obj } => VmErrorV::NotABolean { obj: obj@ },
            VmError::NotAInt { obj } => VmErrorV::NotAInt { obj: obj@ },
            VmError::JumpConditionNotABolean { obj } => VmErrorV::JumpConditionNotABolean { obj: obj@ },
            VmError::IndexTargetNotAArray { obj } => VmErrorV::IndexTargetNotAArray { obj: obj@ },
            VmError::IndexNotAInt { obj } => VmErrorV::IndexNotAInt { obj: obj@ },
            VmError::IndexOutOfBounds { index, length } => VmErrorV::IndexOutOfBounds { index: *index, length: *length },
            VmError::NotImplentedInstruction { ins } => VmErrorV::NotImplentedInstruction { ins: *ins },
        }
    }
}

} // verus!
