use vstd::prelude::*;

use crate::ast::Expression;
use crate::immix::errors::ImmixError;
use crate::object::{Object, ObjectType};
use crate::token::Kind;

verus! {

/// What can go wrong while the tree-walking evaluator runs a program.
#[derive(Debug, PartialEq)]
pub enum EvalError {
    BlankResult,
    EnvironmentHasDropped,
    LetStatementValueIsNone,
    EvaluationOfExpressionIsNone(Expression),
    LeftExpressionIsNone,
    RightExpressionIsNone,
    NotABoolean(Object),
    NotAFunction(Object),
    ConditionIsNone,
    FunctionIsNone,
    ElementIsNone,
    ArrayIsNone,
    IdentifierNotFound(String),
    NotSameType,
    NotArray,
    IndexIsNotAInt(Object),
    IndexIsNegative(Object),
    IndexOutOfRange(IndexErrorDetail),
    FunctionArgLengthNotMatched(ArgumentsLength),
    DivideWithZero,
    InvalidPrefixOperationTarget(ObjectType, Kind),
    InvalidInfixOperationTarget(ObjectType, Kind),
    InvalidStringInfixOperation(Kind),
    InvalidIntegerInfixOperation(Kind),
    InvalidIntegerPrefixOperation(Kind),
    InvalidBoolInfixOperation(Kind),
    InvalidBoolPrefixOperation(Kind),
    MemoryError(ImmixError),
}

/// The parameter count of a function and the argument count of a call.
#[derive(Debug, Clone, PartialEq)]
pub struct ArgumentsLength {
    pub function_args: usize,
    pub called_with: usize,
}

/// The length of an array and the index it was read at.
#[derive(Debug, Clone, PartialEq)]
pub struct IndexErrorDetail {
    pub array_length: usize,
    pub called_with: usize,
}

impl From<ImmixError> for EvalError {
    fn from(value: ImmixError) -> (res: Self) {
        EvalError::MemoryError(value)
    }
}

impl vstd::std_specs::convert::FromSpecImpl<ImmixError> for EvalError {
    open spec fn obeys_from_spec() -> bool {
        true
    }

    open spec fn from_spec(v: ImmixError) -> EvalError {
        EvalError::MemoryError(v)
    }
}

} // verus!
