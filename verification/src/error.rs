//! The errors of compilation and of execution.

use vstd::prelude::*;

verus! {

/// Why compilation stopped. Compilation stops at the first error.
#[derive(Clone, Copy, Debug, PartialEq, Eq, Structural)]
pub enum CompileError {
    /// A type name has no entry in the type registry.
    UnknownType,
    /// An identifier has no binding in the symbol table.
    UndefinedVariable,
    /// The callee of a call has no entry in the function table.
    UndefinedFunction,
    /// The first element of a call is not an identifier.
    InvalidCallTarget,
    /// An argument does not have the type of its parameter, or the number of
    /// arguments is not the number of parameters.
    ArgumentTypeMismatch,
    /// A binary operator does not accept the types of its operands.
    TypeMismatch,
    /// The condition of an `if` is not a boolean.
    ConditionNotBoolean,
    /// The node or operator has no lowering.
    Unsupported,
}

/// Why the reference machine stopped without a result.
#[derive(Clone, Copy, Debug, PartialEq, Eq, Structural)]
pub enum ExecError {
    /// The step budget ran out.
    OutOfSteps,
    /// Control ran past the last instruction of a function.
    MissingReturn,
    /// An instruction names a slot that the function does not have.
    BadOperand,
    /// A jump names a label that the function never places.
    BadLabel,
    /// A call names a function that the context does not have, or passes a
    /// number of arguments other than the number of its parameters.
    BadCall,
}

/// Why a program gave no result.
#[derive(Clone, Copy, Debug, PartialEq, Eq, Structural)]
pub enum Error {
    Compile(CompileError),
    Exec(ExecError),
}

} // verus!
