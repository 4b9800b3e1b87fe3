//! Compile-time errors. Each carries the offending name and the source
//! byte offset at which it was noticed; any of them aborts compilation.
use vstd::prelude::*;

verus! {

#[derive(Debug)]
pub enum CompilerError {
    UndeclaredVariable(String, usize),
    UndeclaredProcedure(String, usize),
    IncorrectUseOfVariable(String, usize),
    IndexOutOfBounds(String, usize),
    ArrayUsedAsIndex(String, usize),
    WrongArgumentType(String, usize),
    DuplicateVariableDeclaration(String, usize),
    DuplicateProcedureDeclaration(String, usize),
    RecursiveProcedureCall(String, usize),
    WrongNumberOfArguments(String, usize),
}

/// Mathematical view of a `CompilerError`: the offending name as a
/// character sequence, with the byte offset.
pub enum ErrorV {
    UndeclaredVariable(Seq<char>, usize),
    UndeclaredProcedure(Seq<char>, usize),
    IncorrectUseOfVariable(Seq<char>, usize),
    IndexOutOfBounds(Seq<char>, usize),
    ArrayUsedAsIndex(Seq<char>, usize),
    WrongArgumentType(Seq<char>, usize),
    DuplicateVariableDeclaration(Seq<char>, usize),
    DuplicateProcedureDeclaration(Seq<char>, usize),
    RecursiveProcedureCall(Seq<char>, usize),
    WrongNumberOfArguments(Seq<char>, usize),
}

impl View for CompilerError {
    type V = ErrorV;

    open spec fn view(&self) -> ErrorV {
        match self {
            CompilerError::UndeclaredVariable(n, b) => ErrorV::UndeclaredVariable(n@, *b),
            CompilerError::UndeclaredProcedure(n, b) => ErrorV::UndeclaredProcedure(n@, *b),
            CompilerError::IncorrectUseOfVariable(n, b) => ErrorV::IncorrectUseOfVariable(n@, *b),
            CompilerError::IndexOutOfBounds(n, b) => ErrorV::IndexOutOfBounds(n@, *b),
            CompilerError::ArrayUsedAsIndex(n, b) => ErrorV::ArrayUsedAsIndex(n@, *b),
            CompilerError::WrongArgumentType(n, b) => ErrorV::WrongArgumentType(n@, *b),
            CompilerError::DuplicateVariableDeclaration(n, b) => ErrorV::DuplicateVariableDeclaration(
                n@,
                *b,
            ),
            CompilerError::DuplicateProcedureDeclaration(n, b) => ErrorV::DuplicateProcedureDeclaration(
                n@,
                *b,
            ),
            CompilerError::RecursiveProcedureCall(n, b) => ErrorV::RecursiveProcedureCall(n@, *b),
            CompilerError::WrongNumberOfArguments(n, b) => ErrorV::WrongNumberOfArguments(n@, *b),
        }
    }
}

/// The offending name carried by an error view.
pub open spec fn view_error_name(e: ErrorV) -> Seq<char> {
    match e {
        ErrorV::UndeclaredVariable(n, _) => n,
        ErrorV::UndeclaredProcedure(n, _) => n,
        ErrorV::IncorrectUseOfVariable(n, _) => n,
        ErrorV::IndexOutOfBounds(n, _) => n,
        ErrorV::ArrayUsedAsIndex(n, _) => n,
        ErrorV::WrongArgumentType(n, _) => n,
        ErrorV::DuplicateVariableDeclaration(n, _) => n,
        ErrorV::DuplicateProcedureDeclaration(n, _) => n,
        ErrorV::RecursiveProcedureCall(n, _) => n,
        ErrorV::WrongNumberOfArguments(n, _) => n,
    }
}

/// The byte offset carried by an error view.
pub open spec fn view_error_byte(e: ErrorV) -> usize {
    match e {
        ErrorV::UndeclaredVariable(_, b) => b,
        ErrorV::UndeclaredProcedure(_, b) => b,
        ErrorV::IncorrectUseOfVariable(_, b) => b,
        ErrorV::IndexOutOfBounds(_, b) => b,
        ErrorV::ArrayUsedAsIndex(_, b) => b,
        ErrorV::WrongArgumentType(_, b) => b,
        ErrorV::DuplicateVariableDeclaration(_, b) => b,
        ErrorV::DuplicateProcedureDeclaration(_, b) => b,
        ErrorV::RecursiveProcedureCall(_, b) => b,
        ErrorV::WrongNumberOfArguments(_, b) => b,
    }
}

/// The byte offset carried by an error, whichever kind it is.
pub open spec fn spec_error_byte(e: CompilerError) -> usize {
    match e {
        CompilerError::UndeclaredVariable(_, b) => b,
        CompilerError::UndeclaredProcedure(_, b) => b,
        CompilerError::IncorrectUseOfVariable(_, b) => b,
        CompilerError::IndexOutOfBounds(_, b) => b,
        CompilerError::ArrayUsedAsIndex(_, b) => b,
        CompilerError::WrongArgumentType(_, b) => b,
        CompilerError::DuplicateVariableDeclaration(_, b) => b,
        CompilerError::DuplicateProcedureDeclaration(_, b) => b,
        CompilerError::RecursiveProcedureCall(_, b) => b,
        CompilerError::WrongNumberOfArguments(_, b) => b,
    }
}

impl CompilerError {
    /// The source byte offset at which the error was noticed.
    pub fn get_byte(&self) -> (b: usize)
        ensures
            b == spec_error_byte(*self),
    {
        match self {
            CompilerError::UndeclaredVariable(_, byte)
            | CompilerError::UndeclaredProcedure(_, byte)
            | CompilerError::IncorrectUseOfVariable(_, byte)
            | CompilerError::IndexOutOfBounds(_, byte)
            | CompilerError::ArrayUsedAsIndex(_, byte)
            | CompilerError::WrongArgumentType(_, byte)
            | CompilerError::DuplicateVariableDeclaration(_, byte)
            | CompilerError::DuplicateProcedureDeclaration(_, byte)
            | CompilerError::RecursiveProcedureCall(_, byte)
            | CompilerError::WrongNumberOfArguments(_, byte) => *byte,
        }
    }
}

} // verus!
