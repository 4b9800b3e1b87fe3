//! Diagnostics: translating a source byte offset to a 1-based line
//! number by counting the newline bytes that stand before it, and the
//! user-visible error message for each rejection.
use vstd::prelude::*;

verus! {

use vstd::string::{StrSliceExecFns, StringExecFns, StringSliceAdditionalSpecFns};

use crate::compile::base_name;
use crate::error::{CompilerError, ErrorV};
use crate::render::{dec_text, push_dec};

/// How many newline bytes a byte sequence holds.
pub open spec fn newline_count(bytes: Seq<u8>) -> int
    decreases bytes.len(),
{
    if bytes.len() == 0 {
        0
    } else {
        newline_count(bytes.drop_last()) + (if bytes.last() == 10 {
            1int
        } else {
            0int
        })
    }
}

/// The 1-based line number of a byte offset: one more than the number
/// of newline bytes before it; nothing when the offset lies past the
/// source's end.
pub open spec fn spec_line_number(bytes: Seq<u8>, byte_index: int) -> Option<int> {
    if 0 <= byte_index <= bytes.len() {
        Some(1 + newline_count(bytes.take(byte_index)))
    } else {
        None
    }
}

/// Translates a byte offset in the source to the 1-based number of
/// the line it falls in, counting newline bytes before the offset, or
/// nothing when the offset lies past the source's end.
pub fn find_line_number(source: &str, byte_index: usize) -> (r: Option<usize>)
    requires
        byte_index < usize::MAX,
    ensures
        match r {
            Some(n) => spec_line_number(source.spec_bytes(), byte_index as int) == Some(n as int),
            None => spec_line_number(source.spec_bytes(), byte_index as int) is None,
        },
{
    let bytes = source.as_bytes_vec();
    let total = bytes.len();
    if byte_index > total {
        return None;
    }
    let mut count: usize = 0;
    let mut i: usize = 0;
    proof {
        assert(bytes@.take(0) =~= Seq::<u8>::empty());
    }
    #[verifier::loop_isolation(false)]
    while i < byte_index
        invariant
            0 <= i <= byte_index,
            byte_index <= total,
            total == bytes@.len(),
            bytes@ == source.spec_bytes(),
            count == newline_count(bytes@.take(i as int)),
            count <= i,
        decreases byte_index - i,
    {
        proof {
            assert(bytes@.take(i + 1).drop_last() =~= bytes@.take(i as int));
            assert(bytes@.take(i + 1).last() == bytes@[i as int]);
        }
        if bytes[i] == 10 {
            count += 1;
        }
        i += 1;
    }
    Some(count + 1)
}

/// The textual form of an error's kind, as the diagnostic prints it.
pub open spec fn kind_text(e: ErrorV) -> Seq<char> {
    match e {
        ErrorV::UndeclaredVariable(_, _) => "UndeclaredVariable"@,
        ErrorV::UndeclaredProcedure(_, _) => "UndeclaredProcedure"@,
        ErrorV::IncorrectUseOfVariable(_, _) => "IncorrectUseOfVariable"@,
        ErrorV::IndexOutOfBounds(_, _) => "IndexOutOfBounds"@,
        ErrorV::ArrayUsedAsIndex(_, _) => "ArrayUsedAsIndex"@,
        ErrorV::WrongArgumentType(_, _) => "WrongArgumentType"@,
        ErrorV::DuplicateVariableDeclaration(_, _) => "DuplicateVariableDeclaration"@,
        ErrorV::DuplicateProcedureDeclaration(_, _) => "DuplicateProcedureDeclaration"@,
        ErrorV::RecursiveProcedureCall(_, _) => "RecursiveProcedureCall"@,
        ErrorV::WrongNumberOfArguments(_, _) => "WrongNumberOfArguments"@,
    }
}

/// Whether the diagnostic names the variable alone, in backticks; the
/// other kinds print the whole error.
pub open spec fn names_variable(e: ErrorV) -> bool {
    match e {
        ErrorV::UndeclaredVariable(_, _) => true,
        ErrorV::IncorrectUseOfVariable(_, _) => true,
        ErrorV::IndexOutOfBounds(_, _) => true,
        ErrorV::ArrayUsedAsIndex(_, _) => true,
        ErrorV::WrongArgumentType(_, _) => true,
        ErrorV::DuplicateVariableDeclaration(_, _) => true,
        _ => false,
    }
}

/// The user-visible message for a rejection, with the 1-based source
/// line: the un-suffixed variable in backticks for the variable
/// errors, the spelled-out error for the rest.
pub open spec fn message_text(e: ErrorV, line_no: int) -> Seq<char> {
    if names_variable(e) {
        "ERROR: `"@ + base_name(crate::error::view_error_name(e)) + "` line: "@ + dec_text(
            line_no,
        )
    } else {
        "ERROR: "@ + kind_text(e) + "(\""@ + crate::error::view_error_name(e) + "\", "@
            + dec_text(crate::error::view_error_byte(e) as int) + ") line: "@ + dec_text(line_no)
    }
}

/// Builds the user-visible message for an error at a source line.
pub fn error_message(error: &CompilerError, line_no: usize) -> (r: String)
    ensures
        r@ == message_text(error@, line_no as int),
{
    let name = match error {
        CompilerError::UndeclaredVariable(n, _) => n,
        CompilerError::UndeclaredProcedure(n, _) => n,
        CompilerError::IncorrectUseOfVariable(n, _) => n,
        CompilerError::IndexOutOfBounds(n, _) => n,
        CompilerError::ArrayUsedAsIndex(n, _) => n,
        CompilerError::WrongArgumentType(n, _) => n,
        CompilerError::DuplicateVariableDeclaration(n, _) => n,
        CompilerError::DuplicateProcedureDeclaration(n, _) => n,
        CompilerError::RecursiveProcedureCall(n, _) => n,
        CompilerError::WrongNumberOfArguments(n, _) => n,
    };
    let named = match error {
        CompilerError::UndeclaredVariable(_, _) => true,
        CompilerError::IncorrectUseOfVariable(_, _) => true,
        CompilerError::IndexOutOfBounds(_, _) => true,
        CompilerError::ArrayUsedAsIndex(_, _) => true,
        CompilerError::WrongArgumentType(_, _) => true,
        CompilerError::DuplicateVariableDeclaration(_, _) => true,
        _ => false,
    };
    if named {
        let mut r = String::from_str("ERROR: `");
        let base = crate::names::base_of(name);
        r.append(base.as_str());
        r.append("` line: ");
        push_dec(&mut r, line_no as u128);
        proof {
            assert(r@ =~= message_text(error@, line_no as int));
        }
        r
    } else {
        let mut r = String::from_str("ERROR: ");
        match error {
            CompilerError::UndeclaredProcedure(_, _) => r.append("UndeclaredProcedure"),
            CompilerError::DuplicateProcedureDeclaration(_, _) => r.append(
                "DuplicateProcedureDeclaration",
            ),
            CompilerError::RecursiveProcedureCall(_, _) => r.append("RecursiveProcedureCall"),
            CompilerError::WrongNumberOfArguments(_, _) => r.append("WrongNumberOfArguments"),
            CompilerError::UndeclaredVariable(_, _) => r.append("UndeclaredVariable"),
            CompilerError::IncorrectUseOfVariable(_, _) => r.append("IncorrectUseOfVariable"),
            CompilerError::IndexOutOfBounds(_, _) => r.append("IndexOutOfBounds"),
            CompilerError::ArrayUsedAsIndex(_, _) => r.append("ArrayUsedAsIndex"),
            CompilerError::WrongArgumentType(_, _) => r.append("WrongArgumentType"),
            CompilerError::DuplicateVariableDeclaration(_, _) => r.append(
                "DuplicateVariableDeclaration",
            ),
        }
        r.append("(\"");
        r.append(name.as_str());
        r.append("\", ");
        let byte = error.get_byte();
        push_dec(&mut r, byte as u128);
        r.append(") line: ");
        push_dec(&mut r, line_no as u128);
        proof {
            assert(r@ =~= message_text(error@, line_no as int));
        }
        r
    }
}

} // verus!
