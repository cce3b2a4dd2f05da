//! The listing of intermediate code: what stands on the line of one operation.

use crate::frontend::ir::{BinaryOp, Offset, OpCode};
use crate::text::{append_digits, decimal_digits};
use vstd::prelude::*;
use vstd::string::StringExecFns;

verus! {

/// The name under which `instruction` is listed.
pub open spec fn instruction_name_text(instruction: OpCode) -> Seq<char> {
    match instruction {
        OpCode::OpConstant(_) => "OpConstant"@,
        OpCode::OpNegate => "OpNegate"@,
        OpCode::BinaryOperation(BinaryOp::Add) => "OpAdd"@,
        OpCode::BinaryOperation(BinaryOp::Subtract) => "OpSubtract"@,
        OpCode::BinaryOperation(BinaryOp::Multiply) => "OpMultiply"@,
        OpCode::BinaryOperation(BinaryOp::Divide) => "OpDivide"@,
    }
}

/// What a listing shows for the source line of the operation at `index`, where `lines` holds
/// the source line of each operation: a bar where the line is that of the operation before,
/// else the line's number and a space.
pub open spec fn line_column_text(lines: Seq<Offset>, index: int) -> Seq<char> {
    if index > 0 && lines[index] == lines[index - 1] {
        "  | "@
    } else {
        decimal_digits(lines[index] as nat) + " "@
    }
}

/// The name under which `instruction` is listed.
pub fn instruction_name(instruction: OpCode) -> (name: String)
    ensures
        name@ == instruction_name_text(instruction),
{
    match instruction {
        OpCode::OpConstant(_) => String::from_str("OpConstant"),
        OpCode::OpNegate => String::from_str("OpNegate"),
        OpCode::BinaryOperation(operator) => match operator {
            BinaryOp::Add => String::from_str("OpAdd"),
            BinaryOp::Subtract => String::from_str("OpSubtract"),
            BinaryOp::Multiply => String::from_str("OpMultiply"),
            BinaryOp::Divide => String::from_str("OpDivide"),
        },
    }
}

/// What a listing shows for the source line of the operation at `index`.
pub fn line_column(lines: &Vec<Offset>, index: usize) -> (text: String)
    requires
        index < lines.len(),
    ensures
        text@ == line_column_text(lines@, index as int),
{
    if index > 0 && lines[index] == lines[index - 1] {
        String::from_str("  | ")
    } else {
        let mut text = String::new();
        append_digits(&mut text, lines[index] as u64);
        text.append(" ");
        assert(Seq::<char>::empty() + decimal_digits(lines[index as int] as nat) + " "@
            == decimal_digits(lines[index as int] as nat) + " "@);
        text
    }
}

} // verus!
