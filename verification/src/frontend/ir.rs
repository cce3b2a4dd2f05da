//! The operations of the intermediate code.

use vstd::prelude::*;

verus! {

/// A place in a chunk of code or in its table of constants, or a source line.
pub type Offset = usize;

/// An arithmetic operation on two operands.
#[derive(Debug, Copy, Clone, PartialEq, Eq, Structural)]
pub enum BinaryOp {
    Add,
    Subtract,
    Multiply,
    Divide,
}

/// One operation of the intermediate code.
#[derive(Debug, Copy, Clone, PartialEq, Eq, Structural)]
pub enum OpCode {
    /// Pushes the constant at the given place in the table of constants.
    OpConstant(Offset),
    OpNegate,
    BinaryOperation(BinaryOp),
}

} // verus!
