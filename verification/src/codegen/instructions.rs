//! The fragments of WebAssembly text that the emitter puts together.

use crate::text::{append_decimal, append_digits, debug_string, debug_text, decimal_digits, decimal_text};
use vstd::prelude::*;
use vstd::string::StringExecFns;

verus! {

/// The type of a parameter or of the result of a function. Only 32-bit integers exist.
#[derive(Debug, Copy, Clone, PartialEq, Eq, Structural)]
pub enum Types {
    /// The parameter with the given index.
    I32param(usize),
    I32result,
}

/// An instruction.
#[derive(Debug, Copy, Clone, PartialEq, Eq, Structural)]
pub enum Opcodes {
    /// Gets a local variable.
    GetLocal,
    /// Adds two 32-bit integers. The text leaves the instruction open for its operands.
    Add,
    /// Subtracts two 32-bit integers. The text leaves the instruction open for its operands.
    Subtract,
    /// Loads 4 bytes of linear memory as a 32-bit integer.
    Load,
    /// Stores a 32-bit integer into linear memory: the address, then the value.
    Store(i32, i32),
    /// Pushes a constant.
    Const(i32),
    /// Drops the value on top of the stack.
    Drop,
}

/// A data segment: the bytes of `data`, placed in linear memory at `location`.
#[derive(Debug, PartialEq)]
pub struct OpData {
    pub location: Opcodes,
    pub data: String,
}

/// An [`OpData`] with its bytes as a sequence of characters.
pub struct OpDataView {
    pub location: Opcodes,
    pub data: Seq<char>,
}

impl View for OpData {
    type V = OpDataView;

    open spec fn view(&self) -> OpDataView {
        OpDataView { location: self.location, data: self.data@ }
    }
}

/// A function that the host provides.
#[derive(Debug, Copy, Clone, PartialEq, Eq, Structural)]
pub enum WASIImports {
    /// The write call of WASI.
    FDWrite,
}

/// A call of a host function.
#[derive(Debug, Copy, Clone, PartialEq, Eq, Structural)]
pub enum SysCalls {
    /// Writes to a file: the file descriptor, the address of the I/O vectors, their number,
    /// and the address that receives the number of bytes written.
    Write(Opcodes, Opcodes, Opcodes, Opcodes),
}

/// The text that pushes the constant `value`.
pub open spec fn const_text(value: i32) -> Seq<char> {
    "(i32.const "@ + decimal_text(value as int) + ")"@
}

/// The text of a data segment at `location` whose bytes are written as `quoted`.
pub open spec fn data_segment_text(location: Opcodes, quoted: Seq<char>) -> Seq<char> {
    "(data "@ + location.text() + " "@ + quoted + ")"@
}

impl Types {
    /// The text of this type.
    pub open spec fn text(self) -> Seq<char> {
        match self {
            Types::I32param(name) => "(param $p"@ + decimal_digits(name as nat) + " i32)"@,
            Types::I32result => "(result i32)"@,
        }
    }

    /// The text of this type.
    pub fn to_string(&self) -> (text: String)
        ensures
            text@ == self.text(),
    {
        match self {
            Types::I32param(name) => {
                let mut text = String::from_str("(param $p");
                append_digits(&mut text, *name as u64);
                text.append(" i32)");
                text
            },
            Types::I32result => String::from_str("(result i32)"),
        }
    }
}

impl Opcodes {
    /// The text of this instruction.
    pub open spec fn text(self) -> Seq<char> {
        match self {
            Opcodes::GetLocal => "(get_local)"@,
            Opcodes::Add => "(i32.add"@,
            Opcodes::Subtract => "(i32.sub"@,
            Opcodes::Load => "(i32.load32_s)"@,
            Opcodes::Store(address, value) => "(i32.store "@ + const_text(address) + " "@
                + const_text(value) + ")"@,
            Opcodes::Const(constant) => const_text(constant),
            Opcodes::Drop => "drop"@,
        }
    }

    /// The text of this instruction.
    pub fn to_string(&self) -> (text: String)
        ensures
            text@ == self.text(),
    {
        match self {
            Opcodes::GetLocal => String::from_str("(get_local)"),
            Opcodes::Add => String::from_str("(i32.add"),
            Opcodes::Subtract => String::from_str("(i32.sub"),
            Opcodes::Load => String::from_str("(i32.load32_s)"),
            Opcodes::Store(address, value) => {
                let mut text = String::from_str("(i32.store ");
                append_const(&mut text, *address);
                text.append(" ");
                append_const(&mut text, *value);
                text.append(")");
                text
            },
            Opcodes::Const(constant) => {
                let mut text = String::new();
                append_const(&mut text, *constant);
                assert(Seq::<char>::empty() + const_text(*constant) == const_text(*constant));
                text
            },
            Opcodes::Drop => String::from_str("drop"),
        }
    }
}

/// Appends the text that pushes the constant `value`.
fn append_const(text: &mut String, value: i32)
    ensures
        final(text)@ == old(text)@ + const_text(value),
{
    text.append("(i32.const ");
    append_decimal(text, value);
    text.append(")");
    assert(old(text)@ + "(i32.const "@ + decimal_text(value as int) + ")"@ == old(text)@ + (
    "(i32.const "@ + decimal_text(value as int) + ")"@));
}

impl SysCalls {
    /// The text of this call.
    pub open spec fn text(self) -> Seq<char> {
        match self {
            SysCalls::Write(file_descriptor, iov_ptr, iov_len, num_written) => "(call $fd_write "@
                + file_descriptor.text() + " "@ + iov_ptr.text() + " "@ + iov_len.text() + " "@
                + num_written.text() + ")"@,
        }
    }

    /// The text of this call.
    pub fn to_string(&self) -> (text: String)
        ensures
            text@ == self.text(),
    {
        match self {
            SysCalls::Write(file_descriptor, iov_ptr, iov_len, num_written) => {
                let mut text = String::from_str("(call $fd_write ");
                text.append(file_descriptor.to_string().as_str());
                text.append(" ");
                text.append(iov_ptr.to_string().as_str());
                text.append(" ");
                text.append(iov_len.to_string().as_str());
                text.append(" ");
                text.append(num_written.to_string().as_str());
                text.append(")");
                text
            },
        }
    }
}

impl WASIImports {
    /// The text that declares this import.
    pub open spec fn text(self) -> Seq<char> {
        match self {
            WASIImports::FDWrite =>
                "(import \"wasi_unstable\" \"fd_write\" (func $fd_write (param i32 i32 i32 i32) "@
                + Types::I32result.text() + "))"@,
        }
    }

    /// The text that declares this import.
    pub fn to_string(&self) -> (text: String)
        ensures
            text@ == self.text(),
    {
        match self {
            WASIImports::FDWrite => {
                let mut text = String::from_str(
                    "(import \"wasi_unstable\" \"fd_write\" (func $fd_write (param i32 i32 i32 i32) ",
                );
                text.append(Types::I32result.to_string().as_str());
                text.append("))");
                text
            },
        }
    }
}

impl OpDataView {
    /// The text of this data segment: its bytes are written as `{:?}` formats them.
    pub open spec fn text(self) -> Seq<char> {
        data_segment_text(self.location, debug_text(self.data))
    }
}

impl OpData {
    /// The text of this data segment.
    pub fn to_string(&self) -> (text: String)
        ensures
            text@ == self@.text(),
    {
        let quoted = debug_string(&self.data);
        data_segment(&self.location, quoted.as_str())
    }
}

/// The text of a data segment at `location` whose bytes are written as `quoted`.
pub fn data_segment(location: &Opcodes, quoted: &str) -> (text: String)
    ensures
        text@ == data_segment_text(*location, quoted@),
{
    let mut text = String::from_str("(data ");
    text.append(location.to_string().as_str());
    text.append(" ");
    text.append(quoted);
    text.append(")");
    text
}

} // verus!
