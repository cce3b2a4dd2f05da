//! The module text that a program stands for.

use crate::codegen::instructions::{
    const_text, OpDataView, Opcodes, SysCalls, Types, WASIImports,
};
use crate::frontend::ast::{ConstantView, NodeView};
use crate::frontend::scanner::LexemeView;
use crate::text::{concatenated, joined};
use vstd::prelude::*;

verus! {

/// The address in linear memory at which the bytes of a string are placed.
pub const STRING_ADDRESS: i32 = 8;

/// The line that opens a module.
pub open spec fn module_open() -> Seq<char> {
    "(module "@
}

/// The line that closes a module, a function or an instruction that was left open.
pub open spec fn close() -> Seq<char> {
    ")"@
}

/// The line that declares one page of linear memory and exports it.
pub open spec fn memory_text() -> Seq<char> {
    "(memory 1) (export \"memory\" (memory 0))"@
}

/// The line that opens the entry function.
pub open spec fn main_open() -> Seq<char> {
    "(func $main "@
}

/// The line that exports the entry function as the start of the process.
pub open spec fn export_text() -> Seq<char> {
    "(export \"_start\" (func $main))"@
}

/// The lines that declare `count` parameters, one for each index below `count`.
pub open spec fn parameters(count: nat) -> Seq<Seq<char>> {
    Seq::new(count, |i: int| Types::I32param(i as usize).text())
}

/// The lines that write one value to standard output, before the value's own lines: the
/// pointer and the length of the I/O vector are stored, and the host is called with file
/// descriptor 1, the vector at address 0, one vector, and the count written to address 20.
pub open spec fn print_prelude() -> Seq<Seq<char>> {
    seq![
        Opcodes::Store(0, 8).text(),
        Opcodes::Store(4, 12).text(),
        SysCalls::Write(
            Opcodes::Const(1),
            Opcodes::Const(0),
            Opcodes::Const(1),
            Opcodes::Const(20),
        ).text(),
    ]
}

/// Whether a list with the head `head` emits anything: only `+`, `-` and `print` do.
pub open spec fn is_call(head: NodeView) -> bool {
    head matches NodeView::Keyword(token) && (token is Plus || token is Minus || token is Print)
}

/// The lines of instructions that `node` emits where it stands. A list emits the call that
/// its head names, the entry function emits itself, an integer constant pushes its value.
/// Nothing else emits an instruction.
pub open spec fn instructions(node: NodeView) -> Seq<Seq<char>>
    decreases node,
{
    match node {
        NodeView::List { head, rest } => match *head {
            NodeView::Keyword(LexemeView::Plus) => seq![Opcodes::Add.text()] + all_instructions(
                rest,
            ) + seq![close()],
            NodeView::Keyword(LexemeView::Minus) => seq![Opcodes::Subtract.text()]
                + all_instructions(rest) + seq![close()],
            NodeView::Keyword(LexemeView::Print) => print_instructions(rest),
            _ => Seq::empty(),
        },
        NodeView::Main { args, body } => seq![main_open()] + parameters(args.len())
            + all_instructions(body) + seq![close()],
        NodeView::Constant(ConstantView::IntegerLiteral(value)) => seq![const_text(value)],
        _ => Seq::empty(),
    }
}

/// The lines that `nodes` emit, one node after the other.
pub open spec fn all_instructions(nodes: Seq<NodeView>) -> Seq<Seq<char>>
    decreases nodes,
{
    if nodes.len() == 0 {
        Seq::empty()
    } else {
        all_instructions(nodes.drop_last()) + instructions(nodes.last())
    }
}

/// The lines that print `nodes`, one node after the other: for each the prelude, the node's
/// own lines, and a drop of the result.
pub open spec fn print_instructions(nodes: Seq<NodeView>) -> Seq<Seq<char>>
    decreases nodes,
{
    if nodes.len() == 0 {
        Seq::empty()
    } else {
        print_instructions(nodes.drop_last()) + print_prelude() + instructions(nodes.last())
            + seq![Opcodes::Drop.text()]
    }
}

/// The bytes that a string constant places in memory: its characters, and a newline after
/// them where `newline` asks for one.
pub open spec fn string_bytes(text: Seq<char>, newline: bool) -> Seq<char> {
    if newline {
        text.push('\n')
    } else {
        text
    }
}

/// The data segments that `node` asks for, in the order in which the emitter meets them: one
/// for each string constant that emits.
pub open spec fn segments(node: NodeView, newline: bool) -> Seq<OpDataView>
    decreases node,
{
    match node {
        NodeView::List { head, rest } => if is_call(*head) {
            all_segments(rest, newline)
        } else {
            Seq::empty()
        },
        NodeView::Main { args, body } => all_segments(body, newline),
        NodeView::Constant(ConstantView::StringLiteral(text)) => seq![
            OpDataView {
                location: Opcodes::Const(STRING_ADDRESS),
                data: string_bytes(text, newline),
            },
        ],
        _ => Seq::empty(),
    }
}

/// The data segments that `nodes` ask for, one node after the other.
pub open spec fn all_segments(nodes: Seq<NodeView>, newline: bool) -> Seq<OpDataView>
    decreases nodes,
{
    if nodes.len() == 0 {
        Seq::empty()
    } else {
        all_segments(nodes.drop_last(), newline) + segments(nodes.last(), newline)
    }
}

/// Whether `node` emits a `print`, and so needs the write call of the host.
pub open spec fn needs_write(node: NodeView) -> bool
    decreases node,
{
    match node {
        NodeView::List { head, rest } => match *head {
            NodeView::Keyword(LexemeView::Print) => true,
            NodeView::Keyword(LexemeView::Plus) => any_needs_write(rest),
            NodeView::Keyword(LexemeView::Minus) => any_needs_write(rest),
            _ => false,
        },
        NodeView::Main { args, body } => any_needs_write(body),
        _ => false,
    }
}

/// Whether one of `nodes` emits a `print`.
pub open spec fn any_needs_write(nodes: Seq<NodeView>) -> bool
    decreases nodes,
{
    if nodes.len() == 0 {
        false
    } else {
        any_needs_write(nodes.drop_last()) || needs_write(nodes.last())
    }
}

/// The imports after an emission that needs the write call or not: the call is declared
/// once, however often it is needed.
pub open spec fn with_write(imports: Seq<WASIImports>, needed: bool) -> Seq<WASIImports> {
    if needed && !imports.contains(WASIImports::FDWrite) {
        imports.push(WASIImports::FDWrite)
    } else {
        imports
    }
}

/// The texts of `imports`, in order.
pub open spec fn import_texts(imports: Seq<WASIImports>) -> Seq<Seq<char>> {
    imports.map_values(|import: WASIImports| import.text())
}

/// The texts of `data`, in order.
pub open spec fn data_texts(data: Seq<OpDataView>) -> Seq<Seq<char>> {
    data.map_values(|segment: OpDataView| segment.text())
}

/// The lines of a module, in order: the opening, the imports on one line, the memory, the
/// data segments on one line, the body, the export and the closing.
pub open spec fn module_lines(
    imports: Seq<WASIImports>,
    data: Seq<OpDataView>,
    body: Seq<Seq<char>>,
) -> Seq<Seq<char>> {
    seq![
        module_open(),
        concatenated(import_texts(imports)),
        memory_text(),
        concatenated(data_texts(data)),
    ] + body + seq![export_text(), close()]
}

/// The separator between the lines of a module: a newline and a space.
pub open spec fn line_break() -> Seq<char> {
    "\n "@
}

/// The text of a module: its lines, each on a line of its own.
pub open spec fn module_text(
    imports: Seq<WASIImports>,
    data: Seq<OpDataView>,
    body: Seq<Seq<char>>,
) -> Seq<char> {
    joined(module_lines(imports, data, body), line_break())
}

/// The text of the module of the program `nodes`, where nothing else asks for an import or
/// a data segment.
pub open spec fn program_text(nodes: Seq<NodeView>, newline: bool) -> Seq<char> {
    module_text(
        with_write(Seq::empty(), any_needs_write(nodes)),
        all_segments(nodes, newline),
        all_instructions(nodes),
    )
}

} // verus!
