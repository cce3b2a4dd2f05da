use lispwasm::codegen::emitter::Emitter;
use lispwasm::codegen::instructions::{
    data_segment, OpData, Opcodes, SysCalls, Types, WASIImports,
};
use lispwasm::frontend::ast::{
    ConstantLiteral, FunctionDetails, KeywordDetails, ListDetails, MainDetails, MapItem, Node,
    VariableInformation,
};
use lispwasm::frontend::parser::Parser;
use lispwasm::frontend::scanner::Lexeme;

const IMPORT: &str =
    "(import \"wasi_unstable\" \"fd_write\" (func $fd_write (param i32 i32 i32 i32) (result i32)))";
const MEMORY: &str = "(memory 1) (export \"memory\" (memory 0))";
const EXPORT: &str = "(export \"_start\" (func $main))";
const STORE_POINTER: &str = "(i32.store (i32.const 0) (i32.const 8))";
const STORE_LENGTH: &str = "(i32.store (i32.const 4) (i32.const 12))";
const WRITE: &str = "(call $fd_write (i32.const 1) (i32.const 0) (i32.const 1) (i32.const 20))";

fn integer(value: i32) -> Node {
    Node::Constant(ConstantLiteral::IntegerLiteral(value))
}

fn string(text: &str) -> Node {
    Node::Constant(ConstantLiteral::StringLiteral(text.to_string()))
}

fn keyword(token: Lexeme) -> Node {
    Node::Keyword(KeywordDetails { token })
}

fn list(head: Node, rest: Vec<Node>) -> Node {
    Node::List(ListDetails { head: Box::new(head), rest })
}

fn main_of(args: Vec<Node>, body: Vec<Node>) -> Node {
    Node::Main(MainDetails { args, body })
}

fn hello_world() -> Vec<Node> {
    vec![main_of(vec![], vec![list(keyword(Lexeme::Print), vec![string("Hello world")])])]
}

fn module(imports: &str, data: &str, body: &[&str]) -> String {
    let mut lines = vec!["(module ", imports, MEMORY, data];
    lines.extend_from_slice(body);
    lines.push(EXPORT);
    lines.push(")");
    lines.join("\n ")
}

fn emit(program: Vec<Node>) -> String {
    Emitter::new().emit(program)
}

#[test]
fn hello_world_declares_what_it_needs() {
    let text = emit(hello_world());
    assert_eq!(text.matches("(import ").count(), 1);
    assert!(text.contains(IMPORT));
    assert_eq!(text.matches("(memory 1)").count(), 1);
    assert!(text.contains(MEMORY));
    assert!(text.contains("(data (i32.const 8) \"Hello world\\n\")"));
    assert!(text.contains("(func $main "));
    assert!(text.contains("(call $fd_write "));
    assert!(text.contains(EXPORT));
    let import = text.find("(import ").unwrap();
    let data = text.find("(data ").unwrap();
    let function = text.find("(func $main ").unwrap();
    let call = text.find("(call $fd_write ").unwrap();
    let export = text.find("(export \"_start\"").unwrap();
    assert!(import < data && data < function && function < call && call < export);
}

#[test]
fn hello_world_is_written_line_by_line() {
    assert_eq!(
        emit(hello_world()),
        module(
            IMPORT,
            "(data (i32.const 8) \"Hello world\\n\")",
            &["(func $main ", STORE_POINTER, STORE_LENGTH, WRITE, "drop", ")"],
        )
    );
}

#[test]
fn the_lines_of_a_module_are_joined_by_a_newline_and_a_space() {
    assert_eq!(
        emit(vec![]),
        "(module \n \n (memory 1) (export \"memory\" (memory 0))\n \n (export \"_start\" (func $main))\n )"
    );
}

#[test]
fn parsed_source_emits_as_the_tree_built_by_hand() {
    let parsed = Parser::new("(defn main [] (print \"Hello world\"))").parse().unwrap();
    assert_eq!(emit(parsed), emit(hello_world()));
}

#[test]
fn emitting_twice_writes_the_same_text() {
    let programs: Vec<fn() -> Vec<Node>> = vec![
        hello_world,
        || vec![],
        || vec![list(keyword(Lexeme::Plus), vec![integer(1), integer(2)])],
        || vec![main_of(vec![Node::Variable("x".to_string())], vec![]), string("a\"b")],
    ];
    for program in programs {
        let first = Emitter::new().emit(program());
        let second = Emitter::new().emit(program());
        assert_eq!(first.as_bytes(), second.as_bytes());
    }
}

#[test]
fn an_addition_is_left_open_for_its_operands() {
    assert_eq!(
        emit(vec![list(keyword(Lexeme::Plus), vec![integer(1), integer(2)])]),
        module("", "", &["(i32.add", "(i32.const 1)", "(i32.const 2)", ")"])
    );
}

#[test]
fn operations_nest_as_the_lists_do() {
    let program = vec![list(
        keyword(Lexeme::Plus),
        vec![
            integer(1),
            list(keyword(Lexeme::Minus), vec![integer(2), integer(-3)]),
            integer(4),
        ],
    )];
    assert_eq!(
        emit(program),
        module(
            "",
            "",
            &[
                "(i32.add",
                "(i32.const 1)",
                "(i32.sub",
                "(i32.const 2)",
                "(i32.const -3)",
                ")",
                "(i32.const 4)",
                ")",
            ],
        )
    );
}

#[test]
fn an_operation_without_operands_is_opened_and_closed() {
    assert_eq!(
        emit(vec![list(keyword(Lexeme::Minus), vec![])]),
        module("", "", &["(i32.sub", ")"])
    );
}

#[test]
fn a_list_whose_head_names_no_call_emits_nothing() {
    let silent = vec![
        list(keyword(Lexeme::And), vec![integer(1), string("lost")]),
        list(keyword(Lexeme::Or), vec![integer(1)]),
        list(Node::Variable("f".to_string()), vec![integer(1)]),
        list(integer(1), vec![integer(2)]),
        list(Node::Null, vec![list(keyword(Lexeme::Print), vec![string("lost")])]),
    ];
    assert_eq!(emit(silent), module("", "", &[]));
}

#[test]
fn only_lists_the_entry_function_and_constants_emit() {
    let silent = vec![
        Node::Null,
        keyword(Lexeme::Plus),
        Node::Variable("x".to_string()),
        Node::Vector(vec![integer(1), string("lost")]),
        Node::Mapping(vec![MapItem { key: "a".to_string(), value: integer(1) }]),
        Node::Def(VariableInformation {
            name: Box::new(Node::Variable("x".to_string())),
            value: Box::new(integer(1)),
        }),
        Node::Function(FunctionDetails {
            name: Box::new(Node::Variable("f".to_string())),
            args: vec![],
            body: vec![list(keyword(Lexeme::Print), vec![string("lost")])],
        }),
    ];
    assert_eq!(emit(silent), module("", "", &[]));
}

#[test]
fn a_constant_at_the_top_emits_where_it_stands() {
    assert_eq!(
        emit(vec![integer(7), string("seven"), integer(-2147483648)]),
        module(
            "",
            "(data (i32.const 8) \"seven\\n\")",
            &["(i32.const 7)", "(i32.const -2147483648)"],
        )
    );
}

#[test]
fn the_entry_function_declares_a_parameter_for_each_argument() {
    let program = vec![main_of(
        vec![Node::Variable("a".to_string()), Node::Null, integer(3)],
        vec![list(keyword(Lexeme::Plus), vec![integer(1)]), integer(9)],
    )];
    assert_eq!(
        emit(program),
        module(
            "",
            "",
            &[
                "(func $main ",
                "(param $p0 i32)",
                "(param $p1 i32)",
                "(param $p2 i32)",
                "(i32.add",
                "(i32.const 1)",
                ")",
                "(i32.const 9)",
                ")",
            ],
        )
    );
}

#[test]
fn each_printed_value_gets_the_prelude_and_a_drop() {
    let program = vec![list(
        keyword(Lexeme::Print),
        vec![string("a"), integer(5), list(keyword(Lexeme::Plus), vec![integer(1)])],
    )];
    assert_eq!(
        emit(program),
        module(
            IMPORT,
            "(data (i32.const 8) \"a\\n\")",
            &[
                STORE_POINTER,
                STORE_LENGTH,
                WRITE,
                "drop",
                STORE_POINTER,
                STORE_LENGTH,
                WRITE,
                "(i32.const 5)",
                "drop",
                STORE_POINTER,
                STORE_LENGTH,
                WRITE,
                "(i32.add",
                "(i32.const 1)",
                ")",
                "drop",
            ],
        )
    );
}

#[test]
fn a_print_without_values_still_needs_the_import() {
    assert_eq!(emit(vec![list(keyword(Lexeme::Print), vec![])]), module(IMPORT, "", &[]));
}

#[test]
fn the_write_call_is_declared_once() {
    let program = vec![
        list(keyword(Lexeme::Print), vec![string("a")]),
        list(keyword(Lexeme::Print), vec![string("b")]),
    ];
    let text = emit(program);
    assert_eq!(text.matches("(import ").count(), 1);
    assert_eq!(
        text,
        module(
            IMPORT,
            "(data (i32.const 8) \"a\\n\")(data (i32.const 8) \"b\\n\")",
            &[
                STORE_POINTER,
                STORE_LENGTH,
                WRITE,
                "drop",
                STORE_POINTER,
                STORE_LENGTH,
                WRITE,
                "drop",
            ],
        )
    );
}

#[test]
fn data_segments_come_in_the_order_in_which_strings_are_met() {
    let program = vec![
        string("first"),
        list(
            keyword(Lexeme::Plus),
            vec![string("second"), list(keyword(Lexeme::Minus), vec![string("third")])],
        ),
        main_of(vec![string("no argument emits")], vec![string("fourth")]),
    ];
    let text = emit(program);
    assert!(text.contains(
        "(data (i32.const 8) \"first\\n\")(data (i32.const 8) \"second\\n\")(data (i32.const 8) \"third\\n\")(data (i32.const 8) \"fourth\\n\")"
    ));
    assert!(!text.contains("no argument emits"));
}

#[test]
fn the_bytes_of_a_string_are_written_escaped() {
    let text = emit(vec![string("say \"hi\"\\\t")]);
    assert!(text.contains("(data (i32.const 8) \"say \\\"hi\\\"\\\\\\t\\n\")"));
}

#[test]
fn the_newline_after_a_string_can_be_left_out() {
    let text = Emitter::with_newline(false).emit(hello_world());
    assert!(text.contains("(data (i32.const 8) \"Hello world\")"));
    let text = Emitter::with_newline(true).emit(hello_world());
    assert!(text.contains("(data (i32.const 8) \"Hello world\\n\")"));
}

#[test]
fn an_emitter_keeps_what_it_has_found() {
    let mut emitter = Emitter::new();
    let first = emitter.emit(hello_world());
    assert_eq!(first, emit(hello_world()));
    let second = emitter.emit(vec![list(keyword(Lexeme::Print), vec![string("again")])]);
    assert_eq!(
        second,
        module(
            IMPORT,
            "(data (i32.const 8) \"Hello world\\n\")(data (i32.const 8) \"again\\n\")",
            &[STORE_POINTER, STORE_LENGTH, WRITE, "drop"],
        )
    );
    let third = emitter.emit(vec![]);
    assert_eq!(
        third,
        module(
            IMPORT,
            "(data (i32.const 8) \"Hello world\\n\")(data (i32.const 8) \"again\\n\")",
            &[],
        )
    );
}

#[test]
fn each_instruction_has_its_text() {
    assert_eq!(Opcodes::GetLocal.to_string(), "(get_local)");
    assert_eq!(Opcodes::Add.to_string(), "(i32.add");
    assert_eq!(Opcodes::Subtract.to_string(), "(i32.sub");
    assert_eq!(Opcodes::Load.to_string(), "(i32.load32_s)");
    assert_eq!(Opcodes::Store(0, 8).to_string(), STORE_POINTER);
    assert_eq!(Opcodes::Store(-1, 2147483647).to_string(), "(i32.store (i32.const -1) (i32.const 2147483647))");
    assert_eq!(Opcodes::Const(42).to_string(), "(i32.const 42)");
    assert_eq!(Opcodes::Drop.to_string(), "drop");
}

#[test]
fn a_constant_is_written_in_decimal() {
    assert_eq!(Opcodes::Const(0).to_string(), "(i32.const 0)");
    assert_eq!(Opcodes::Const(9).to_string(), "(i32.const 9)");
    assert_eq!(Opcodes::Const(10).to_string(), "(i32.const 10)");
    assert_eq!(Opcodes::Const(1002003).to_string(), "(i32.const 1002003)");
    assert_eq!(Opcodes::Const(-5).to_string(), "(i32.const -5)");
    assert_eq!(Opcodes::Const(i32::MAX).to_string(), "(i32.const 2147483647)");
    assert_eq!(Opcodes::Const(i32::MIN).to_string(), "(i32.const -2147483648)");
}

#[test]
fn each_type_has_its_text() {
    assert_eq!(Types::I32param(0).to_string(), "(param $p0 i32)");
    assert_eq!(Types::I32param(12).to_string(), "(param $p12 i32)");
    assert_eq!(
        Types::I32param(usize::MAX).to_string(),
        format!("(param $p{} i32)", usize::MAX)
    );
    assert_eq!(Types::I32result.to_string(), "(result i32)");
}

#[test]
fn a_call_and_an_import_have_their_texts() {
    assert_eq!(
        SysCalls::Write(
            Opcodes::Const(1),
            Opcodes::Const(0),
            Opcodes::Const(1),
            Opcodes::Const(20)
        )
        .to_string(),
        WRITE
    );
    assert_eq!(
        SysCalls::Write(Opcodes::Drop, Opcodes::Load, Opcodes::GetLocal, Opcodes::Const(-1))
            .to_string(),
        "(call $fd_write drop (i32.load32_s) (get_local) (i32.const -1))"
    );
    assert_eq!(WASIImports::FDWrite.to_string(), IMPORT);
}

#[test]
fn a_data_segment_quotes_its_bytes() {
    let segment = OpData { location: Opcodes::Const(8), data: "Hello world\n".to_string() };
    assert_eq!(segment.to_string(), "(data (i32.const 8) \"Hello world\\n\")");
    let segment = OpData { location: Opcodes::Const(16), data: String::new() };
    assert_eq!(segment.to_string(), "(data (i32.const 16) \"\")");
    assert_eq!(data_segment(&Opcodes::Const(8), "\"x\""), "(data (i32.const 8) \"x\")");
    assert_eq!(data_segment(&Opcodes::Drop, "raw"), "(data drop raw)");
}
