use lispwasm::frontend::ast::{
    ConstantLiteral, FunctionDetails, KeywordDetails, ListDetails, MainDetails, MapItem, Node,
};
use lispwasm::frontend::parser::{ParseError, Parser};
use lispwasm::frontend::scanner::{Lexeme, Position, ScanError};

#[test]
fn parse_list() {
    let text = "(+ 1 2)".to_string();
    let parser = Parser::new(&text);

    let tree = Node::List(ListDetails {
        head: Box::from(Node::Keyword(KeywordDetails {
            token: Lexeme::Plus,
        })),
        rest: vec![
            Node::Constant(ConstantLiteral::IntegerLiteral(1 as i32)),
            Node::Constant(ConstantLiteral::IntegerLiteral(2 as i32)),
        ],
    });
    let nodes = parser.parse().unwrap();

    assert_eq!(nodes[0], tree)
}

#[test]
fn parse_nested_list() {
    let text = "(+ 1 (+ 2 3))".to_string();
    let parser = Parser::new(&text);

    let tree = Node::List(ListDetails {
        head: Box::from(Node::Keyword(KeywordDetails {
            token: Lexeme::Plus,
        })),
        rest: vec![
            Node::Constant(ConstantLiteral::IntegerLiteral(1 as i32)),
            Node::List(ListDetails {
                head: Box::from(Node::Keyword(KeywordDetails {
                    token: Lexeme::Plus,
                })),
                rest: vec![
                    Node::Constant(ConstantLiteral::IntegerLiteral(2 as i32)),
                    Node::Constant(ConstantLiteral::IntegerLiteral(3 as i32)),
                ],
            }),
        ],
    });

    let nodes = parser.parse().unwrap();
    assert_eq!(nodes[0], tree)
}

#[test]
fn parse_map() {
    let text = "{:guten 1 :tag 2}".to_string();
    let parser = Parser::new(&text);

    let tree = Node::Mapping(vec![
        MapItem {
            key: "guten".to_string(),
            value: Node::Constant(ConstantLiteral::IntegerLiteral(1 as i32)),
        },
        MapItem {
            key: "tag".to_string(),
            value: Node::Constant(ConstantLiteral::IntegerLiteral(2 as i32)),
        },
    ]);

    let nodes = parser.parse().unwrap();

    assert_eq!(nodes[0], tree)
}

#[test]
fn parse_vector() {
    let text = "[1 2]".to_string();
    let parser = Parser::new(&text);

    let tree = Node::Vector(vec![
        Node::Constant(ConstantLiteral::IntegerLiteral(1 as i32)),
        Node::Constant(ConstantLiteral::IntegerLiteral(2 as i32)),
    ]);

    let nodes = parser.parse().unwrap();

    assert_eq!(nodes[0], tree)
}

#[test]
fn parse_function_definition() {
    let text = "(defn add [x y] (+ x y))".to_string();
    let parser = Parser::new(&text);

    let tree = Node::Function(FunctionDetails {
        name: Box::new(Node::Variable("add".to_owned())),
        args: vec![
            Node::Variable("x".to_owned()),
            Node::Variable("y".to_owned()),
        ],
        body: vec![Node::List(ListDetails {
            head: Box::from(Node::Keyword(KeywordDetails {
                token: Lexeme::Plus,
            })),
            rest: vec![
                Node::Variable("x".to_owned()),
                Node::Variable("y".to_owned()),
            ],
        })],
    });

    let nodes = parser.parse().unwrap();
    assert_eq!(nodes[0], tree)
}

fn parse(text: &str) -> Result<Vec<Node>, ParseError> {
    Parser::new(text).parse()
}

fn at(line: usize, column: usize) -> Position {
    Position { line, column }
}

fn integer(value: i32) -> Node {
    Node::Constant(ConstantLiteral::IntegerLiteral(value))
}

fn variable(name: &str) -> Node {
    Node::Variable(name.to_string())
}

fn keyword(token: Lexeme) -> Node {
    Node::Keyword(KeywordDetails { token })
}

fn list(head: Node, rest: Vec<Node>) -> Node {
    Node::List(ListDetails { head: Box::new(head), rest })
}

fn depth(node: &Node) -> usize {
    match node {
        Node::List(details) => {
            1 + details.rest.iter().map(depth).max().unwrap_or(0).max(depth(&details.head))
        }
        _ => 0,
    }
}

#[test]
fn an_unterminated_list_is_an_unexpected_end() {
    assert_eq!(parse("("), Err(ParseError::UnexpectedEndOfFile));
    assert_eq!(parse("(+ 1 2"), Err(ParseError::UnexpectedEndOfFile));
    assert_eq!(parse("(+ 1 (+ 2 3)"), Err(ParseError::UnexpectedEndOfFile));
}

#[test]
fn a_list_without_items_is_an_unexpected_end() {
    assert_eq!(parse("()"), Err(ParseError::UnexpectedEndOfFile));
    assert_eq!(parse("(+ 1 ())"), Err(ParseError::UnexpectedEndOfFile));
}

#[test]
fn an_unterminated_vector_or_map_is_an_unexpected_end() {
    assert_eq!(parse("["), Err(ParseError::UnexpectedEndOfFile));
    assert_eq!(parse("[1 2"), Err(ParseError::UnexpectedEndOfFile));
    assert_eq!(parse("{"), Err(ParseError::UnexpectedEndOfFile));
    assert_eq!(parse("{:a 1"), Err(ParseError::UnexpectedEndOfFile));
    assert_eq!(parse("{:a"), Err(ParseError::UnexpectedEndOfFile));
}

#[test]
fn an_empty_text_is_an_empty_program() {
    assert_eq!(parse(""), Ok(vec![]));
    assert_eq!(parse("  // nothing\n"), Ok(vec![]));
}

#[test]
fn forms_come_in_source_order() {
    assert_eq!(
        parse("(+ 1 2) [3] {}"),
        Ok(vec![
            list(keyword(Lexeme::Plus), vec![integer(1), integer(2)]),
            Node::Vector(vec![integer(3)]),
            Node::Mapping(vec![]),
        ])
    );
}

#[test]
fn only_a_bracket_starts_a_form() {
    assert_eq!(parse("1"), Err(ParseError::UnexpectedToken(at(1, 1), Lexeme::NumberLiteral(1))));
    assert_eq!(parse(")"), Err(ParseError::UnexpectedToken(at(1, 1), Lexeme::RightParen)));
    assert_eq!(
        parse("(+ 1 2)\n  x"),
        Err(ParseError::UnexpectedToken(at(2, 3), Lexeme::Identifier("x".to_string())))
    );
    assert_eq!(parse("[1] ]"), Err(ParseError::UnexpectedToken(at(1, 5), Lexeme::RightBracket)));
}

#[test]
fn a_failure_of_the_scanner_is_passed_on() {
    assert_eq!(
        parse("(+ 1 #)"),
        Err(ParseError::ScanError(ScanError::UnknownCharacter(at(1, 6), "#".to_string())))
    );
    assert_eq!(
        parse("(+ 1.5 2)"),
        Err(ParseError::ScanError(ScanError::UnknownCharacter(at(1, 4), "1.5".to_string())))
    );
}

#[test]
fn each_token_of_a_list_is_an_item() {
    assert_eq!(
        parse("(print \"hi\" x , main - and or 7)"),
        Ok(vec![list(
            keyword(Lexeme::Print),
            vec![
                Node::Constant(ConstantLiteral::StringLiteral("hi".to_string())),
                variable("x"),
                Node::Null,
                Node::Null,
                keyword(Lexeme::Minus),
                keyword(Lexeme::And),
                keyword(Lexeme::Or),
                integer(7),
            ],
        )])
    );
}

#[test]
fn the_head_of_a_list_is_its_first_item_whatever_it_is() {
    assert_eq!(parse("(1 2)"), Ok(vec![list(integer(1), vec![integer(2)])]));
    assert_eq!(
        parse("((+ 1 2) x)"),
        Ok(vec![list(
            list(keyword(Lexeme::Plus), vec![integer(1), integer(2)]),
            vec![variable("x")]
        )])
    );
    assert_eq!(parse("(x)"), Ok(vec![list(variable("x"), vec![])]));
}

#[test]
fn brackets_and_braces_inside_a_list_are_null_items() {
    assert_eq!(
        parse("(+ [1] {2})"),
        Ok(vec![list(
            keyword(Lexeme::Plus),
            vec![Node::Null, integer(1), Node::Null, Node::Null, integer(2), Node::Null],
        )])
    );
}

#[test]
fn a_vector_does_not_nest() {
    assert_eq!(
        parse("[x (y) \"z\"]"),
        Ok(vec![Node::Vector(vec![
            variable("x"),
            Node::Null,
            variable("y"),
            Node::Null,
            Node::Constant(ConstantLiteral::StringLiteral("z".to_string())),
        ])])
    );
    assert_eq!(parse("[]"), Ok(vec![Node::Vector(vec![])]));
}

#[test]
fn a_value_without_a_key_stands_under_the_empty_key() {
    assert_eq!(
        parse("{1 :a 2 x}"),
        Ok(vec![Node::Mapping(vec![
            MapItem { key: String::new(), value: integer(1) },
            MapItem { key: "a".to_string(), value: integer(2) },
            MapItem { key: String::new(), value: variable("x") },
        ])])
    );
}

#[test]
fn a_map_keeps_entries_with_the_same_key() {
    assert_eq!(
        parse("{:a 1 :a 2}"),
        Ok(vec![Node::Mapping(vec![
            MapItem { key: "a".to_string(), value: integer(1) },
            MapItem { key: "a".to_string(), value: integer(2) },
        ])])
    );
}

#[test]
fn a_map_key_takes_the_token_after_it_as_its_value() {
    assert_eq!(
        parse("{:a :b 1}"),
        Ok(vec![Node::Mapping(vec![
            MapItem { key: "a".to_string(), value: Node::Null },
            MapItem { key: String::new(), value: integer(1) },
        ])])
    );
    assert_eq!(parse("{:a }"), Err(ParseError::UnexpectedEndOfFile));
}

#[test]
fn an_integer_must_fit_32_bits() {
    assert_eq!(
        parse("(+ 2147483647)"),
        Ok(vec![list(keyword(Lexeme::Plus), vec![integer(2147483647)])])
    );
    assert_eq!(
        parse("(+ 2147483648)"),
        Err(ParseError::UnexpectedToken(at(1, 4), Lexeme::NumberLiteral(2147483648)))
    );
    assert_eq!(
        parse("[1 4294967296]"),
        Err(ParseError::UnexpectedToken(at(1, 4), Lexeme::NumberLiteral(4294967296)))
    );
    assert_eq!(
        parse("{:a 4294967296}"),
        Err(ParseError::UnexpectedToken(at(1, 5), Lexeme::NumberLiteral(4294967296)))
    );
}

#[test]
fn the_name_main_makes_the_entry_function() {
    assert_eq!(
        parse("(defn main [] (print \"Hello world\"))"),
        Ok(vec![Node::Main(MainDetails {
            args: vec![],
            body: vec![list(
                keyword(Lexeme::Print),
                vec![Node::Constant(ConstantLiteral::StringLiteral("Hello world".to_string()))],
            )],
        })])
    );
    assert_eq!(
        parse("(defn main [argc argv])"),
        Ok(vec![Node::Main(MainDetails {
            args: vec![variable("argc"), variable("argv")],
            body: vec![],
        })])
    );
}

#[test]
fn a_function_may_have_several_forms_in_its_body() {
    assert_eq!(
        parse("(defn f [] (+ 1 2) (- 3 (+ 4 5)))"),
        Ok(vec![Node::Function(FunctionDetails {
            name: Box::new(variable("f")),
            args: vec![],
            body: vec![
                list(keyword(Lexeme::Plus), vec![integer(1), integer(2)]),
                list(
                    keyword(Lexeme::Minus),
                    vec![integer(3), list(keyword(Lexeme::Plus), vec![integer(4), integer(5)])],
                ),
            ],
        })])
    );
}

#[test]
fn a_definition_inside_a_body_is_a_plain_list() {
    assert_eq!(
        parse("(defn f [] (defn g))"),
        Ok(vec![Node::Function(FunctionDetails {
            name: Box::new(variable("f")),
            args: vec![],
            body: vec![list(Node::Null, vec![variable("g")])],
        })])
    );
}

#[test]
fn a_function_needs_a_name() {
    assert_eq!(
        parse("(defn 5 [x])"),
        Err(ParseError::InvalidFunctionName(at(1, 7), Lexeme::NumberLiteral(5)))
    );
    assert_eq!(
        parse("(defn [x])"),
        Err(ParseError::InvalidFunctionName(at(1, 7), Lexeme::LeftBracket))
    );
    assert_eq!(
        parse("(defn print [x])"),
        Err(ParseError::InvalidFunctionName(at(1, 7), Lexeme::Print))
    );
}

#[test]
fn a_function_needs_its_parameters_in_brackets() {
    assert_eq!(
        parse("(defn main (print \"Hello world\"))"),
        Err(ParseError::UnexpectedToken(at(1, 12), Lexeme::LeftParen))
    );
    assert_eq!(
        parse("(defn f x)"),
        Err(ParseError::UnexpectedToken(at(1, 9), Lexeme::Identifier("x".to_string())))
    );
}

#[test]
fn only_forms_in_parentheses_stand_in_a_body() {
    assert_eq!(
        parse("(defn f [x] y)"),
        Err(ParseError::UnexpectedToken(at(1, 13), Lexeme::Identifier("y".to_string())))
    );
    assert_eq!(
        parse("(defn f [x] (+ x 1) [2])"),
        Err(ParseError::UnexpectedToken(at(1, 21), Lexeme::LeftBracket))
    );
}

#[test]
fn an_unterminated_definition_is_an_unexpected_end() {
    assert_eq!(parse("(defn"), Err(ParseError::UnexpectedEndOfFile));
    assert_eq!(parse("(defn f"), Err(ParseError::UnexpectedEndOfFile));
    assert_eq!(parse("(defn f [x"), Err(ParseError::UnexpectedEndOfFile));
    assert_eq!(parse("(defn f [x]"), Err(ParseError::UnexpectedEndOfFile));
    assert_eq!(parse("(defn f [x] (+ x 1)"), Err(ParseError::UnexpectedEndOfFile));
    assert_eq!(parse("(defn f [x] (+ x 1"), Err(ParseError::UnexpectedEndOfFile));
}

#[test]
fn a_list_is_as_deep_as_its_parentheses_nest() {
    for levels in 1..60usize {
        let mut text = String::new();
        for _ in 0..levels {
            text.push_str("(+ 1 ");
        }
        for _ in 0..levels {
            text.push(')');
        }
        let nodes = parse(&text).unwrap();
        assert_eq!(nodes.len(), 1);
        assert_eq!(depth(&nodes[0]), levels);
    }
}

#[test]
fn the_first_failure_is_the_one_reported() {
    assert_eq!(
        parse("(+ 1 2) 7 (defn 5)"),
        Err(ParseError::UnexpectedToken(at(1, 9), Lexeme::NumberLiteral(7)))
    );
}
