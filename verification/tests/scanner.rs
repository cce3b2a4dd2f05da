use lispwasm::frontend::scanner::Lexeme::NumberLiteral;
use lispwasm::frontend::scanner::Scanner;
use lispwasm::frontend::scanner::{
    scan_into_peekable, unknown_character_message, Lexeme, Position, ScanError, Token,
};
use lispwasm::frontend::stream::TokenStream;

fn at(line: usize, column: usize) -> Position {
    Position { line, column }
}

fn tokens(text: &str) -> Vec<Token> {
    let mut stream = scan_into_peekable(text.to_string()).unwrap();
    let mut found = Vec::new();
    while let Some(token) = stream.next() {
        found.push(token);
    }
    found
}

fn lexemes(text: &str) -> Vec<Lexeme> {
    tokens(text).into_iter().map(|token| token.lexeme).collect()
}

fn failure(text: &str) -> ScanError {
    scan_into_peekable(text.to_string()).unwrap_err()
}

fn word(text: &str) -> Lexeme {
    Lexeme::Identifier(text.to_string())
}

#[test]
fn parse_numbers() {
    let text = "123".to_string();
    let mut scanner = Scanner::new(&text);

    assert_eq!(NumberLiteral(123 as i64), scanner.scan_token().unwrap().lexeme)
}

#[test]
fn a_number_is_one_token() {
    assert_eq!(
        tokens("123"),
        vec![
            Token { lexeme: Lexeme::NumberLiteral(123), position: at(1, 1) },
            Token { lexeme: Lexeme::EOF, position: at(1, 4) },
        ]
    );
}

#[test]
fn an_empty_text_is_the_end_alone() {
    assert_eq!(tokens(""), vec![Token { lexeme: Lexeme::EOF, position: at(1, 1) }]);
}

#[test]
fn the_scanner_keeps_returning_the_end() {
    let text = "x".to_string();
    let mut scanner = Scanner::new(&text);
    assert_eq!(scanner.scan_token().unwrap().lexeme, word("x"));
    assert_eq!(scanner.scan_token().unwrap().lexeme, Lexeme::EOF);
    assert_eq!(scanner.scan_token().unwrap().lexeme, Lexeme::EOF);
}

#[test]
fn punctuation_is_one_character_each() {
    assert_eq!(
        lexemes("(){}[],.-+*/"),
        vec![
            Lexeme::LeftParen,
            Lexeme::RightParen,
            Lexeme::LeftBrace,
            Lexeme::RightBrace,
            Lexeme::LeftBracket,
            Lexeme::RightBracket,
            Lexeme::Comma,
            Lexeme::Dot,
            Lexeme::Minus,
            Lexeme::Plus,
            Lexeme::Star,
            Lexeme::Slash,
            Lexeme::EOF,
        ]
    );
}

#[test]
fn operators_take_a_following_equal_sign() {
    assert_eq!(
        lexemes("!= == >= <= ! = > <"),
        vec![
            Lexeme::BangEqual,
            Lexeme::DoubleEqual,
            Lexeme::GreaterEqual,
            Lexeme::LessEqual,
            Lexeme::Bang,
            Lexeme::Equal,
            Lexeme::Greater,
            Lexeme::Less,
            Lexeme::EOF,
        ]
    );
    assert_eq!(lexemes("==="), vec![Lexeme::DoubleEqual, Lexeme::Equal, Lexeme::EOF]);
    assert_eq!(lexemes("<x"), vec![Lexeme::Less, word("x"), Lexeme::EOF]);
}

#[test]
fn a_two_character_operator_moves_two_columns() {
    assert_eq!(
        tokens("!=x"),
        vec![
            Token { lexeme: Lexeme::BangEqual, position: at(1, 1) },
            Token { lexeme: word("x"), position: at(1, 3) },
            Token { lexeme: Lexeme::EOF, position: at(1, 4) },
        ]
    );
}

#[test]
fn reserved_words_are_recognised() {
    assert_eq!(
        lexemes("and or def defn main print nil true false cond for"),
        vec![
            Lexeme::And,
            Lexeme::Or,
            Lexeme::Def,
            Lexeme::Defn,
            Lexeme::Main,
            Lexeme::Print,
            Lexeme::Nil,
            Lexeme::True,
            Lexeme::False,
            Lexeme::Cond,
            Lexeme::For,
            Lexeme::EOF,
        ]
    );
}

#[test]
fn a_word_that_only_starts_like_a_reserved_word_is_an_identifier() {
    assert_eq!(
        lexemes("android d de defns fo form mainframe nile printer _x1 True"),
        vec![
            word("android"),
            word("d"),
            word("de"),
            word("defns"),
            word("fo"),
            word("form"),
            word("mainframe"),
            word("nile"),
            word("printer"),
            word("_x1"),
            word("True"),
            Lexeme::EOF,
        ]
    );
}

#[test]
fn a_colon_before_a_space_is_bare() {
    assert_eq!(lexemes(": x"), vec![Lexeme::Colon, word("x"), Lexeme::EOF]);
    assert_eq!(
        tokens(": x"),
        vec![
            Token { lexeme: Lexeme::Colon, position: at(1, 1) },
            Token { lexeme: word("x"), position: at(1, 3) },
            Token { lexeme: Lexeme::EOF, position: at(1, 4) },
        ]
    );
}

#[test]
fn a_colon_before_a_word_is_a_map_key() {
    assert_eq!(
        lexemes(":guten 1"),
        vec![Lexeme::MapKey("guten".to_string()), Lexeme::NumberLiteral(1), Lexeme::EOF]
    );
    assert_eq!(
        lexemes(":a 1"),
        vec![Lexeme::MapKey("a".to_string()), Lexeme::NumberLiteral(1), Lexeme::EOF]
    );
    assert_eq!(
        lexemes("a:b1_c"),
        vec![word("a"), Lexeme::MapKey("b1_c".to_string()), Lexeme::EOF]
    );
}

#[test]
fn a_colon_before_anything_else_is_a_key_without_a_name() {
    assert_eq!(lexemes(":"), vec![Lexeme::MapKey(String::new()), Lexeme::EOF]);
    assert_eq!(
        lexemes(":)"),
        vec![Lexeme::MapKey(String::new()), Lexeme::RightParen, Lexeme::EOF]
    );
}

#[test]
fn a_string_loses_its_quotes() {
    assert_eq!(
        lexemes("\"Hello world\""),
        vec![Lexeme::StringLiteral("Hello world".to_string()), Lexeme::EOF]
    );
    assert_eq!(lexemes("\"\""), vec![Lexeme::StringLiteral(String::new()), Lexeme::EOF]);
    assert_eq!(
        lexemes("\"a\\n\" b"),
        vec![Lexeme::StringLiteral("a\\n".to_string()), word("b"), Lexeme::EOF]
    );
}

#[test]
fn a_string_may_span_lines() {
    assert_eq!(
        tokens("\"a\nb\" c"),
        vec![
            Token { lexeme: Lexeme::StringLiteral("a\nb".to_string()), position: at(1, 1) },
            Token { lexeme: word("c"), position: at(2, 4) },
            Token { lexeme: Lexeme::EOF, position: at(2, 5) },
        ]
    );
}

#[test]
fn a_string_without_its_closing_quote_is_no_token() {
    assert_eq!(failure("\"abc"), ScanError::UnknownCharacter(at(1, 1), "abc".to_string()));
    assert_eq!(failure("x \""), ScanError::UnknownCharacter(at(1, 3), String::new()));
}

#[test]
fn a_comment_runs_to_the_end_of_the_line() {
    assert_eq!(
        lexemes("1 // one ( \" #\n2"),
        vec![Lexeme::NumberLiteral(1), Lexeme::NumberLiteral(2), Lexeme::EOF]
    );
    assert_eq!(lexemes("// the end"), vec![Lexeme::EOF]);
    assert_eq!(lexemes("//"), vec![Lexeme::EOF]);
}

#[test]
fn the_scanner_shows_whitespace_and_comments() {
    let text = " //x\ny".to_string();
    let mut scanner = Scanner::new(&text);
    assert_eq!(
        scanner.scan_token().unwrap(),
        Token { lexeme: Lexeme::Whitespace, position: at(1, 1) }
    );
    assert_eq!(
        scanner.scan_token().unwrap(),
        Token { lexeme: Lexeme::Comment, position: at(1, 2) }
    );
    assert_eq!(scanner.scan_token().unwrap(), Token { lexeme: word("y"), position: at(2, 1) });
    assert_eq!(
        scanner.scan_token().unwrap(),
        Token { lexeme: Lexeme::EOF, position: at(2, 2) }
    );
}

#[test]
fn all_four_kinds_of_whitespace_separate() {
    assert_eq!(lexemes("a b\tc\rd\ne"), vec![
        word("a"),
        word("b"),
        word("c"),
        word("d"),
        word("e"),
        Lexeme::EOF,
    ]);
}

#[test]
fn tokens_carry_the_position_where_they_start() {
    assert_eq!(
        tokens("(+ 1\n 22)"),
        vec![
            Token { lexeme: Lexeme::LeftParen, position: at(1, 1) },
            Token { lexeme: Lexeme::Plus, position: at(1, 2) },
            Token { lexeme: Lexeme::NumberLiteral(1), position: at(1, 4) },
            Token { lexeme: Lexeme::NumberLiteral(22), position: at(2, 2) },
            Token { lexeme: Lexeme::RightParen, position: at(2, 4) },
            Token { lexeme: Lexeme::EOF, position: at(2, 5) },
        ]
    );
}

#[test]
fn an_unknown_character_stops_the_scan() {
    assert_eq!(failure("#"), ScanError::UnknownCharacter(at(1, 1), "#".to_string()));
    assert_eq!(failure("(a\n  ?)"), ScanError::UnknownCharacter(at(2, 3), "?".to_string()));
    assert_eq!(failure("x é"), ScanError::UnknownCharacter(at(1, 3), "é".to_string()));
}

#[test]
fn a_dot_before_a_digit_belongs_to_the_number() {
    assert_eq!(failure("1.5"), ScanError::UnknownCharacter(at(1, 1), "1.5".to_string()));
    assert_eq!(failure("(12.75.3"), ScanError::UnknownCharacter(at(1, 2), "12.75".to_string()));
}

#[test]
fn a_dot_before_anything_else_is_left_for_the_next_token() {
    assert_eq!(
        lexemes("1.x"),
        vec![Lexeme::NumberLiteral(1), Lexeme::Dot, word("x"), Lexeme::EOF]
    );
    assert_eq!(lexemes("1."), vec![Lexeme::NumberLiteral(1), Lexeme::Dot, Lexeme::EOF]);
    assert_eq!(
        lexemes("1.a2"),
        vec![Lexeme::NumberLiteral(1), Lexeme::Dot, word("a2"), Lexeme::EOF]
    );
    assert_eq!(
        lexemes("12 3"),
        vec![Lexeme::NumberLiteral(12), Lexeme::NumberLiteral(3), Lexeme::EOF]
    );
}

#[test]
fn a_number_is_read_in_decimal() {
    assert_eq!(lexemes("0"), vec![Lexeme::NumberLiteral(0), Lexeme::EOF]);
    assert_eq!(lexemes("007"), vec![Lexeme::NumberLiteral(7), Lexeme::EOF]);
    assert_eq!(lexemes("1234567890"), vec![Lexeme::NumberLiteral(1234567890), Lexeme::EOF]);
    assert_eq!(lexemes("-5"), vec![Lexeme::Minus, Lexeme::NumberLiteral(5), Lexeme::EOF]);
    assert_eq!(lexemes("5x"), vec![Lexeme::NumberLiteral(5), word("x"), Lexeme::EOF]);
}

#[test]
fn a_number_up_to_the_largest_is_a_token() {
    assert_eq!(
        lexemes("9223372036854775807"),
        vec![Lexeme::NumberLiteral(i64::MAX), Lexeme::EOF]
    );
    assert_eq!(
        failure("9223372036854775808"),
        ScanError::UnknownCharacter(at(1, 1), "9223372036854775808".to_string())
    );
    assert_eq!(
        failure("99999999999999999999999"),
        ScanError::UnknownCharacter(at(1, 1), "99999999999999999999999".to_string())
    );
}

#[test]
fn a_new_token_is_whitespace_at_the_start() {
    assert_eq!(Token::new(), Token { lexeme: Lexeme::Whitespace, position: at(1, 1) });
    assert_eq!(Position::reset(), at(1, 1));
}

#[test]
fn a_lexeme_clones_to_an_equal_one() {
    assert_eq!(word("abc").clone(), word("abc"));
    assert_eq!(Lexeme::NumberLiteral(-3).clone(), Lexeme::NumberLiteral(-3));
    assert_eq!(Lexeme::Defn.clone(), Lexeme::Defn);
}

#[test]
fn a_stream_hands_out_its_tokens_in_order() {
    let mut stream = TokenStream::new();
    assert!(stream.peek().is_none());
    assert!(stream.next().is_none());
    stream.push(Token { lexeme: Lexeme::Plus, position: at(1, 1) });
    stream.push(Token { lexeme: Lexeme::Minus, position: at(1, 2) });
    assert_eq!(stream.peek().unwrap().lexeme, Lexeme::Plus);
    assert_eq!(stream.peek().unwrap().lexeme, Lexeme::Plus);
    assert_eq!(stream.next().unwrap(), Token { lexeme: Lexeme::Plus, position: at(1, 1) });
    assert_eq!(stream.next().unwrap(), Token { lexeme: Lexeme::Minus, position: at(1, 2) });
    assert!(stream.next().is_none());
}

#[test]
fn a_scan_error_has_a_message() {
    let error = ScanError::UnknownCharacter(at(3, 14), "#".to_string());
    assert_eq!(error.to_string(), "unknown character Position { line: 3, column: 14 } at \"#\"");
    let error = failure("\"a\\b");
    assert_eq!(
        error.to_string(),
        format!("unknown character {:?} at {:?}", at(1, 1), "a\\b")
    );
    assert_eq!(
        unknown_character_message(at(1, 2), "text"),
        "unknown character Position { line: 1, column: 2 } at text"
    );
}
