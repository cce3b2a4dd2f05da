//! Tokens, source positions and the scanner that produces them.

use crate::frontend::lexical::{
    decimal_value, is_alpha, is_digit, is_digit_char, is_whitespace, keyword, lemma_run_len_bound,
    lemma_run_len_is, lemma_run_len_stops, lemma_scan_one_consumes, run_len, scan_from,
    scan_one, starts_with, tokens_of, CharClass,
};
use crate::frontend::stream::TokenStream;
use crate::text::{append_digits, debug_string, debug_text, decimal_digits};
use crate::frontend::source::{lookahead, open_source, peek_char, pending, rewind_peek, take_char};
use itertools::MultiPeek;
use std::str::Chars;
use vstd::prelude::*;
use vstd::string::StringExecFns;

verus! {

/// The kind of a token, with the text or value of those that carry one.
#[derive(Debug, PartialEq)]
pub enum Lexeme {
    LeftParen,
    RightParen,
    LeftBrace,
    RightBrace,
    LeftBracket,
    RightBracket,
    Comma,
    Dot,
    Minus,
    Plus,
    Colon,
    Slash,
    Star,
    Bang,
    BangEqual,
    Equal,
    DoubleEqual,
    Greater,
    GreaterEqual,
    Less,
    LessEqual,
    Identifier(String),
    StringLiteral(String),
    NumberLiteral(i64),
    And,
    MapKey(String),
    False,
    For,
    Cond,
    Def,
    Defn,
    Nil,
    Or,
    Print,
    True,
    Main,
    Comment,
    Whitespace,
    EOF,
}

/// A [`Lexeme`] with its texts as sequences of characters.
pub enum LexemeView {
    LeftParen,
    RightParen,
    LeftBrace,
    RightBrace,
    LeftBracket,
    RightBracket,
    Comma,
    Dot,
    Minus,
    Plus,
    Colon,
    Slash,
    Star,
    Bang,
    BangEqual,
    Equal,
    DoubleEqual,
    Greater,
    GreaterEqual,
    Less,
    LessEqual,
    Identifier(Seq<char>),
    StringLiteral(Seq<char>),
    NumberLiteral(i64),
    And,
    MapKey(Seq<char>),
    False,
    For,
    Cond,
    Def,
    Defn,
    Nil,
    Or,
    Print,
    True,
    Main,
    Comment,
    Whitespace,
    EOF,
}

impl View for Lexeme {
    type V = LexemeView;

    open spec fn view(&self) -> LexemeView {
        match self {
            Lexeme::LeftParen => LexemeView::LeftParen,
            Lexeme::RightParen => LexemeView::RightParen,
            Lexeme::LeftBrace => LexemeView::LeftBrace,
            Lexeme::RightBrace => LexemeView::RightBrace,
            Lexeme::LeftBracket => LexemeView::LeftBracket,
            Lexeme::RightBracket => LexemeView::RightBracket,
            Lexeme::Comma => LexemeView::Comma,
            Lexeme::Dot => LexemeView::Dot,
            Lexeme::Minus => LexemeView::Minus,
            Lexeme::Plus => LexemeView::Plus,
            Lexeme::Colon => LexemeView::Colon,
            Lexeme::Slash => LexemeView::Slash,
            Lexeme::Star => LexemeView::Star,
            Lexeme::Bang => LexemeView::Bang,
            Lexeme::BangEqual => LexemeView::BangEqual,
            Lexeme::Equal => LexemeView::Equal,
            Lexeme::DoubleEqual => LexemeView::DoubleEqual,
            Lexeme::Greater => LexemeView::Greater,
            Lexeme::GreaterEqual => LexemeView::GreaterEqual,
            Lexeme::Less => LexemeView::Less,
            Lexeme::LessEqual => LexemeView::LessEqual,
            Lexeme::Identifier(name) => LexemeView::Identifier(name@),
            Lexeme::StringLiteral(text) => LexemeView::StringLiteral(text@),
            Lexeme::NumberLiteral(value) => LexemeView::NumberLiteral(*value),
            Lexeme::And => LexemeView::And,
            Lexeme::MapKey(name) => LexemeView::MapKey(name@),
            Lexeme::False => LexemeView::False,
            Lexeme::For => LexemeView::For,
            Lexeme::Cond => LexemeView::Cond,
            Lexeme::Def => LexemeView::Def,
            Lexeme::Defn => LexemeView::Defn,
            Lexeme::Nil => LexemeView::Nil,
            Lexeme::Or => LexemeView::Or,
            Lexeme::Print => LexemeView::Print,
            Lexeme::True => LexemeView::True,
            Lexeme::Main => LexemeView::Main,
            Lexeme::Comment => LexemeView::Comment,
            Lexeme::Whitespace => LexemeView::Whitespace,
            Lexeme::EOF => LexemeView::EOF,
        }
    }
}

impl Clone for Lexeme {
    /// A lexeme of the same kind, with the same text or value.
    fn clone(&self) -> (copy: Lexeme)
        ensures
            copy@ == self@,
    {
        match self {
            Lexeme::LeftParen => Lexeme::LeftParen,
            Lexeme::RightParen => Lexeme::RightParen,
            Lexeme::LeftBrace => Lexeme::LeftBrace,
            Lexeme::RightBrace => Lexeme::RightBrace,
            Lexeme::LeftBracket => Lexeme::LeftBracket,
            Lexeme::RightBracket => Lexeme::RightBracket,
            Lexeme::Comma => Lexeme::Comma,
            Lexeme::Dot => Lexeme::Dot,
            Lexeme::Minus => Lexeme::Minus,
            Lexeme::Plus => Lexeme::Plus,
            Lexeme::Colon => Lexeme::Colon,
            Lexeme::Slash => Lexeme::Slash,
            Lexeme::Star => Lexeme::Star,
            Lexeme::Bang => Lexeme::Bang,
            Lexeme::BangEqual => Lexeme::BangEqual,
            Lexeme::Equal => Lexeme::Equal,
            Lexeme::DoubleEqual => Lexeme::DoubleEqual,
            Lexeme::Greater => Lexeme::Greater,
            Lexeme::GreaterEqual => Lexeme::GreaterEqual,
            Lexeme::Less => Lexeme::Less,
            Lexeme::LessEqual => Lexeme::LessEqual,
            Lexeme::Identifier(name) => Lexeme::Identifier(name.clone()),
            Lexeme::StringLiteral(text) => Lexeme::StringLiteral(text.clone()),
            Lexeme::NumberLiteral(value) => Lexeme::NumberLiteral(*value),
            Lexeme::And => Lexeme::And,
            Lexeme::MapKey(name) => Lexeme::MapKey(name.clone()),
            Lexeme::False => Lexeme::False,
            Lexeme::For => Lexeme::For,
            Lexeme::Cond => Lexeme::Cond,
            Lexeme::Def => Lexeme::Def,
            Lexeme::Defn => Lexeme::Defn,
            Lexeme::Nil => Lexeme::Nil,
            Lexeme::Or => Lexeme::Or,
            Lexeme::Print => Lexeme::Print,
            Lexeme::True => Lexeme::True,
            Lexeme::Main => Lexeme::Main,
            Lexeme::Comment => Lexeme::Comment,
            Lexeme::Whitespace => Lexeme::Whitespace,
            Lexeme::EOF => Lexeme::EOF,
        }
    }
}

/// A place in the source text: line and column, both counted from 1.
#[derive(Debug, Copy, Clone, PartialEq, Eq, Structural)]
pub struct Position {
    pub line: usize,
    pub column: usize,
}

impl Position {
    /// The position one character further, where that character is `c`: the start of the next
    /// line after a newline, the next column after anything else. A counter that has reached
    /// `usize::MAX` stays there.
    pub open spec fn after(self, c: char) -> Position {
        if c == '\n' {
            Position {
                line: if self.line < usize::MAX {
                    (self.line + 1) as usize
                } else {
                    self.line
                },
                column: 1,
            }
        } else {
            Position {
                line: self.line,
                column: if self.column < usize::MAX {
                    (self.column + 1) as usize
                } else {
                    self.column
                },
            }
        }
    }

    /// The position after all the characters of `text`, taken in order.
    pub open spec fn after_all(self, text: Seq<char>) -> Position
        decreases text.len(),
    {
        if text.len() == 0 {
            self
        } else {
            self.after_all(text.drop_last()).after(text.last())
        }
    }

    /// The start of a text: line 1, column 1.
    pub fn reset() -> (start: Position)
        ensures
            start == (Position { line: 1, column: 1 }),
    {
        Position { line: 1, column: 1 }
    }

    fn increment_column(&mut self)
        ensures
            *final(self) == old(self).after(' '),
    {
        if self.column < usize::MAX {
            self.column += 1;
        }
    }

    fn next_line(&mut self)
        ensures
            *final(self) == old(self).after('\n'),
    {
        if self.line < usize::MAX {
            self.line += 1;
        }
        self.column = 1;
    }

    /// Moves this position past one character `c`.
    pub(crate) fn step(&mut self, c: char)
        ensures
            *final(self) == old(self).after(c),
    {
        if c == '\n' {
            self.next_line();
        } else {
            self.increment_column();
        }
    }
}

/// A lexeme and the position at which it starts.
#[derive(Debug, PartialEq)]
pub struct Token {
    pub lexeme: Lexeme,
    pub position: Position,
}

/// A [`Token`] with its lexeme as a [`LexemeView`].
pub struct TokenView {
    pub lexeme: LexemeView,
    pub position: Position,
}

impl View for Token {
    type V = TokenView;

    open spec fn view(&self) -> TokenView {
        TokenView { lexeme: self.lexeme@, position: self.position }
    }
}

impl Token {
    /// A whitespace token at the start of a text.
    pub fn new() -> (token: Token)
        ensures
            token@ == (TokenView {
                lexeme: LexemeView::Whitespace,
                position: Position { line: 1, column: 1 },
            }),
    {
        Token { lexeme: Lexeme::Whitespace, position: Position::reset() }
    }
}

/// Why scanning stopped.
#[derive(Debug, PartialEq)]
pub enum ScanError {
    /// No token starts with the text given, which begins at the position given.
    UnknownCharacter(Position, String),
}

/// A [`ScanError`] with its text as a sequence of characters.
pub enum ScanErrorView {
    UnknownCharacter(Position, Seq<char>),
}

impl View for ScanError {
    type V = ScanErrorView;

    open spec fn view(&self) -> ScanErrorView {
        match self {
            ScanError::UnknownCharacter(position, text) => ScanErrorView::UnknownCharacter(
                *position,
                text@,
            ),
        }
    }
}

/// The text that shows `position`: its line and its column by name.
pub open spec fn position_text(position: Position) -> Seq<char> {
    "Position { line: "@ + decimal_digits(position.line as nat) + ", column: "@ + decimal_digits(
        position.column as nat,
    ) + " }"@
}

/// The message for text that is no token, where the text is written as `quoted`.
pub open spec fn unknown_character_text(position: Position, quoted: Seq<char>) -> Seq<char> {
    "unknown character "@ + position_text(position) + " at "@ + quoted
}

impl ScanErrorView {
    /// The message of this error: the position and the text, the text as `{:?}` formats it.
    pub open spec fn text(self) -> Seq<char> {
        match self {
            ScanErrorView::UnknownCharacter(position, text) => unknown_character_text(
                position,
                debug_text(text),
            ),
        }
    }
}

impl ScanError {
    /// The message of this error.
    pub fn to_string(&self) -> (text: String)
        ensures
            text@ == self@.text(),
    {
        match self {
            ScanError::UnknownCharacter(position, text) => {
                let quoted = debug_string(text);
                unknown_character_message(*position, quoted.as_str())
            },
        }
    }
}

/// The message for text that is no token, where the text is written as `quoted`.
pub fn unknown_character_message(position: Position, quoted: &str) -> (text: String)
    ensures
        text@ == unknown_character_text(position, quoted@),
{
    let mut text = String::from_str("unknown character Position { line: ");
    append_digits(&mut text, position.line as u64);
    text.append(", column: ");
    append_digits(&mut text, position.column as u64);
    text.append(" }");
    text.append(" at ");
    text.append(quoted);
    proof {
        reveal_strlit("unknown character Position { line: ");
        reveal_strlit("unknown character ");
        reveal_strlit("Position { line: ");
        assert("unknown character Position { line: "@ =~= "unknown character "@
            + "Position { line: "@);
        assert(text@ =~= unknown_character_text(position, quoted@));
    }
    text
}

/// What a call of the scanner returned, with the token or the error as its view.
pub open spec fn scan_result_view(result: Result<Token, ScanError>) -> Result<
    TokenView,
    ScanErrorView,
> {
    match result {
        Ok(token) => Ok(token@),
        Err(error) => Err(error@),
    }
}

/// The position after the characters of `a` and then those of `b`.
pub proof fn lemma_after_all_concat(start: Position, a: Seq<char>, b: Seq<char>)
    ensures
        start.after_all(a + b) == start.after_all(a).after_all(b),
    decreases b.len(),
{
    if b.len() == 0 {
        assert(a + b == a);
    } else {
        lemma_after_all_concat(start, a, b.drop_last());
        assert((a + b).drop_last() == a + b.drop_last());
    }
}

/// The position after a single character.
pub proof fn lemma_after_all_one(start: Position, c: char)
    ensures
        start.after_all(seq![c]) == start.after(c),
{
    assert(seq![c].drop_last() == Seq::<char>::empty());
    assert(start.after_all(Seq::<char>::empty()) == start);
}

/// Whether `word` is spelled as `reserved` is.
fn spells(word: &String, reserved: &str) -> (same: bool)
    ensures
        same == (word@ == reserved@),
{
    let other = String::from_str(reserved);
    *word == other
}

/// Reads a text one token at a time.
pub struct Scanner<'a> {
    source: MultiPeek<Chars<'a>>,
    current_string: String,
    current_position: Position,
    token_start: Position,
}

impl<'a> Scanner<'a> {
    /// The text that is still to be scanned.
    pub closed spec fn remaining(&self) -> Seq<char> {
        pending(self.source)
    }

    /// The position of the first character that is still to be scanned.
    pub closed spec fn position(&self) -> Position {
        self.current_position
    }

    /// Whether the next peek looks at the first character that is still to be scanned.
    spec fn at_front(&self) -> bool {
        lookahead(self.source) == 0
    }

    /// Whether this scanner is what `before` becomes by reading `n` characters.
    spec fn has_read(&self, before: Scanner<'a>, n: nat) -> bool {
        &&& n <= before.remaining().len()
        &&& self.remaining() == before.remaining().skip(n as int)
        &&& self.current_position == before.current_position.after_all(
            before.remaining().take(n as int),
        )
        &&& self.token_start == before.token_start
        &&& self.at_front()
    }

    /// Reading `n` characters and then `m` more is reading `n + m`.
    proof fn lemma_has_read_twice(&self, middle: Scanner<'a>, before: Scanner<'a>, n: nat, m: nat)
        requires
            middle.has_read(before, n),
            self.has_read(middle, m),
        ensures
            self.has_read(before, n + m),
    {
        let text = before.remaining();
        assert(text.skip(n as int).skip(m as int) == text.skip((n + m) as int));
        assert(text.take(n as int) + text.skip(n as int).take(m as int) == text.take(
            (n + m) as int,
        ));
        lemma_after_all_concat(
            before.current_position,
            text.take(n as int),
            text.skip(n as int).take(m as int),
        );
    }

    /// A scanner at the start of `text`.
    pub fn new(text: &'a String) -> (scanner: Scanner<'a>)
        ensures
            scanner.remaining() == text@,
            scanner.position() == (Position { line: 1, column: 1 }),
    {
        Scanner {
            source: open_source(text.as_str()),
            current_string: String::new(),
            current_position: Position::reset(),
            token_start: Position::reset(),
        }
    }

    /// Reads the next token: the one that the remaining text starts with. The scanner moves
    /// past the characters of the token, or of the text that is no token.
    pub fn scan_token(&mut self) -> (result: Result<Token, ScanError>)
        ensures
            scan_result_view(result) == scan_one(
                old(self).remaining(),
                old(self).position(),
            ).outcome,
            scan_one(old(self).remaining(), old(self).position()).consumed <= old(
                self,
            ).remaining().len(),
            final(self).remaining() == old(self).remaining().skip(
                scan_one(old(self).remaining(), old(self).position()).consumed as int,
            ),
            final(self).position() == old(self).position().after_all(
                old(self).remaining().take(
                    scan_one(old(self).remaining(), old(self).position()).consumed as int,
                ),
            ),
    {
        let ghost text = self.remaining();
        self.current_string = String::new();
        self.token_start = self.current_position;
        let ghost before = *self;
        proof {
            assert(text.take(0) == Seq::<char>::empty());
            assert(text.skip(0) == text);
        }
        match self.advance() {
            None => self.make_token(Lexeme::EOF),
            Some(c) => {
                let ghost after_first = *self;
                proof {
                    assert(text.take(1) == seq![c]);
                    lemma_after_all_one(before.current_position, c);
                    assert(self.has_read(before, 1));
                }
                if c == '(' {
                    self.make_token(Lexeme::LeftParen)
                } else if c == ')' {
                    self.make_token(Lexeme::RightParen)
                } else if c == '{' {
                    self.make_token(Lexeme::LeftBrace)
                } else if c == '}' {
                    self.make_token(Lexeme::RightBrace)
                } else if c == '[' {
                    self.make_token(Lexeme::LeftBracket)
                } else if c == ']' {
                    self.make_token(Lexeme::RightBracket)
                } else if c == ':' {
                    if self.peek_match(' ') {
                        proof {
                            self.lemma_has_read_twice(after_first, before, 1, 1);
                        }
                        self.make_token(Lexeme::Colon)
                    } else {
                        let ghost unmoved = *self;
                        let token = self.make_map_key();
                        proof {
                            let m = run_len(text.skip(1), CharClass::Word);
                            assert(text.skip(1).skip(0) == text.skip(1));
                            self.lemma_has_read_twice(unmoved, after_first, 0, m);
                            self.lemma_has_read_twice(after_first, before, 1, m);
                        }
                        token
                    }
                } else if c == ',' {
                    self.make_token(Lexeme::Comma)
                } else if c == '.' {
                    self.make_token(Lexeme::Dot)
                } else if c == '-' {
                    self.make_token(Lexeme::Minus)
                } else if c == '+' {
                    self.make_token(Lexeme::Plus)
                } else if c == '*' {
                    self.make_token(Lexeme::Star)
                } else if c == '!' {
                    if self.peek_match('=') {
                        proof {
                            self.lemma_has_read_twice(after_first, before, 1, 1);
                        }
                        self.make_token(Lexeme::BangEqual)
                    } else {
                        proof {
                            self.lemma_has_read_twice(after_first, before, 1, 0);
                        }
                        self.make_token(Lexeme::Bang)
                    }
                } else if c == '=' {
                    if self.peek_match('=') {
                        proof {
                            self.lemma_has_read_twice(after_first, before, 1, 1);
                        }
                        self.make_token(Lexeme::DoubleEqual)
                    } else {
                        proof {
                            self.lemma_has_read_twice(after_first, before, 1, 0);
                        }
                        self.make_token(Lexeme::Equal)
                    }
                } else if c == '>' {
                    if self.peek_match('=') {
                        proof {
                            self.lemma_has_read_twice(after_first, before, 1, 1);
                        }
                        self.make_token(Lexeme::GreaterEqual)
                    } else {
                        proof {
                            self.lemma_has_read_twice(after_first, before, 1, 0);
                        }
                        self.make_token(Lexeme::Greater)
                    }
                } else if c == '<' {
                    if self.peek_match('=') {
                        proof {
                            self.lemma_has_read_twice(after_first, before, 1, 1);
                        }
                        self.make_token(Lexeme::LessEqual)
                    } else {
                        proof {
                            self.lemma_has_read_twice(after_first, before, 1, 0);
                        }
                        self.make_token(Lexeme::Less)
                    }
                } else if c == '/' {
                    if self.peek_match('/') {
                        let ghost after_second = *self;
                        proof {
                            self.lemma_has_read_twice(after_first, before, 1, 1);
                        }
                        let token = self.make_token(Lexeme::Comment);
                        self.advance_until_newline();
                        proof {
                            let body = text.skip(1).skip(1);
                            assert(body == text.skip(2));
                            let n = run_len(body, CharClass::CommentBody);
                            let m: nat = if n < body.len() {
                                n + 1
                            } else {
                                n
                            };
                            self.lemma_has_read_twice(after_second, before, 2, m);
                        }
                        token
                    } else {
                        proof {
                            self.lemma_has_read_twice(after_first, before, 1, 0);
                        }
                        self.make_token(Lexeme::Slash)
                    }
                } else if c == '"' {
                    let token = self.make_string();
                    proof {
                        let tail = text.skip(1);
                        let n = run_len(tail, CharClass::StringBody);
                        let m: nat = if n < tail.len() {
                            n + 1
                        } else {
                            n
                        };
                        self.lemma_has_read_twice(after_first, before, 1, m);
                    }
                    token
                } else if is_whitespace(c) {
                    self.make_token(Lexeme::Whitespace)
                } else if is_digit(c) {
                    let token = self.make_digit(c, Ghost(text));
                    proof {
                        let n = scan_one(text, before.current_position).consumed;
                        self.lemma_has_read_twice(after_first, before, 1, (n - 1) as nat);
                    }
                    token
                } else if is_alpha(c) {
                    let token = self.make_identifier();
                    proof {
                        assert(text.drop_first() == text.skip(1));
                        let m = run_len(text.skip(1), CharClass::Word);
                        self.lemma_has_read_twice(after_first, before, 1, m);
                        assert(text.take(1) + text.skip(1).take(m as int) == text.take((1 + m) as int));
                    }
                    token
                } else {
                    Err(
                        ScanError::UnknownCharacter(
                            self.token_start,
                            self.current_string.clone(),
                        ),
                    )
                }
            },
        }
    }

    /// Takes the next character, if there is one, into the text of the current token.
    fn advance(&mut self) -> (c: Option<char>)
        ensures
            final(self).at_front(),
            final(self).token_start == old(self).token_start,
            match c {
                Some(ch) => {
                    &&& old(self).remaining().len() > 0
                    &&& ch == old(self).remaining()[0]
                    &&& final(self).remaining() == old(self).remaining().skip(1)
                    &&& final(self).current_string@ == old(self).current_string@.push(ch)
                    &&& final(self).current_position == old(self).current_position.after(ch)
                },
                None => {
                    &&& old(self).remaining().len() == 0
                    &&& final(self).remaining() == old(self).remaining()
                    &&& final(self).current_string@ == old(self).current_string@
                    &&& final(self).current_position == old(self).current_position
                },
            },
    {
        let character = take_char(&mut self.source);
        if let Some(ch) = character {
            self.current_string.push(ch);
            self.current_position.step(ch);
        }
        character
    }

    /// Takes the next character if it is `ch`, and says whether it did.
    fn peek_match(&mut self, ch: char) -> (matched: bool)
        requires
            old(self).at_front(),
        ensures
            matched == starts_with(old(self).remaining(), ch),
            final(self).current_string@ == old(self).current_string@,
            matched ==> final(self).has_read(*old(self), 1),
            !matched ==> final(self).has_read(*old(self), 0),
    {
        let ghost text = self.remaining();
        proof {
            assert(text.take(0) == Seq::<char>::empty());
            assert(text.skip(0) == text);
        }
        let found = peek_char(&mut self.source);
        if found == Some(ch) {
            let _ = take_char(&mut self.source);
            self.current_position.step(ch);
            proof {
                assert(text.take(1) == seq![ch]);
                lemma_after_all_one(old(self).current_position, ch);
            }
            return true;
        }
        rewind_peek(&mut self.source);
        false
    }

    /// Takes the longest run of characters of `class` into the text of the current token.
    fn take_run(&mut self, class: CharClass)
        requires
            old(self).at_front(),
        ensures
            final(self).has_read(*old(self), run_len(old(self).remaining(), class)),
            final(self).current_string@ == old(self).current_string@ + old(
                self,
            ).remaining().take(run_len(old(self).remaining(), class) as int),
    {
        let ghost text = self.remaining();
        let ghost start = self.current_position;
        let ghost held = self.current_string@;
        let ghost mut n: nat = 0;
        proof {
            assert(text.take(0) == Seq::<char>::empty());
            assert(text.skip(0) == text);
            assert(held + text.take(0) == held);
        }
        loop
            invariant_except_break
                self.at_front(),
            invariant
                n <= text.len(),
                self.remaining() == text.skip(n as int),
                self.current_position == start.after_all(text.take(n as int)),
                self.current_string@ == held + text.take(n as int),
                self.token_start == old(self).token_start,
                forall|i: int| 0 <= i < n ==> class.holds(#[trigger] text[i]),
            ensures
                self.at_front(),
                n < text.len() ==> !class.holds(text[n as int]),
            decreases text.len() - n,
        {
            let found = peek_char(&mut self.source);
            let inside = match found {
                Some(ch) => class.has(ch),
                None => false,
            };
            if !inside {
                rewind_peek(&mut self.source);
                break ;
            }
            let _ = self.advance();
            proof {
                assert(text.take((n + 1) as int).drop_last() == text.take(n as int));
                assert(text.take((n + 1) as int) == text.take(n as int).push(text[n as int]));
                assert(held + text.take((n + 1) as int) == (held + text.take(n as int)).push(
                    text[n as int],
                ));
                assert(text.skip(n as int).skip(1) == text.skip((n + 1) as int));
                n = n + 1;
            }
        }
        proof {
            lemma_run_len_is(text, class, n);
        }
    }

    /// Takes the rest of a comment: up to the end of the line, and the newline too.
    fn advance_until_newline(&mut self)
        requires
            old(self).at_front(),
        ensures
            final(self).has_read(
                *old(self),
                if run_len(old(self).remaining(), CharClass::CommentBody) < old(
                    self,
                ).remaining().len() {
                    run_len(old(self).remaining(), CharClass::CommentBody) + 1
                } else {
                    run_len(old(self).remaining(), CharClass::CommentBody)
                },
            ),
    {
        let ghost n = run_len(self.remaining(), CharClass::CommentBody);
        proof {
            lemma_run_len_bound(self.remaining(), CharClass::CommentBody);
        }
        self.take_run(CharClass::CommentBody);
        let ghost middle = *self;
        let newline = self.advance();
        proof {
            if newline is Some {
                let rest = middle.remaining();
                assert(rest.take(1) == seq![rest[0]]);
                lemma_after_all_one(middle.current_position, rest[0]);
                self.lemma_has_read_twice(middle, *old(self), n, 1);
            } else {
                assert(self.has_read(*old(self), n));
            }
        }
    }

    /// Takes a string literal whose opening quote has been taken: the characters up to the
    /// closing quote are its value.
    fn make_string(&mut self) -> (result: Result<Token, ScanError>)
        requires
            old(self).at_front(),
        ensures
            scan_result_view(result) == crate::frontend::lexical::scan_string(
                old(self).remaining(),
                old(self).token_start,
            ).outcome,
            final(self).has_read(
                *old(self),
                if run_len(old(self).remaining(), CharClass::StringBody) < old(
                    self,
                ).remaining().len() {
                    run_len(old(self).remaining(), CharClass::StringBody) + 1
                } else {
                    run_len(old(self).remaining(), CharClass::StringBody)
                },
            ),
    {
        let ghost n = run_len(self.remaining(), CharClass::StringBody);
        proof {
            lemma_run_len_bound(self.remaining(), CharClass::StringBody);
        }
        self.current_string = String::new();
        self.take_run(CharClass::StringBody);
        let value = self.current_string.clone();
        let ghost middle = *self;
        if self.peek_match('"') {
            proof {
                self.lemma_has_read_twice(middle, *old(self), n, 1);
            }
            self.make_token(Lexeme::StringLiteral(value))
        } else {
            proof {
                self.lemma_has_read_twice(middle, *old(self), n, 0);
                lemma_run_len_stops(old(self).remaining(), CharClass::StringBody);
                assert(old(self).remaining().take(n as int) == old(self).remaining());
            }
            Err(ScanError::UnknownCharacter(self.token_start, value))
        }
    }

    /// Takes a number whose first digit `first` has been taken. `text` is the text that the
    /// number starts.
    fn make_digit(&mut self, first: char, Ghost(text): Ghost<Seq<char>>) -> (result: Result<
        Token,
        ScanError,
    >)
        requires
            old(self).at_front(),
            is_digit_char(first),
            text.len() > 0,
            text[0] == first,
            old(self).remaining() == text.skip(1),
            old(self).current_string@ == seq![first],
        ensures
            scan_result_view(result) == crate::frontend::lexical::scan_number(
                text,
                old(self).token_start,
            ).outcome,
            crate::frontend::lexical::scan_number(text, old(self).token_start).consumed >= 1,
            final(self).has_read(
                *old(self),
                (crate::frontend::lexical::scan_number(text, old(self).token_start).consumed
                    - 1) as nat,
            ),
    {
        let ghost tail = text.skip(1);
        let ghost start = self.current_position;
        let mut value: i64 = digit_value(first);
        let mut fits = true;
        let ghost mut n: nat = 0;
        proof {
            assert(tail.take(0) == Seq::<char>::empty());
            assert(tail.skip(0) == tail);
            assert(text.take(1) == seq![first]);
            assert(seq![first].drop_last() == Seq::<char>::empty());
            assert(decimal_value(Seq::<char>::empty()) == 0);
            assert(decimal_value(seq![first]) == first as u32 - '0' as u32);
        }
        loop
            invariant_except_break
                self.at_front(),
            invariant
                n <= tail.len(),
                self.remaining() == tail.skip(n as int),
                self.current_position == start.after_all(tail.take(n as int)),
                self.current_string@ == text.take((n + 1) as int),
                self.token_start == old(self).token_start,
                forall|i: int| 0 <= i < n ==> is_digit_char(#[trigger] tail[i]),
                fits ==> value == decimal_value(text.take((n + 1) as int)),
                !fits ==> decimal_value(text.take((n + 1) as int)) > i64::MAX,
                0 <= value,
                text.len() > 0,
                tail == text.skip(1),
                is_digit_char(text[0]),
            ensures
                self.at_front(),
                n < tail.len() ==> !is_digit_char(tail[n as int]),
            decreases tail.len() - n,
        {
            let found = peek_char(&mut self.source);
            let digit = match found {
                Some(ch) => if is_digit(ch) {
                    Some(ch)
                } else {
                    None
                },
                None => None,
            };
            match digit {
                None => {
                    rewind_peek(&mut self.source);
                    break ;
                },
                Some(ch) => {
                    let _ = self.advance();
                    proof {
                        assert(tail.take((n + 1) as int).drop_last() == tail.take(n as int));
                        assert(tail.skip(n as int).skip(1) == tail.skip((n + 1) as int));
                        assert(text.take((n + 2) as int).drop_last() == text.take((n + 1) as int));
                        assert(text.take((n + 2) as int) == text.take((n + 1) as int).push(ch));
                        assert(text.take((n + 2) as int).last() == ch);
                        assert(tail[n as int] == ch);
                    }
                    let d = digit_value(ch);
                    if fits && value <= (i64::MAX - d) / 10 {
                        value = value * 10 + d;
                    } else {
                        fits = false;
                    }
                    proof {
                        n = n + 1;
                    }
                },
            }
        }
        proof {
            lemma_run_len_is(tail, CharClass::Digit, n);
            assert(text.drop_first() == tail);
            assert(run_len(text, CharClass::Digit) == n + 1);
        }
        let ghost whole = n + 1;
        let ghost middle = *self;
        let ghost after = text.skip(whole as int);
        assert(after == tail.skip(n as int));
        let dot = peek_char(&mut self.source);
        let follower = peek_char(&mut self.source);
        rewind_peek(&mut self.source);
        let fraction = match (dot, follower) {
            (Some(d), Some(f)) => d == '.' && is_digit(f),
            _ => false,
        };
        assert(fraction == (after.len() >= 2 && after[0] == '.' && is_digit_char(after[1])));
        if fraction {
            let _ = self.advance();
            let ghost at_fraction = *self;
            self.take_run(CharClass::Digit);
            proof {
                let m = run_len(after.skip(1), CharClass::Digit);
                lemma_run_len_bound(after.skip(1), CharClass::Digit);
                assert(after.take(1) == seq!['.']);
                lemma_after_all_one(middle.current_position, '.');
                assert(at_fraction.has_read(middle, 1));
                self.lemma_has_read_twice(at_fraction, middle, 1, m);
                assert(middle.has_read(*old(self), n));
                self.lemma_has_read_twice(middle, *old(self), n, 1 + m);
                assert(text.take(whole as int).push('.') + after.skip(1).take(m as int)
                    == text.take((whole + 1 + m) as int));
            }
            Err(ScanError::UnknownCharacter(self.token_start, self.current_string.clone()))
        } else if fits {
            proof {
                assert(self.has_read(*old(self), n));
            }
            self.make_token(Lexeme::NumberLiteral(value))
        } else {
            proof {
                assert(self.has_read(*old(self), n));
            }
            Err(ScanError::UnknownCharacter(self.token_start, self.current_string.clone()))
        }
    }

    /// Takes a word whose first character has been taken: a reserved word or an identifier.
    fn make_identifier(&mut self) -> (result: Result<Token, ScanError>)
        requires
            old(self).at_front(),
        ensures
            final(self).has_read(*old(self), run_len(old(self).remaining(), CharClass::Word)),
            result matches Ok(token) && token.position == old(self).token_start && token.lexeme@
                == word_lexeme(
                old(self).current_string@ + old(self).remaining().take(
                    run_len(old(self).remaining(), CharClass::Word) as int,
                ),
            ),
    {
        self.scan_word();
        let token_type = self.check_identifier_type();
        self.make_token(token_type)
    }

    /// Takes a map key whose colon has been taken: the word that follows is its name.
    fn make_map_key(&mut self) -> (result: Result<Token, ScanError>)
        requires
            old(self).at_front(),
        ensures
            final(self).has_read(*old(self), run_len(old(self).remaining(), CharClass::Word)),
            result matches Ok(token) && token.position == old(self).token_start && token.lexeme@
                == LexemeView::MapKey(
                old(self).remaining().take(run_len(old(self).remaining(), CharClass::Word) as int),
            ),
    {
        self.current_string = String::new();
        self.scan_word();
        self.make_token(Lexeme::MapKey(self.current_string.clone()))
    }

    /// Takes the longest run of word characters.
    fn scan_word(&mut self)
        requires
            old(self).at_front(),
        ensures
            final(self).has_read(*old(self), run_len(old(self).remaining(), CharClass::Word)),
            final(self).current_string@ == old(self).current_string@ + old(
                self,
            ).remaining().take(run_len(old(self).remaining(), CharClass::Word) as int),
    {
        self.take_run(CharClass::Word)
    }

    /// The lexeme of the word that has been taken.
    fn check_identifier_type(&self) -> (lexeme: Lexeme)
        ensures
            lexeme@ == word_lexeme(self.current_string@),
    {
        let word = &self.current_string;
        if spells(word, "and") {
            Lexeme::And
        } else if spells(word, "or") {
            Lexeme::Or
        } else if spells(word, "def") {
            Lexeme::Def
        } else if spells(word, "defn") {
            Lexeme::Defn
        } else if spells(word, "main") {
            Lexeme::Main
        } else if spells(word, "print") {
            Lexeme::Print
        } else if spells(word, "nil") {
            Lexeme::Nil
        } else if spells(word, "true") {
            Lexeme::True
        } else if spells(word, "false") {
            Lexeme::False
        } else if spells(word, "cond") {
            Lexeme::Cond
        } else if spells(word, "for") {
            Lexeme::For
        } else {
            Lexeme::Identifier(word.clone())
        }
    }

    /// A token of `token_type` at the position where the current token started.
    fn make_token(&self, token_type: Lexeme) -> (result: Result<Token, ScanError>)
        ensures
            result == Ok::<Token, ScanError>(
                Token { lexeme: token_type, position: self.token_start },
            ),
    {
        Ok(Token { lexeme: token_type, position: self.token_start })
    }
}

/// The lexeme of a word: the reserved word that it spells, else an identifier.
pub open spec fn word_lexeme(word: Seq<char>) -> LexemeView {
    match keyword(word) {
        Some(reserved) => reserved,
        None => LexemeView::Identifier(word),
    }
}

/// The value of a decimal digit.
fn digit_value(c: char) -> (d: i64)
    requires
        is_digit_char(c),
    ensures
        d == c as u32 - '0' as u32,
        0 <= d <= 9,
{
    (c as u32 - '0' as u32) as i64
}

/// `tokens` before what is still to come: the tokens that follow, or the failure.
pub open spec fn scanned_before(
    tokens: Seq<TokenView>,
    rest: Result<Seq<TokenView>, ScanErrorView>,
) -> Result<Seq<TokenView>, ScanErrorView> {
    match rest {
        Ok(more) => Ok(tokens + more),
        Err(error) => Err(error),
    }
}

/// Scans the whole of `source` into a stream of tokens that ends with the end-of-file token.
/// Whitespace and comments are left out. Scanning stops at the first text that is no token.
pub fn scan_into_peekable(source: String) -> (result: Result<TokenStream, ScanError>)
    ensures
        match result {
            Ok(stream) => tokens_of(source@) == Ok::<Seq<TokenView>, ScanErrorView>(stream@),
            Err(error) => tokens_of(source@) == Err::<Seq<TokenView>, ScanErrorView>(error@),
        },
{
    let mut scanner = Scanner::new(&source);
    let mut tokens = TokenStream::new();
    proof {
        assert(tokens@ + scan_from(source@, scanner.position())->Ok_0 == scan_from(
            source@,
            scanner.position(),
        )->Ok_0);
    }
    loop
        invariant
            tokens_of(source@) == scanned_before(
                tokens@,
                scan_from(scanner.remaining(), scanner.position()),
            ),
        decreases scanner.remaining().len(),
    {
        let ghost text = scanner.remaining();
        let ghost start = scanner.position();
        let ghost before = tokens@;
        proof {
            lemma_scan_one_consumes(text, start);
        }
        match scanner.scan_token() {
            Err(error) => {
                return Err(error);
            },
            Ok(token) => {
                let skipped = match &token.lexeme {
                    Lexeme::Whitespace => true,
                    Lexeme::Comment => true,
                    _ => false,
                };
                let last = match &token.lexeme {
                    Lexeme::EOF => true,
                    _ => false,
                };
                if !skipped {
                    tokens.push(token);
                }
                proof {
                    if text.len() > 0 {
                        let rest = scan_from(scanner.remaining(), scanner.position());
                        if rest is Ok {
                            assert(before + (seq![token@] + rest->Ok_0) == before.push(token@)
                                + rest->Ok_0);
                        }
                    } else {
                        assert(before + seq![token@] == before.push(token@));
                    }
                }
                if last {
                    return Ok(tokens);
                }
            },
        }
    }
}

} // verus!
