//! The lexical grammar: which token a text starts with.

use crate::frontend::scanner::{LexemeView, Position, ScanErrorView, TokenView};
use vstd::prelude::*;

verus! {

/// Space, carriage return, tab and newline separate tokens.
pub open spec fn is_whitespace_char(c: char) -> bool {
    c == ' ' || c == '\r' || c == '\t' || c == '\n'
}

/// The decimal digits.
pub open spec fn is_digit_char(c: char) -> bool {
    '0' <= c <= '9'
}

/// The characters that may start a word: the ASCII letters and the underscore.
pub open spec fn is_alpha_char(c: char) -> bool {
    ('a' <= c <= 'z') || ('A' <= c <= 'Z') || c == '_'
}

/// A set of characters that a run of the scanner is made of.
#[derive(Debug, Copy, Clone, PartialEq, Eq, Structural)]
pub enum CharClass {
    /// The decimal digits.
    Digit,
    /// Letters, digits and the underscore.
    Word,
    /// Everything but the double quote.
    StringBody,
    /// Everything but the newline.
    CommentBody,
}

impl CharClass {
    /// Whether `c` belongs to this class.
    pub open spec fn holds(self, c: char) -> bool {
        match self {
            CharClass::Digit => is_digit_char(c),
            CharClass::Word => is_alpha_char(c) || is_digit_char(c),
            CharClass::StringBody => c != '"',
            CharClass::CommentBody => c != '\n',
        }
    }

    /// Whether `c` belongs to this class.
    pub fn has(self, c: char) -> (b: bool)
        ensures
            b == self.holds(c),
    {
        match self {
            CharClass::Digit => is_digit(c),
            CharClass::Word => is_alpha(c) || is_digit(c),
            CharClass::StringBody => c != '"',
            CharClass::CommentBody => c != '\n',
        }
    }
}

/// Whether `c` separates tokens.
pub fn is_whitespace(c: char) -> (b: bool)
    ensures
        b == is_whitespace_char(c),
{
    c == ' ' || c == '\r' || c == '\t' || c == '\n'
}

/// Whether `c` is a decimal digit.
pub fn is_digit(c: char) -> (b: bool)
    ensures
        b == is_digit_char(c),
{
    c >= '0' && c <= '9'
}

/// Whether `c` may start a word.
pub fn is_alpha(c: char) -> (b: bool)
    ensures
        b == is_alpha_char(c),
{
    (c >= 'a' && c <= 'z') || (c >= 'A' && c <= 'Z') || c == '_'
}

/// The length of the longest prefix of `text` whose characters all belong to `class`.
pub open spec fn run_len(text: Seq<char>, class: CharClass) -> nat
    decreases text.len(),
{
    if text.len() > 0 && class.holds(text[0]) {
        1 + run_len(text.drop_first(), class)
    } else {
        0
    }
}

/// A run is a prefix: it is no longer than the text.
pub proof fn lemma_run_len_bound(text: Seq<char>, class: CharClass)
    ensures
        run_len(text, class) <= text.len(),
    decreases text.len(),
{
    if text.len() > 0 && class.holds(text[0]) {
        lemma_run_len_bound(text.drop_first(), class);
    }
}

/// The characters of a run belong to the class, and the character after it, if there is one,
/// does not.
pub proof fn lemma_run_len_stops(text: Seq<char>, class: CharClass)
    ensures
        run_len(text, class) <= text.len(),
        forall|i: int| 0 <= i < run_len(text, class) ==> class.holds(#[trigger] text[i]),
        run_len(text, class) < text.len() ==> !class.holds(text[run_len(text, class) as int]),
    decreases text.len(),
{
    if text.len() > 0 && class.holds(text[0]) {
        let rest = text.drop_first();
        lemma_run_len_stops(rest, class);
        assert forall|i: int| 0 <= i < run_len(text, class) implies class.holds(
            #[trigger] text[i],
        ) by {
            if i > 0 {
                assert(text[i] == rest[i - 1]);
            }
        }
        if run_len(text, class) < text.len() {
            assert(text[run_len(text, class) as int] == rest[run_len(rest, class) as int]);
        }
    }
}

/// A prefix of `n` characters of the class that ends the text, or is followed by a character
/// outside the class, is the run.
pub proof fn lemma_run_len_is(text: Seq<char>, class: CharClass, n: nat)
    requires
        n <= text.len(),
        forall|i: int| 0 <= i < n ==> class.holds(#[trigger] text[i]),
        n < text.len() ==> !class.holds(text[n as int]),
    ensures
        run_len(text, class) == n,
    decreases text.len(),
{
    if n > 0 {
        let rest = text.drop_first();
        assert forall|i: int| 0 <= i < n - 1 implies class.holds(#[trigger] rest[i]) by {
            assert(rest[i] == text[i + 1]);
        }
        lemma_run_len_is(rest, class, (n - 1) as nat);
    }
}

/// The number that a sequence of decimal digits writes.
pub open spec fn decimal_value(digits: Seq<char>) -> nat
    decreases digits.len(),
{
    if digits.len() == 0 {
        0
    } else {
        (decimal_value(digits.drop_last()) * 10 + (digits.last() as u32 - '0' as u32)) as nat
    }
}

/// The reserved word that `word` spells, if it spells one.
pub open spec fn keyword(word: Seq<char>) -> Option<LexemeView> {
    if word == "and"@ {
        Some(LexemeView::And)
    } else if word == "or"@ {
        Some(LexemeView::Or)
    } else if word == "def"@ {
        Some(LexemeView::Def)
    } else if word == "defn"@ {
        Some(LexemeView::Defn)
    } else if word == "main"@ {
        Some(LexemeView::Main)
    } else if word == "print"@ {
        Some(LexemeView::Print)
    } else if word == "nil"@ {
        Some(LexemeView::Nil)
    } else if word == "true"@ {
        Some(LexemeView::True)
    } else if word == "false"@ {
        Some(LexemeView::False)
    } else if word == "cond"@ {
        Some(LexemeView::Cond)
    } else if word == "for"@ {
        Some(LexemeView::For)
    } else {
        None
    }
}

/// What scanning one token yields: the token or the error, and how many characters of the
/// text it took.
pub struct Scan {
    pub outcome: Result<TokenView, ScanErrorView>,
    pub consumed: nat,
}

/// A token of `lexeme` that starts at `start` and takes `consumed` characters.
pub open spec fn token_of(lexeme: LexemeView, start: Position, consumed: nat) -> Scan {
    Scan { outcome: Ok(TokenView { lexeme, position: start }), consumed }
}

/// A failure on the `consumed` characters `text` that start at `start`.
pub open spec fn failure_of(text: Seq<char>, start: Position, consumed: nat) -> Scan {
    Scan { outcome: Err(ScanErrorView::UnknownCharacter(start, text)), consumed }
}

/// Whether `text` starts with the character `c`.
pub open spec fn starts_with(text: Seq<char>, c: char) -> bool {
    text.len() > 0 && text[0] == c
}

/// The token that starts with one of `!`, `=`, `>`, `<`: the two-character operator where an
/// `=` follows, else the single character.
pub open spec fn scan_operator(
    tail: Seq<char>,
    start: Position,
    single: LexemeView,
    with_equal: LexemeView,
) -> Scan {
    if starts_with(tail, '=') {
        token_of(with_equal, start, 2)
    } else {
        token_of(single, start, 1)
    }
}

/// The token that starts with `/`, where `tail` follows the slash: a comment that runs to the
/// end of the line, newline included, where a second slash follows; else the slash alone.
pub open spec fn scan_slash(tail: Seq<char>, start: Position) -> Scan {
    if starts_with(tail, '/') {
        let body = tail.skip(1);
        let n = run_len(body, CharClass::CommentBody);
        if n < body.len() {
            token_of(LexemeView::Comment, start, n + 3)
        } else {
            token_of(LexemeView::Comment, start, n + 2)
        }
    } else {
        token_of(LexemeView::Slash, start, 1)
    }
}

/// The token that starts with `:`, where `tail` follows the colon: the bare colon, which takes
/// the space after it too, or a map key named by the word that follows.
pub open spec fn scan_colon(tail: Seq<char>, start: Position) -> Scan {
    if starts_with(tail, ' ') {
        token_of(LexemeView::Colon, start, 2)
    } else {
        let n = run_len(tail, CharClass::Word);
        token_of(LexemeView::MapKey(tail.take(n as int)), start, n + 1)
    }
}

/// The token that starts with a double quote, where `tail` follows it: the characters up to
/// the next double quote, without the quotes. Without a closing quote there is no token.
pub open spec fn scan_string(tail: Seq<char>, start: Position) -> Scan {
    let n = run_len(tail, CharClass::StringBody);
    if n < tail.len() {
        token_of(LexemeView::StringLiteral(tail.take(n as int)), start, n + 2)
    } else {
        failure_of(tail, start, n + 1)
    }
}

/// The token that starts with a digit, where `text` starts with that digit: a run of digits,
/// and a fraction of a dot and a run of digits where a digit follows the dot. Only a run of
/// digits that writes a number up to `i64::MAX` is a token.
pub open spec fn scan_number(text: Seq<char>, start: Position) -> Scan {
    let whole = run_len(text, CharClass::Digit);
    let after = text.skip(whole as int);
    if after.len() >= 2 && after[0] == '.' && is_digit_char(after[1]) {
        let n = whole + 1 + run_len(after.skip(1), CharClass::Digit);
        failure_of(text.take(n as int), start, n)
    } else if decimal_value(text.take(whole as int)) <= i64::MAX {
        token_of(
            LexemeView::NumberLiteral(decimal_value(text.take(whole as int)) as i64),
            start,
            whole,
        )
    } else {
        failure_of(text.take(whole as int), start, whole)
    }
}

/// The token that starts with a letter or an underscore, where `text` starts with it: the
/// reserved word that the run of word characters spells, else an identifier.
pub open spec fn scan_word(text: Seq<char>, start: Position) -> Scan {
    let n = run_len(text, CharClass::Word);
    let word = text.take(n as int);
    match keyword(word) {
        Some(reserved) => token_of(reserved, start, n),
        None => token_of(LexemeView::Identifier(word), start, n),
    }
}

/// The token that `text` starts with, where the text starts at `start`, and the number of
/// characters that the token takes. An empty text gives the end-of-file token.
pub open spec fn scan_one(text: Seq<char>, start: Position) -> Scan {
    if text.len() == 0 {
        token_of(LexemeView::EOF, start, 0)
    } else {
        let c = text[0];
        let tail = text.skip(1);
        if c == '(' {
            token_of(LexemeView::LeftParen, start, 1)
        } else if c == ')' {
            token_of(LexemeView::RightParen, start, 1)
        } else if c == '{' {
            token_of(LexemeView::LeftBrace, start, 1)
        } else if c == '}' {
            token_of(LexemeView::RightBrace, start, 1)
        } else if c == '[' {
            token_of(LexemeView::LeftBracket, start, 1)
        } else if c == ']' {
            token_of(LexemeView::RightBracket, start, 1)
        } else if c == ':' {
            scan_colon(tail, start)
        } else if c == ',' {
            token_of(LexemeView::Comma, start, 1)
        } else if c == '.' {
            token_of(LexemeView::Dot, start, 1)
        } else if c == '-' {
            token_of(LexemeView::Minus, start, 1)
        } else if c == '+' {
            token_of(LexemeView::Plus, start, 1)
        } else if c == '*' {
            token_of(LexemeView::Star, start, 1)
        } else if c == '!' {
            scan_operator(tail, start, LexemeView::Bang, LexemeView::BangEqual)
        } else if c == '=' {
            scan_operator(tail, start, LexemeView::Equal, LexemeView::DoubleEqual)
        } else if c == '>' {
            scan_operator(tail, start, LexemeView::Greater, LexemeView::GreaterEqual)
        } else if c == '<' {
            scan_operator(tail, start, LexemeView::Less, LexemeView::LessEqual)
        } else if c == '/' {
            scan_slash(tail, start)
        } else if c == '"' {
            scan_string(tail, start)
        } else if is_whitespace_char(c) {
            token_of(LexemeView::Whitespace, start, 1)
        } else if is_digit_char(c) {
            scan_number(text, start)
        } else if is_alpha_char(c) {
            scan_word(text, start)
        } else {
            failure_of(seq![c], start, 1)
        }
    }
}

/// A token takes a prefix of the text, and at least one character unless the text is empty.
pub proof fn lemma_scan_one_consumes(text: Seq<char>, start: Position)
    ensures
        scan_one(text, start).consumed <= text.len(),
        text.len() > 0 ==> scan_one(text, start).consumed >= 1,
        text.len() > 0 ==> !(scan_one(text, start).outcome matches Ok(token)
            && token.lexeme is EOF),
{
    if text.len() > 0 {
        let c = text[0];
        let tail = text.skip(1);
        lemma_run_len_bound(tail, CharClass::Word);
        lemma_run_len_bound(tail, CharClass::StringBody);
        lemma_run_len_bound(text, CharClass::Word);
        lemma_run_len_bound(text, CharClass::Digit);
        if starts_with(tail, '/') {
            lemma_run_len_bound(tail.skip(1), CharClass::CommentBody);
        }
        if is_digit_char(c) {
            let whole = run_len(text, CharClass::Digit);
            let after = text.skip(whole as int);
            if after.len() >= 2 {
                lemma_run_len_bound(after.skip(1), CharClass::Digit);
            }
        }
        if is_alpha_char(c) {
            assert(text.drop_first() == tail);
        }
    }
}

/// The tokens of `text`, which starts at `start`, up to and with the end-of-file token, or the
/// first failure. Whitespace and comments are left out.
pub open spec fn scan_from(text: Seq<char>, start: Position) -> Result<
    Seq<TokenView>,
    ScanErrorView,
>
    decreases text.len(),
{
    let scan = scan_one(text, start);
    match scan.outcome {
        Err(error) => Err(error),
        Ok(token) => {
            if text.len() == 0 {
                Ok(seq![token])
            } else {
                proof {
                    lemma_scan_one_consumes(text, start);
                }
                let rest = scan_from(
                    text.skip(scan.consumed as int),
                    start.after_all(text.take(scan.consumed as int)),
                );
                match rest {
                    Err(error) => Err(error),
                    Ok(tokens) => {
                        if token.lexeme is Whitespace || token.lexeme is Comment {
                            Ok(tokens)
                        } else {
                            Ok(seq![token] + tokens)
                        }
                    },
                }
            }
        },
    }
}

/// The tokens of a whole text.
pub open spec fn tokens_of(text: Seq<char>) -> Result<Seq<TokenView>, ScanErrorView> {
    scan_from(text, Position { line: 1, column: 1 })
}

/// The tokens of a text end with the end-of-file token, which stands nowhere else among them,
/// and hold neither whitespace nor comments.
pub proof fn lemma_tokens_end_with_eof(text: Seq<char>, start: Position)
    requires
        scan_from(text, start) is Ok,
    ensures
        scan_from(text, start)->Ok_0.len() > 0,
        scan_from(text, start)->Ok_0.last().lexeme is EOF,
        forall|i: int|
            0 <= i < scan_from(text, start)->Ok_0.len() - 1 ==> !(#[trigger] scan_from(
                text,
                start,
            )->Ok_0[i].lexeme is EOF),
        forall|i: int|
            0 <= i < scan_from(text, start)->Ok_0.len() ==> !(#[trigger] scan_from(
                text,
                start,
            )->Ok_0[i].lexeme is Whitespace) && !(scan_from(text, start)->Ok_0[i].lexeme
                is Comment),
    decreases text.len(),
{
    let scan = scan_one(text, start);
    lemma_scan_one_consumes(text, start);
    if text.len() > 0 {
        lemma_tokens_end_with_eof(
            text.skip(scan.consumed as int),
            start.after_all(text.take(scan.consumed as int)),
        );
    }
}

} // verus!
