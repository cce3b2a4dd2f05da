//! The grammar: which tree a sequence of tokens stands for.

use crate::frontend::ast::{ConstantView, NodeView};
use crate::frontend::lexical::tokens_of;
use crate::frontend::scanner::{LexemeView, Position, ScanErrorView, TokenView};
use vstd::prelude::*;

verus! {

/// A parsing failure, with texts as sequences of characters.
pub enum ParseErrorView {
    ScanError(ScanErrorView),
    UnexpectedEndOfFile,
    UnexpectedToken(Position, LexemeView),
    InvalidFunctionName(Position, LexemeView),
}

/// What parsing one construct yields: the construct or the failure, and the tokens that are
/// left after it.
pub struct Parsed<T> {
    pub result: Result<T, ParseErrorView>,
    pub rest: Seq<TokenView>,
}

/// The construct `value`, with `rest` left.
pub open spec fn parsed<T>(value: T, rest: Seq<TokenView>) -> Parsed<T> {
    Parsed { result: Ok(value), rest }
}

/// The failure `error`, with `rest` left.
pub open spec fn failed<T>(error: ParseErrorView, rest: Seq<TokenView>) -> Parsed<T> {
    Parsed { result: Err(error), rest }
}

/// The failure on the token `token`, which is not valid where it stands.
pub open spec fn unexpected(token: TokenView) -> ParseErrorView {
    ParseErrorView::UnexpectedToken(token.position, token.lexeme)
}

/// `first` before what `more` holds; the failure of `more` where it failed.
pub open spec fn preceded<T>(first: Seq<T>, more: Parsed<Seq<T>>) -> Parsed<Seq<T>> {
    Parsed {
        result: match more.result {
            Ok(items) => Ok(first + items),
            Err(error) => Err(error),
        },
        rest: more.rest,
    }
}

/// Whether the tokens are used up: none is left, or the end-of-file token is next.
pub open spec fn at_end(tokens: Seq<TokenView>) -> bool {
    tokens.len() == 0 || tokens[0].lexeme is EOF
}

/// Whether the integer `value` fits the 32 bits of the target's numbers.
pub open spec fn fits_target(value: i64) -> bool {
    i32::MIN <= value <= i32::MAX
}

/// The node that a single token stands for inside a list, a vector or a map: a constant for a
/// literal, a keyword for `+ - and or print`, a variable for an identifier, and the null node
/// for every other token. An integer literal outside the target's 32 bits is not valid.
pub open spec fn item_of(token: TokenView) -> Result<NodeView, ParseErrorView> {
    match token.lexeme {
        LexemeView::NumberLiteral(value) => {
            if fits_target(value) {
                Ok(NodeView::Constant(ConstantView::IntegerLiteral(value as i32)))
            } else {
                Err(unexpected(token))
            }
        },
        LexemeView::StringLiteral(text) => Ok(NodeView::Constant(ConstantView::StringLiteral(text))),
        LexemeView::Plus => Ok(NodeView::Keyword(LexemeView::Plus)),
        LexemeView::Minus => Ok(NodeView::Keyword(LexemeView::Minus)),
        LexemeView::And => Ok(NodeView::Keyword(LexemeView::And)),
        LexemeView::Or => Ok(NodeView::Keyword(LexemeView::Or)),
        LexemeView::Print => Ok(NodeView::Keyword(LexemeView::Print)),
        LexemeView::Identifier(name) => Ok(NodeView::Variable(name)),
        _ => Ok(NodeView::Null),
    }
}

/// The items of a vector whose `[` has been taken: one item for each token up to the `]`.
pub open spec fn vector_items(tokens: Seq<TokenView>) -> Parsed<Seq<NodeView>>
    decreases tokens.len(),
{
    if at_end(tokens) {
        failed(ParseErrorView::UnexpectedEndOfFile, tokens)
    } else if tokens[0].lexeme is RightBracket {
        parsed(Seq::empty(), tokens.skip(1))
    } else {
        match item_of(tokens[0]) {
            Err(error) => failed(error, tokens.skip(1)),
            Ok(item) => preceded(seq![item], vector_items(tokens.skip(1))),
        }
    }
}

/// The vector whose `[` has been taken.
pub open spec fn vector(tokens: Seq<TokenView>) -> Parsed<NodeView> {
    let items = vector_items(tokens);
    Parsed {
        result: match items.result {
            Ok(nodes) => Ok(NodeView::Vector(nodes)),
            Err(error) => Err(error),
        },
        rest: items.rest,
    }
}

/// The entries of a map whose `{` has been taken, up to the `}`. A map key takes the token
/// after it as its value; any other token is a value under the empty key.
pub open spec fn map_items(tokens: Seq<TokenView>) -> Parsed<Seq<(Seq<char>, NodeView)>>
    decreases tokens.len(),
{
    if at_end(tokens) {
        failed(ParseErrorView::UnexpectedEndOfFile, tokens)
    } else if tokens[0].lexeme is RightBrace {
        parsed(Seq::empty(), tokens.skip(1))
    } else if tokens[0].lexeme is MapKey {
        let after_key = tokens.skip(1);
        if at_end(after_key) {
            failed(ParseErrorView::UnexpectedEndOfFile, after_key)
        } else {
            match item_of(after_key[0]) {
                Err(error) => failed(error, after_key.skip(1)),
                Ok(value) => preceded(
                    seq![(tokens[0].lexeme->MapKey_0, value)],
                    map_items(after_key.skip(1)),
                ),
            }
        }
    } else {
        match item_of(tokens[0]) {
            Err(error) => failed(error, tokens.skip(1)),
            Ok(value) => preceded(seq![(Seq::empty(), value)], map_items(tokens.skip(1))),
        }
    }
}

/// The map whose `{` has been taken.
pub open spec fn mapping(tokens: Seq<TokenView>) -> Parsed<NodeView> {
    let items = map_items(tokens);
    Parsed {
        result: match items.result {
            Ok(entries) => Ok(NodeView::Mapping(entries)),
            Err(error) => Err(error),
        },
        rest: items.rest,
    }
}

/// The items of a list whose `(` has been taken, up to the `)` that closes it: a list for
/// each nested `(`, an item for each other token.
pub open spec fn list_items(tokens: Seq<TokenView>) -> Parsed<Seq<NodeView>>
    decreases tokens.len(), 0nat,
{
    if at_end(tokens) {
        failed(ParseErrorView::UnexpectedEndOfFile, tokens)
    } else if tokens[0].lexeme is RightParen {
        parsed(Seq::empty(), tokens.skip(1))
    } else if tokens[0].lexeme is LeftParen {
        let inner = seq_list(tokens.skip(1));
        match inner.result {
            Err(error) => failed(error, inner.rest),
            Ok(node) => {
                // A list always takes tokens (`lemma_list_takes_tokens`): the first case holds.
                if inner.rest.len() < tokens.len() {
                    preceded(seq![node], list_items(inner.rest))
                } else {
                    failed(ParseErrorView::UnexpectedEndOfFile, inner.rest)
                }
            },
        }
    } else {
        match item_of(tokens[0]) {
            Err(error) => failed(error, tokens.skip(1)),
            Ok(item) => preceded(seq![item], list_items(tokens.skip(1))),
        }
    }
}

/// The list whose `(` has been taken: its first item is the head, the others are the rest. A
/// list without items is not valid.
pub open spec fn seq_list(tokens: Seq<TokenView>) -> Parsed<NodeView>
    decreases tokens.len(), 1nat,
{
    let items = list_items(tokens);
    Parsed {
        result: match items.result {
            Ok(nodes) => {
                if nodes.len() == 0 {
                    Err(ParseErrorView::UnexpectedEndOfFile)
                } else {
                    Ok(NodeView::List { head: Box::new(nodes[0]), rest: nodes.skip(1) })
                }
            },
            Err(error) => Err(error),
        },
        rest: items.rest,
    }
}

/// Parsing the items of a list leaves a suffix of the tokens, and a shorter one where it
/// succeeds.
pub proof fn lemma_list_takes_tokens(tokens: Seq<TokenView>)
    ensures
        list_items(tokens).rest.len() <= tokens.len(),
        list_items(tokens).result is Ok ==> list_items(tokens).rest.len() < tokens.len(),
        seq_list(tokens).rest == list_items(tokens).rest,
        seq_list(tokens).result is Ok ==> list_items(tokens).result is Ok,
    decreases tokens.len(),
{
    if at_end(tokens) {
    } else if tokens[0].lexeme is RightParen {
    } else if tokens[0].lexeme is LeftParen {
        lemma_list_takes_tokens(tokens.skip(1));
        let inner = seq_list(tokens.skip(1));
        if inner.result is Ok {
            lemma_list_takes_tokens(inner.rest);
        }
    } else {
        lemma_list_takes_tokens(tokens.skip(1));
    }
}

/// Parsing the items of a vector leaves a suffix of the tokens, and a shorter one where it
/// succeeds.
pub proof fn lemma_vector_takes_tokens(tokens: Seq<TokenView>)
    ensures
        vector_items(tokens).rest.len() <= tokens.len(),
        vector_items(tokens).result is Ok ==> vector_items(tokens).rest.len() < tokens.len(),
    decreases tokens.len(),
{
    if !at_end(tokens) && !(tokens[0].lexeme is RightBracket) {
        lemma_vector_takes_tokens(tokens.skip(1));
    }
}

/// Parsing the entries of a map leaves a suffix of the tokens, and a shorter one where it
/// succeeds.
pub proof fn lemma_map_takes_tokens(tokens: Seq<TokenView>)
    ensures
        map_items(tokens).rest.len() <= tokens.len(),
        map_items(tokens).result is Ok ==> map_items(tokens).rest.len() < tokens.len(),
    decreases tokens.len(),
{
    if at_end(tokens) {
    } else if tokens[0].lexeme is RightBrace {
    } else if tokens[0].lexeme is MapKey {
        if !at_end(tokens.skip(1)) {
            lemma_map_takes_tokens(tokens.skip(1).skip(1));
        }
    } else {
        lemma_map_takes_tokens(tokens.skip(1));
    }
}

/// The forms of a function body, up to the `)` that closes the definition: each form is a
/// list in its own parentheses. No other token is valid there.
pub open spec fn function_body(tokens: Seq<TokenView>) -> Parsed<Seq<NodeView>>
    decreases tokens.len(),
{
    if at_end(tokens) {
        failed(ParseErrorView::UnexpectedEndOfFile, tokens)
    } else if tokens[0].lexeme is RightParen {
        parsed(Seq::empty(), tokens.skip(1))
    } else if tokens[0].lexeme is LeftParen {
        let form = seq_list(tokens.skip(1));
        match form.result {
            Err(error) => failed(error, form.rest),
            Ok(node) => {
                proof {
                    lemma_list_takes_tokens(tokens.skip(1));
                }
                preceded(seq![node], function_body(form.rest))
            },
        }
    } else {
        failed(unexpected(tokens[0]), tokens.skip(1))
    }
}

/// Parsing a function body leaves a suffix of the tokens, and a shorter one where it succeeds.
pub proof fn lemma_body_takes_tokens(tokens: Seq<TokenView>)
    ensures
        function_body(tokens).rest.len() <= tokens.len(),
        function_body(tokens).result is Ok ==> function_body(tokens).rest.len() < tokens.len(),
    decreases tokens.len(),
{
    if !at_end(tokens) && tokens[0].lexeme is LeftParen {
        lemma_list_takes_tokens(tokens.skip(1));
        if seq_list(tokens.skip(1)).result is Ok {
            lemma_body_takes_tokens(seq_list(tokens.skip(1)).rest);
        }
    }
}

/// The function definition whose `(` has been taken: `defn`, the name, the parameters in
/// brackets and the body. The name `main` makes it the entry function, which keeps no name.
pub open spec fn function_definition(tokens: Seq<TokenView>) -> Parsed<NodeView> {
    if at_end(tokens) {
        failed(ParseErrorView::UnexpectedEndOfFile, tokens)
    } else if !(tokens[0].lexeme is Defn) {
        failed(unexpected(tokens[0]), tokens.skip(1))
    } else {
        let at_name = tokens.skip(1);
        if at_end(at_name) {
            failed(ParseErrorView::UnexpectedEndOfFile, at_name)
        } else if !(at_name[0].lexeme is Main || at_name[0].lexeme is Identifier) {
            failed(
                ParseErrorView::InvalidFunctionName(at_name[0].position, at_name[0].lexeme),
                at_name.skip(1),
            )
        } else {
            let at_parameters = at_name.skip(1);
            if at_end(at_parameters) {
                failed(ParseErrorView::UnexpectedEndOfFile, at_parameters)
            } else if !(at_parameters[0].lexeme is LeftBracket) {
                failed(unexpected(at_parameters[0]), at_parameters.skip(1))
            } else {
                let parameters = vector_items(at_parameters.skip(1));
                match parameters.result {
                    Err(error) => failed(error, parameters.rest),
                    Ok(args) => {
                        let forms = function_body(parameters.rest);
                        match forms.result {
                            Err(error) => failed(error, forms.rest),
                            Ok(body) => parsed(
                                match at_name[0].lexeme {
                                    LexemeView::Identifier(name) => NodeView::Function {
                                        name: Box::new(NodeView::Variable(name)),
                                        args,
                                        body,
                                    },
                                    _ => NodeView::Main { args, body },
                                },
                                forms.rest,
                            ),
                        }
                    },
                }
            }
        }
    }
}

/// The form in parentheses whose `(` has been taken: a function definition where `defn` comes
/// first, else a list.
pub open spec fn list(tokens: Seq<TokenView>) -> Parsed<NodeView> {
    if tokens.len() > 0 && tokens[0].lexeme is Defn {
        function_definition(tokens)
    } else {
        seq_list(tokens)
    }
}

/// One form at the top of a program: a form in parentheses, a map in braces or a vector in
/// brackets. No other token starts a form.
pub open spec fn form(tokens: Seq<TokenView>) -> Parsed<NodeView> {
    if at_end(tokens) {
        failed(ParseErrorView::UnexpectedEndOfFile, tokens)
    } else if tokens[0].lexeme is LeftParen {
        list(tokens.skip(1))
    } else if tokens[0].lexeme is LeftBrace {
        mapping(tokens.skip(1))
    } else if tokens[0].lexeme is LeftBracket {
        vector(tokens.skip(1))
    } else {
        failed(unexpected(tokens[0]), tokens.skip(1))
    }
}

/// Parsing a form leaves a suffix of the tokens, and a shorter one where it succeeds.
pub proof fn lemma_form_takes_tokens(tokens: Seq<TokenView>)
    ensures
        form(tokens).rest.len() <= tokens.len(),
        form(tokens).result is Ok ==> form(tokens).rest.len() < tokens.len(),
        list(tokens).rest.len() <= tokens.len(),
        function_definition(tokens).rest.len() <= tokens.len(),
{
    lemma_list_takes_tokens(tokens);
    if tokens.len() > 0 {
        let inside = tokens.skip(1);
        lemma_list_takes_tokens(inside);
        lemma_map_takes_tokens(inside);
        lemma_vector_takes_tokens(inside);
        lemma_definition_takes_tokens(inside);
    }
    lemma_definition_takes_tokens(tokens);
}

/// Parsing a function definition leaves a suffix of the tokens.
pub proof fn lemma_definition_takes_tokens(tokens: Seq<TokenView>)
    ensures
        function_definition(tokens).rest.len() <= tokens.len(),
{
    if tokens.len() >= 3 {
        let inside = tokens.skip(1).skip(1).skip(1);
        lemma_vector_takes_tokens(inside);
        lemma_body_takes_tokens(vector_items(inside).rest);
    }
}

/// The forms of a program, up to the end-of-file token. Tokens that run out before that token
/// are a failure.
pub open spec fn program(tokens: Seq<TokenView>) -> Result<Seq<NodeView>, ParseErrorView>
    decreases tokens.len(),
{
    if tokens.len() == 0 {
        Err(ParseErrorView::UnexpectedEndOfFile)
    } else if tokens[0].lexeme is EOF {
        Ok(Seq::empty())
    } else {
        let first = form(tokens);
        match first.result {
            Err(error) => Err(error),
            Ok(node) => {
                proof {
                    lemma_form_takes_tokens(tokens);
                }
                match program(first.rest) {
                    Ok(nodes) => Ok(seq![node] + nodes),
                    Err(error) => Err(error),
                }
            },
        }
    }
}

/// The forms of a source text: those of its tokens, or the failure of the scanner.
pub open spec fn parse_text(text: Seq<char>) -> Result<Seq<NodeView>, ParseErrorView> {
    match tokens_of(text) {
        Ok(tokens) => program(tokens),
        Err(error) => Err(ParseErrorView::ScanError(error)),
    }
}

} // verus!
