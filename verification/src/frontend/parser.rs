//! The recursive-descent parser.

use crate::frontend::ast::{
    items_view, nodes_view, ConstantLiteral, FunctionDetails, KeywordDetails, ListDetails,
    MainDetails, MapItem, Node, NodeView,
};
use crate::frontend::grammar::{
    at_end, form, function_body, function_definition, item_of, lemma_form_takes_tokens,
    lemma_list_takes_tokens, list, list_items, map_items, mapping, parse_text, preceded,
    program, seq_list, vector, vector_items, ParseErrorView, Parsed,
};
use crate::frontend::scanner::{scan_into_peekable, Lexeme, Position, ScanError, Token, TokenView};
use crate::frontend::stream::TokenStream;
use vstd::prelude::*;
use vstd::string::StringExecFns;

verus! {

/// Why parsing stopped.
#[derive(Debug, PartialEq)]
pub enum ParseError {
    /// The scanner failed.
    ScanError(ScanError),
    /// The tokens ran out where one was needed.
    UnexpectedEndOfFile,
    /// The token is not valid where it stands.
    UnexpectedToken(Position, Lexeme),
    /// The token stands where a function definition needs its name.
    InvalidFunctionName(Position, Lexeme),
}

impl View for ParseError {
    type V = ParseErrorView;

    open spec fn view(&self) -> ParseErrorView {
        match self {
            ParseError::ScanError(error) => ParseErrorView::ScanError(error@),
            ParseError::UnexpectedEndOfFile => ParseErrorView::UnexpectedEndOfFile,
            ParseError::UnexpectedToken(position, lexeme) => ParseErrorView::UnexpectedToken(
                *position,
                lexeme@,
            ),
            ParseError::InvalidFunctionName(position, lexeme) => {
                ParseErrorView::InvalidFunctionName(*position, lexeme@)
            },
        }
    }
}

/// What a call of the parser returned for one node, with the node or the error as its view.
pub open spec fn node_result_view(result: Result<Node, ParseError>) -> Result<
    NodeView,
    ParseErrorView,
> {
    match result {
        Ok(node) => Ok(node@),
        Err(error) => Err(error@),
    }
}

/// What a call of the parser returned for a program, with the nodes or the error as views.
pub open spec fn nodes_result_view(result: Result<Vec<Node>, ParseError>) -> Result<
    Seq<NodeView>,
    ParseErrorView,
> {
    match result {
        Ok(nodes) => Ok(nodes_view(nodes@)),
        Err(error) => Err(error@),
    }
}

/// `first` before the forms that are still to come; their failure where they fail.
pub open spec fn forms_before(
    first: Seq<NodeView>,
    more: Result<Seq<NodeView>, ParseErrorView>,
) -> Result<Seq<NodeView>, ParseErrorView> {
    match more {
        Ok(nodes) => Ok(first + nodes),
        Err(error) => Err(error),
    }
}

/// Nothing before what is to come changes nothing.
proof fn lemma_preceded_by_nothing<T>(more: Parsed<Seq<T>>)
    ensures
        preceded(Seq::empty(), more) == more,
{
    if let Ok(items) = more.result {
        assert(Seq::<T>::empty() + items == items);
    }
}

/// One more item before what is to come is one more item at the end of what came.
proof fn lemma_preceded_by_one_more<T>(first: Seq<T>, item: T, more: Parsed<Seq<T>>)
    ensures
        preceded(first, preceded(seq![item], more)) == preceded(first.push(item), more),
{
    if let Ok(items) = more.result {
        assert(first + (seq![item] + items) == first.push(item) + items);
    }
}

/// What is to come is nothing more: the items are those that came.
proof fn lemma_preceded_nothing_more<T>(first: Seq<T>, rest: Seq<TokenView>)
    ensures
        preceded(first, Parsed { result: Ok(Seq::<T>::empty()), rest }) == (Parsed {
            result: Ok(first),
            rest,
        }),
{
    assert(first + Seq::<T>::empty() == first);
}

/// Whether the tokens of `stream` are used up.
fn exhausted(stream: &TokenStream) -> (done: bool)
    ensures
        done == at_end(stream@),
{
    match stream.peek() {
        None => true,
        Some(token) => match &token.lexeme {
            Lexeme::EOF => true,
            _ => false,
        },
    }
}

/// Parses source text into the forms of a program.
pub struct Parser {
    source: String,
}

impl Parser {
    /// The source text of this parser.
    pub closed spec fn text(&self) -> Seq<char> {
        self.source@
    }

    /// A parser of `text`.
    pub fn new(text: &str) -> (parser: Parser)
        ensures
            parser.text() == text@,
    {
        Parser { source: String::from_str(text) }
    }

    /// Scans and parses the source text: the forms of the program in order, or the first
    /// failure of the scanner or of the grammar.
    pub fn parse(&self) -> (result: Result<Vec<Node>, ParseError>)
        ensures
            nodes_result_view(result) == parse_text(self.text()),
    {
        let mut tokens = match scan_into_peekable(self.source.clone()) {
            Ok(tokens) => tokens,
            Err(err) => {
                return Err(ParseError::ScanError(err));
            },
        };
        let ghost all = tokens@;
        let mut nodes: Vec<Node> = Vec::new();
        proof {
            if let Ok(forms) = program(all) {
                assert(Seq::<NodeView>::empty() + forms == forms);
            }
        }
        loop
            invariant
                parse_text(self.text()) == program(all),
                program(all) == forms_before(nodes_view(nodes@), program(tokens@)),
            decreases tokens@.len(),
        {
            let ghost before = tokens@;
            let ghost done = nodes_view(nodes@);
            match tokens.peek() {
                None => {
                    return Err(ParseError::UnexpectedEndOfFile);
                },
                Some(token) => {
                    let last = match &token.lexeme {
                        Lexeme::EOF => true,
                        _ => false,
                    };
                    if last {
                        proof {
                            assert(done + Seq::<NodeView>::empty() == done);
                        }
                        return Ok(nodes);
                    }
                },
            }
            proof {
                lemma_form_takes_tokens(before);
            }
            match self.parse_token_stream(&mut tokens) {
                Err(err) => {
                    return Err(err);
                },
                Ok(node) => {
                    nodes.push(node);
                    proof {
                        assert(nodes_view(nodes@) == done.push(node@));
                        if let Ok(forms) = program(tokens@) {
                            assert(done + (seq![node@] + forms) == done.push(node@) + forms);
                        }
                    }
                },
            }
        }
    }

    /// Parses one form at the top of a program.
    fn parse_token_stream(&self, tokens: &mut TokenStream) -> (result: Result<Node, ParseError>)
        ensures
            node_result_view(result) == form(old(tokens)@).result,
            final(tokens)@ == form(old(tokens)@).rest,
    {
        if exhausted(tokens) {
            return Err(ParseError::UnexpectedEndOfFile);
        }
        match tokens.next() {
            None => Err(ParseError::UnexpectedEndOfFile),
            Some(token) => match token.lexeme {
                Lexeme::LeftParen => self.parse_list(tokens),
                Lexeme::LeftBrace => self.parse_map(tokens),
                Lexeme::LeftBracket => self.parse_vector(tokens),
                random => Err(ParseError::UnexpectedToken(token.position, random)),
            },
        }
    }

    /// Parses the form in parentheses whose `(` has been taken.
    fn parse_list(&self, token_stream: &mut TokenStream) -> (result: Result<Node, ParseError>)
        ensures
            node_result_view(result) == list(old(token_stream)@).result,
            final(token_stream)@ == list(old(token_stream)@).rest,
    {
        let definition = match token_stream.peek() {
            Some(token) => match &token.lexeme {
                Lexeme::Defn => true,
                _ => false,
            },
            None => false,
        };
        if definition {
            self.parse_function_definition(token_stream)
        } else {
            self.parse_seq_list(token_stream)
        }
    }

    /// Parses the function definition whose `(` has been taken.
    fn parse_function_definition(&self, token_stream: &mut TokenStream) -> (result: Result<
        Node,
        ParseError,
    >)
        ensures
            node_result_view(result) == function_definition(old(token_stream)@).result,
            final(token_stream)@ == function_definition(old(token_stream)@).rest,
    {
        if exhausted(token_stream) {
            return Err(ParseError::UnexpectedEndOfFile);
        }
        match token_stream.next() {
            None => {
                return Err(ParseError::UnexpectedEndOfFile);
            },
            Some(token) => match token.lexeme {
                Lexeme::Defn => {},
                other => {
                    return Err(ParseError::UnexpectedToken(token.position, other));
                },
            },
        }
        if exhausted(token_stream) {
            return Err(ParseError::UnexpectedEndOfFile);
        }
        let name = match token_stream.next() {
            None => {
                return Err(ParseError::UnexpectedEndOfFile);
            },
            Some(name_token) => match name_token.lexeme {
                Lexeme::Main => self.build_fake_main_node(),
                Lexeme::Identifier(name) => {
                    let ghost spelled = name@;
                    let variable = Node::Variable(name);
                    assert(variable@ == NodeView::Variable(spelled));
                    variable
                },
                other => {
                    return Err(ParseError::InvalidFunctionName(name_token.position, other));
                },
            },
        };
        if exhausted(token_stream) {
            return Err(ParseError::UnexpectedEndOfFile);
        }
        let next_element = match token_stream.next() {
            None => {
                return Err(ParseError::UnexpectedEndOfFile);
            },
            Some(token) => match token.lexeme {
                Lexeme::LeftBracket => match self.parse_vector(token_stream) {
                    Ok(vector) => vector,
                    Err(err) => {
                        return Err(err);
                    },
                },
                other => {
                    return Err(ParseError::UnexpectedToken(token.position, other));
                },
            },
        };
        let args = match next_element {
            Node::Vector(arguments) => arguments,
            _ => Vec::new(),
        };
        let body = match self.parse_function_body(token_stream) {
            Ok(body) => body,
            Err(err) => {
                return Err(err);
            },
        };
        match name {
            Node::Main(_) => Ok(Node::Main(MainDetails { args, body })),
            _ => Ok(Node::Function(FunctionDetails { name: Box::new(name), args, body })),
        }
    }

    /// Parses the forms of a function body and the `)` that closes the definition.
    fn parse_function_body(&self, token_stream: &mut TokenStream) -> (result: Result<
        Vec<Node>,
        ParseError,
    >)
        ensures
            nodes_result_view(result) == function_body(old(token_stream)@).result,
            final(token_stream)@ == function_body(old(token_stream)@).rest,
    {
        let ghost tokens = token_stream@;
        let mut body: Vec<Node> = Vec::new();
        proof {
            lemma_preceded_by_nothing(function_body(tokens));
        }
        loop
            invariant
                tokens == old(token_stream)@,
                function_body(tokens) == preceded(
                    nodes_view(body@),
                    function_body(token_stream@),
                ),
            decreases token_stream@.len(),
        {
            let ghost before = token_stream@;
            let ghost done = nodes_view(body@);
            if exhausted(token_stream) {
                return Err(ParseError::UnexpectedEndOfFile);
            }
            match token_stream.next() {
                None => {
                    return Err(ParseError::UnexpectedEndOfFile);
                },
                Some(token) => match token.lexeme {
                    Lexeme::RightParen => {
                        proof {
                            lemma_preceded_nothing_more(done, token_stream@);
                        }
                        return Ok(body);
                    },
                    Lexeme::LeftParen => {
                        proof {
                            lemma_list_takes_tokens(before.skip(1));
                        }
                        match self.parse_seq_list(token_stream) {
                            Err(err) => {
                                return Err(err);
                            },
                            Ok(node) => {
                                body.push(node);
                                proof {
                                    assert(nodes_view(body@) == done.push(node@));
                                    lemma_preceded_by_one_more(
                                        done,
                                        node@,
                                        function_body(token_stream@),
                                    );
                                }
                            },
                        }
                    },
                    other => {
                        return Err(ParseError::UnexpectedToken(token.position, other));
                    },
                },
            }
        }
    }

    /// Parses the list whose `(` has been taken.
    fn parse_seq_list(&self, token_stream: &mut TokenStream) -> (result: Result<Node, ParseError>)
        ensures
            node_result_view(result) == seq_list(old(token_stream)@).result,
            final(token_stream)@ == seq_list(old(token_stream)@).rest,
        decreases old(token_stream)@.len(),
    {
        let ghost tokens = token_stream@;
        let mut list: Vec<Node> = Vec::new();
        proof {
            lemma_preceded_by_nothing(list_items(tokens));
        }
        loop
            invariant_except_break
                token_stream@.len() <= tokens.len(),
                list_items(tokens) == preceded(nodes_view(list@), list_items(token_stream@)),
            invariant
                tokens == old(token_stream)@,
            ensures
                list_items(tokens) == (Parsed {
                    result: Ok(nodes_view(list@)),
                    rest: token_stream@,
                }),
            decreases token_stream@.len(),
        {
            let ghost before = token_stream@;
            let ghost done = nodes_view(list@);
            if exhausted(token_stream) {
                return Err(ParseError::UnexpectedEndOfFile);
            }
            match token_stream.next() {
                None => {
                    return Err(ParseError::UnexpectedEndOfFile);
                },
                Some(token) => match token.lexeme {
                    Lexeme::RightParen => {
                        proof {
                            lemma_preceded_nothing_more(done, token_stream@);
                        }
                        break ;
                    },
                    Lexeme::LeftParen => {
                        proof {
                            lemma_list_takes_tokens(before.skip(1));
                        }
                        match self.parse_seq_list(token_stream) {
                            Err(err) => {
                                return Err(err);
                            },
                            Ok(node) => {
                                list.push(node);
                                proof {
                                    assert(nodes_view(list@) == done.push(node@));
                                    lemma_preceded_by_one_more(
                                        done,
                                        node@,
                                        list_items(token_stream@),
                                    );
                                }
                            },
                        }
                    },
                    other => {
                        let item = Token { lexeme: other, position: token.position };
                        match self.parse_item(item) {
                            Err(err) => {
                                return Err(err);
                            },
                            Ok(node) => {
                                list.push(node);
                                proof {
                                    assert(nodes_view(list@) == done.push(node@));
                                    lemma_preceded_by_one_more(
                                        done,
                                        node@,
                                        list_items(token_stream@),
                                    );
                                }
                            },
                        }
                    },
                },
            }
        }
        if list.len() == 0 {
            return Err(ParseError::UnexpectedEndOfFile);
        }
        let ghost nodes = nodes_view(list@);
        let top = list.remove(0);
        proof {
            assert(nodes_view(list@) == nodes.skip(1));
        }
        Ok(Node::List(ListDetails { head: Box::new(top), rest: list }))
    }

    /// Parses the vector whose `[` has been taken.
    fn parse_vector(&self, token_stream: &mut TokenStream) -> (result: Result<Node, ParseError>)
        ensures
            node_result_view(result) == vector(old(token_stream)@).result,
            final(token_stream)@ == vector(old(token_stream)@).rest,
            result matches Ok(node) ==> node is Vector,
    {
        let ghost tokens = token_stream@;
        let mut list: Vec<Node> = Vec::new();
        proof {
            lemma_preceded_by_nothing(vector_items(tokens));
        }
        loop
            invariant_except_break
                vector_items(tokens) == preceded(nodes_view(list@), vector_items(token_stream@)),
            invariant
                tokens == old(token_stream)@,
            ensures
                vector_items(tokens) == (Parsed {
                    result: Ok(nodes_view(list@)),
                    rest: token_stream@,
                }),
            decreases token_stream@.len(),
        {
            let ghost done = nodes_view(list@);
            if exhausted(token_stream) {
                return Err(ParseError::UnexpectedEndOfFile);
            }
            match token_stream.next() {
                None => {
                    return Err(ParseError::UnexpectedEndOfFile);
                },
                Some(token) => match token.lexeme {
                    Lexeme::RightBracket => {
                        proof {
                            lemma_preceded_nothing_more(done, token_stream@);
                        }
                        break ;
                    },
                    other => {
                        let item = Token { lexeme: other, position: token.position };
                        match self.parse_item(item) {
                            Err(err) => {
                                return Err(err);
                            },
                            Ok(node) => {
                                list.push(node);
                                proof {
                                    assert(nodes_view(list@) == done.push(node@));
                                    lemma_preceded_by_one_more(
                                        done,
                                        node@,
                                        vector_items(token_stream@),
                                    );
                                }
                            },
                        }
                    },
                },
            }
        }
        Ok(Node::Vector(list))
    }

    /// Parses the map whose `{` has been taken.
    fn parse_map(&self, token_stream: &mut TokenStream) -> (result: Result<Node, ParseError>)
        ensures
            node_result_view(result) == mapping(old(token_stream)@).result,
            final(token_stream)@ == mapping(old(token_stream)@).rest,
    {
        let ghost tokens = token_stream@;
        let mut map_items_found: Vec<MapItem> = Vec::new();
        proof {
            lemma_preceded_by_nothing(map_items(tokens));
        }
        loop
            invariant_except_break
                map_items(tokens) == preceded(
                    items_view(map_items_found@),
                    map_items(token_stream@),
                ),
            invariant
                tokens == old(token_stream)@,
            ensures
                map_items(tokens) == (Parsed {
                    result: Ok(items_view(map_items_found@)),
                    rest: token_stream@,
                }),
            decreases token_stream@.len(),
        {
            let ghost done = items_view(map_items_found@);
            if exhausted(token_stream) {
                return Err(ParseError::UnexpectedEndOfFile);
            }
            match token_stream.next() {
                None => {
                    return Err(ParseError::UnexpectedEndOfFile);
                },
                Some(token) => match token.lexeme {
                    Lexeme::MapKey(name) => {
                        if exhausted(token_stream) {
                            return Err(ParseError::UnexpectedEndOfFile);
                        }
                        let item = match token_stream.next() {
                            Some(value) => match self.parse_item(value) {
                                Ok(node) => MapItem { key: name, value: node },
                                Err(err) => {
                                    return Err(err);
                                },
                            },
                            None => {
                                return Err(ParseError::UnexpectedEndOfFile);
                            },
                        };
                        let ghost entry = item@;
                        map_items_found.push(item);
                        proof {
                            assert(items_view(map_items_found@) == done.push(entry));
                            lemma_preceded_by_one_more(done, entry, map_items(token_stream@));
                        }
                    },
                    Lexeme::RightBrace => {
                        proof {
                            lemma_preceded_nothing_more(done, token_stream@);
                        }
                        break ;
                    },
                    other => {
                        let value = Token { lexeme: other, position: token.position };
                        let item = match self.parse_item(value) {
                            Ok(node) => MapItem { key: String::new(), value: node },
                            Err(err) => {
                                return Err(err);
                            },
                        };
                        let ghost entry = item@;
                        map_items_found.push(item);
                        proof {
                            assert(items_view(map_items_found@) == done.push(entry));
                            lemma_preceded_by_one_more(done, entry, map_items(token_stream@));
                        }
                    },
                },
            }
        }
        Ok(Node::Mapping(map_items_found))
    }

    /// The node that a single token stands for inside a list, a vector or a map.
    fn parse_item(&self, item: Token) -> (result: Result<Node, ParseError>)
        ensures
            node_result_view(result) == item_of(item@),
    {
        match item.lexeme {
            Lexeme::NumberLiteral(number) => {
                if -2147483648 <= number && number <= 2147483647 {
                    Ok(Node::Constant(ConstantLiteral::IntegerLiteral(number as i32)))
                } else {
                    Err(ParseError::UnexpectedToken(item.position, Lexeme::NumberLiteral(number)))
                }
            },
            Lexeme::StringLiteral(string) => Ok(
                Node::Constant(ConstantLiteral::StringLiteral(string)),
            ),
            Lexeme::Plus => Ok(Node::Keyword(KeywordDetails { token: Lexeme::Plus })),
            Lexeme::Minus => Ok(Node::Keyword(KeywordDetails { token: Lexeme::Minus })),
            Lexeme::And => Ok(Node::Keyword(KeywordDetails { token: Lexeme::And })),
            Lexeme::Or => Ok(Node::Keyword(KeywordDetails { token: Lexeme::Or })),
            Lexeme::Print => Ok(Node::Keyword(KeywordDetails { token: Lexeme::Print })),
            Lexeme::Identifier(name) => Ok(Node::Variable(name)),
            _ => Ok(Node::Null),
        }
    }

    /// The entry function before its parameters and body are known: the fixed placeholder that
    /// stands for the name `main`, an entry function without parameters and without a body.
    fn build_fake_main_node(&self) -> (node: Node)
        ensures
            node is Main,
            node@ == (NodeView::Main {
                args: Seq::<NodeView>::empty(),
                body: Seq::<NodeView>::empty(),
            }),
    {
        let args: Vec<Node> = Vec::new();
        let body: Vec<Node> = Vec::new();
        assert(nodes_view(args@) == Seq::<NodeView>::empty());
        assert(nodes_view(body@) == Seq::<NodeView>::empty());
        Node::Main(MainDetails { args, body })
    }
}

} // verus!
