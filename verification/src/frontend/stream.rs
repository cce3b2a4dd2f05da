//! The stream of tokens that the scanner hands to the parser.

use crate::frontend::scanner::{Token, TokenView};
use std::collections::VecDeque;
use vstd::prelude::*;

verus! {

/// Tokens in the order in which they were scanned, read from the front, one token of
/// lookahead.
#[derive(Debug)]
pub struct TokenStream {
    tokens: VecDeque<Token>,
}

impl View for TokenStream {
    type V = Seq<TokenView>;

    /// The tokens that have not been taken yet.
    closed spec fn view(&self) -> Seq<TokenView> {
        self.tokens@.map_values(|token: Token| token@)
    }
}

impl TokenStream {
    /// A stream without tokens.
    pub fn new() -> (stream: TokenStream)
        ensures
            stream@ == Seq::<TokenView>::empty(),
    {
        TokenStream { tokens: VecDeque::new() }
    }

    /// Adds `token` at the end of the stream.
    pub fn push(&mut self, token: Token)
        ensures
            final(self)@ == old(self)@.push(token@),
    {
        self.tokens.push_back(token);
    }

    /// The next token, which stays in the stream.
    pub fn peek(&self) -> (token: Option<&Token>)
        ensures
            match token {
                Some(token) => self@.len() > 0 && token@ == self@[0],
                None => self@.len() == 0,
            },
    {
        if self.tokens.len() > 0 {
            Some(&self.tokens[0])
        } else {
            None
        }
    }

    /// Takes the next token out of the stream.
    pub fn next(&mut self) -> (token: Option<Token>)
        ensures
            match token {
                Some(token) => {
                    &&& old(self)@.len() > 0
                    &&& token@ == old(self)@[0]
                    &&& final(self)@ == old(self)@.skip(1)
                },
                None => {
                    &&& old(self)@.len() == 0
                    &&& final(self)@ == old(self)@
                },
            },
    {
        self.tokens.pop_front()
    }
}

} // verus!
