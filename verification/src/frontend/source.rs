//! The character source of the scanner: a multi-peek iterator over the text.

use itertools::MultiPeek;
use std::str::Chars;
use vstd::prelude::*;

verus! {

#[verifier::external_type_specification]
#[verifier::external_body]
#[verifier::reject_recursive_types(I)]
pub struct ExMultiPeek<I: Iterator>(MultiPeek<I>);

/// The characters that a source has not yet handed out, in order.
pub uninterp spec fn pending(source: MultiPeek<Chars<'_>>) -> Seq<char>;

/// How many characters past the front the next peek of a source looks.
pub uninterp spec fn lookahead(source: MultiPeek<Chars<'_>>) -> nat;

/// `itertools::multipeek` over the characters of `text`: nothing is consumed yet and the
/// peek cursor stands at the front.
#[verifier::external_body]
pub(crate) fn open_source<'a>(text: &'a str) -> (source: MultiPeek<Chars<'a>>)
    ensures
        pending(source) == text@,
        lookahead(source) == 0,
{
    itertools::multipeek(text.chars())
}

/// `MultiPeek::next`: hands out the front character, if there is one, and moves the peek
/// cursor back to the front.
#[verifier::external_body]
pub(crate) fn take_char(source: &mut MultiPeek<Chars<'_>>) -> (c: Option<char>)
    ensures
        lookahead(*final(source)) == 0,
        pending(*old(source)).len() == 0 ==> c is None && pending(*final(source)) == pending(
            *old(source),
        ),
        pending(*old(source)).len() > 0 ==> c == Some(pending(*old(source))[0]) && pending(
            *final(source),
        ) == pending(*old(source)).drop_first(),
{
    source.next()
}

/// `MultiPeek::peek`: shows the character under the peek cursor and moves the cursor one
/// further; past the end it shows nothing and the cursor stays. Nothing is consumed.
#[verifier::external_body]
pub(crate) fn peek_char(source: &mut MultiPeek<Chars<'_>>) -> (c: Option<char>)
    ensures
        pending(*final(source)) == pending(*old(source)),
        lookahead(*old(source)) < pending(*old(source)).len() ==> c == Some(
            pending(*old(source))[lookahead(*old(source)) as int],
        ) && lookahead(*final(source)) == lookahead(*old(source)) + 1,
        lookahead(*old(source)) >= pending(*old(source)).len() ==> c is None && lookahead(
            *final(source),
        ) == lookahead(*old(source)),
{
    source.peek().copied()
}

/// `MultiPeek::reset_peek`: moves the peek cursor back to the front. Nothing is consumed.
#[verifier::external_body]
pub(crate) fn rewind_peek(source: &mut MultiPeek<Chars<'_>>)
    ensures
        pending(*final(source)) == pending(*old(source)),
        lookahead(*final(source)) == 0,
{
    source.reset_peek()
}

} // verus!
