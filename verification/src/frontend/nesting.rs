//! How deep lists nest: in the tokens and in the tree.

use crate::frontend::ast::NodeView;
use crate::frontend::grammar::{item_of, list_items, seq_list};
use crate::frontend::scanner::TokenView;
use vstd::prelude::*;

verus! {

/// The greater of two numbers.
pub open spec fn greater(a: int, b: int) -> int {
    if a >= b {
        a
    } else {
        b
    }
}

/// By how much `token` changes the level of nesting: a `(` opens a level, a `)` closes one.
pub open spec fn step(token: TokenView) -> int {
    if token.lexeme is LeftParen {
        1
    } else if token.lexeme is RightParen {
        -1
    } else {
        0
    }
}

/// The level of nesting after `tokens`, counted from the level before them.
pub open spec fn level(tokens: Seq<TokenView>) -> int
    decreases tokens.len(),
{
    if tokens.len() == 0 {
        0
    } else {
        level(tokens.drop_last()) + step(tokens.last())
    }
}

/// The highest level of nesting that is reached within `tokens`, counted from the level
/// before them.
pub open spec fn peak(tokens: Seq<TokenView>) -> int
    decreases tokens.len(),
{
    if tokens.len() == 0 {
        0
    } else {
        greater(peak(tokens.drop_last()), level(tokens))
    }
}

/// How deep the lists of `node` nest: a list is one level deeper than the deepest of its
/// items, and nothing else has a depth.
pub open spec fn depth(node: NodeView) -> int
    decreases node,
{
    match node {
        NodeView::List { head, rest } => 1 + greater(depth(*head), deepest(rest)),
        _ => 0,
    }
}

/// The depth of the deepest of `nodes`.
pub open spec fn deepest(nodes: Seq<NodeView>) -> int
    decreases nodes,
{
    if nodes.len() == 0 {
        0
    } else {
        greater(deepest(nodes.drop_last()), depth(nodes.last()))
    }
}

/// The level after two runs of tokens is the sum of their levels.
pub proof fn lemma_level_concat(a: Seq<TokenView>, b: Seq<TokenView>)
    ensures
        level(a + b) == level(a) + level(b),
    decreases b.len(),
{
    if b.len() == 0 {
        assert(a + b == a);
    } else {
        assert((a + b).drop_last() == a + b.drop_last());
        lemma_level_concat(a, b.drop_last());
    }
}

/// The peak of two runs of tokens is that of the first, or that of the second as counted
/// from the level after the first.
pub proof fn lemma_peak_concat(a: Seq<TokenView>, b: Seq<TokenView>)
    ensures
        peak(a + b) == greater(peak(a), level(a) + peak(b)),
        peak(a) >= 0,
    decreases b.len(),
{
    lemma_peak_not_negative(a);
    lemma_peak_not_negative(b);
    if b.len() == 0 {
        assert(a + b == a);
    } else {
        assert((a + b).drop_last() == a + b.drop_last());
        lemma_peak_concat(a, b.drop_last());
        lemma_level_concat(a, b);
    }
}

/// No peak lies under the level at which the tokens start.
pub proof fn lemma_peak_not_negative(tokens: Seq<TokenView>)
    ensures
        peak(tokens) >= 0,
    decreases tokens.len(),
{
    if tokens.len() > 0 {
        lemma_peak_not_negative(tokens.drop_last());
    }
}

/// The level and the peak of a single token.
pub proof fn lemma_single_token(token: TokenView)
    ensures
        level(seq![token]) == step(token),
        peak(seq![token]) == greater(0, step(token)),
{
    assert(seq![token].drop_last() == Seq::<TokenView>::empty());
    assert(level(Seq::<TokenView>::empty()) == 0);
    assert(peak(Seq::<TokenView>::empty()) == 0);
}

/// The deepest of a node and of the nodes after it.
pub proof fn lemma_deepest_after(first: NodeView, others: Seq<NodeView>)
    ensures
        deepest(seq![first] + others) == greater(depth(first), deepest(others)),
        deepest(others) >= 0,
        depth(first) >= 0,
    decreases others.len(),
{
    lemma_depth_not_negative(first);
    if others.len() == 0 {
        assert(seq![first] + others == seq![first]);
        assert(seq![first].drop_last() == Seq::<NodeView>::empty());
        assert(deepest(Seq::<NodeView>::empty()) == 0);
    } else {
        assert((seq![first] + others).drop_last() == seq![first] + others.drop_last());
        lemma_deepest_after(first, others.drop_last());
        lemma_depth_not_negative(others.last());
    }
}

/// No depth is negative.
pub proof fn lemma_depth_not_negative(node: NodeView)
    ensures
        depth(node) >= 0,
    decreases node,
{
    if let NodeView::List { head, rest } = node {
        lemma_depth_not_negative(*head);
    }
}

/// The items of a list are as deep as the parentheses between them nest: where the items of a
/// list parse, the tokens that were taken close one level, and their peak is the depth of the
/// deepest item.
pub proof fn lemma_items_nesting(tokens: Seq<TokenView>)
    requires
        list_items(tokens).result is Ok,
    ensures
        list_items(tokens).rest.len() < tokens.len(),
        list_items(tokens).rest == tokens.skip(tokens.len() - list_items(tokens).rest.len()),
        level(tokens.take(tokens.len() - list_items(tokens).rest.len())) == -1,
        peak(tokens.take(tokens.len() - list_items(tokens).rest.len())) == deepest(
            list_items(tokens).result->Ok_0,
        ),
    decreases tokens.len(),
{
    let rest = list_items(tokens).rest;
    let taken = tokens.take(tokens.len() - rest.len());
    let first = seq![tokens[0]];
    lemma_single_token(tokens[0]);
    if tokens[0].lexeme is RightParen {
        assert(taken == first);
        assert(rest == tokens.skip(1));
        assert(deepest(Seq::<NodeView>::empty()) == 0);
    } else if tokens[0].lexeme is LeftParen {
        let inside = tokens.skip(1);
        let inner = seq_list(inside);
        let node = inner.result->Ok_0;
        lemma_items_nesting(inside);
        let inner_items = list_items(inside).result->Ok_0;
        let inner_taken = inside.take(inside.len() - inner.rest.len());
        lemma_items_nesting(inner.rest);
        let more = list_items(inner.rest);
        let more_taken = inner.rest.take(inner.rest.len() - more.rest.len());
        assert(rest == more.rest);
        assert(taken == first + inner_taken + more_taken);
        assert(rest == tokens.skip(tokens.len() - rest.len()));
        // The nested list is one level deeper than its items.
        assert(inner_items == seq![inner_items[0]] + inner_items.skip(1));
        lemma_deepest_after(inner_items[0], inner_items.skip(1));
        assert(depth(node) == 1 + deepest(inner_items));
        lemma_deepest_after(node, more.result->Ok_0);
        // The tokens of the nested list stand one level up.
        lemma_level_concat(first, inner_taken);
        lemma_peak_concat(first, inner_taken);
        lemma_level_concat(first + inner_taken, more_taken);
        lemma_peak_concat(first + inner_taken, more_taken);
        lemma_peak_not_negative(inner_taken);
        lemma_peak_not_negative(more_taken);
    } else {
        let item = item_of(tokens[0])->Ok_0;
        let after = tokens.skip(1);
        lemma_items_nesting(after);
        let more = list_items(after);
        let more_taken = after.take(after.len() - more.rest.len());
        assert(taken == first + more_taken);
        assert(rest == tokens.skip(tokens.len() - rest.len()));
        assert(depth(item) == 0);
        lemma_deepest_after(item, more.result->Ok_0);
        lemma_level_concat(first, more_taken);
        lemma_peak_concat(first, more_taken);
        lemma_peak_not_negative(more_taken);
    }
}

/// Nesting is preserved at every depth: where a list parses, the tokens that it takes after
/// its `(` end with the `)` that closes it, and the list is as deep as its parentheses nest.
pub proof fn lemma_list_depth(tokens: Seq<TokenView>)
    requires
        seq_list(tokens).result is Ok,
    ensures
        seq_list(tokens).rest.len() < tokens.len(),
        seq_list(tokens).rest == tokens.skip(tokens.len() - seq_list(tokens).rest.len()),
        level(tokens.take(tokens.len() - seq_list(tokens).rest.len())) == -1,
        depth(seq_list(tokens).result->Ok_0) == 1 + peak(
            tokens.take(tokens.len() - seq_list(tokens).rest.len()),
        ),
{
    lemma_items_nesting(tokens);
    let items = list_items(tokens).result->Ok_0;
    assert(items == seq![items[0]] + items.skip(1));
    lemma_deepest_after(items[0], items.skip(1));
}

} // verus!
