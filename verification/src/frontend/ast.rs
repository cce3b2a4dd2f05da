//! The tree that the parser builds and the emitter walks.

use crate::frontend::scanner::{Lexeme, LexemeView};
use vstd::prelude::*;

verus! {

/// A literal value.
#[derive(Debug, PartialEq)]
pub enum ConstantLiteral {
    IntegerLiteral(i32),
    StringLiteral(String),
}

/// A reserved operator or builtin that stands in the tree as itself.
#[derive(Debug, PartialEq)]
pub struct KeywordDetails {
    pub token: Lexeme,
}

/// A form in the shape of a call: the operation and its operands.
#[derive(Debug, PartialEq)]
pub struct ListDetails {
    pub head: Box<Node>,
    pub rest: Vec<Node>,
}

/// A named function: its name, its parameters and the forms of its body.
#[derive(Debug, PartialEq)]
pub struct FunctionDetails {
    pub name: Box<Node>,
    pub args: Vec<Node>,
    pub body: Vec<Node>,
}

/// The entry function: its parameters and the forms of its body.
#[derive(Debug, PartialEq)]
pub struct MainDetails {
    pub args: Vec<Node>,
    pub body: Vec<Node>,
}

/// A variable definition: the name and the value bound to it.
#[derive(Debug, PartialEq)]
pub struct VariableInformation {
    pub name: Box<Node>,
    pub value: Box<Node>,
}

/// One entry of a map: the key and the value under it.
#[derive(Debug, PartialEq)]
pub struct MapItem {
    pub key: String,
    pub value: Node,
}

/// A node of the tree.
#[derive(Debug, PartialEq)]
pub enum Node {
    Null,
    Main(MainDetails),
    Def(VariableInformation),
    Function(FunctionDetails),
    Constant(ConstantLiteral),
    Keyword(KeywordDetails),
    Variable(String),
    /// A map literal: its entries in source order. Keys may repeat.
    Mapping(Vec<MapItem>),
    Vector(Vec<Node>),
    List(ListDetails),
}

/// A [`ConstantLiteral`] with its text as a sequence of characters.
pub enum ConstantView {
    IntegerLiteral(i32),
    StringLiteral(Seq<char>),
}

/// A [`Node`] as a mathematical tree: texts are sequences of characters, and the nodes below
/// a node are sequences of trees.
pub enum NodeView {
    Null,
    Main { args: Seq<NodeView>, body: Seq<NodeView> },
    Def { name: Box<NodeView>, value: Box<NodeView> },
    Function { name: Box<NodeView>, args: Seq<NodeView>, body: Seq<NodeView> },
    Constant(ConstantView),
    Keyword(LexemeView),
    Variable(Seq<char>),
    Mapping(Seq<(Seq<char>, NodeView)>),
    Vector(Seq<NodeView>),
    List { head: Box<NodeView>, rest: Seq<NodeView> },
}

impl View for ConstantLiteral {
    type V = ConstantView;

    open spec fn view(&self) -> ConstantView {
        match self {
            ConstantLiteral::IntegerLiteral(value) => ConstantView::IntegerLiteral(*value),
            ConstantLiteral::StringLiteral(text) => ConstantView::StringLiteral(text@),
        }
    }
}

/// The tree that `node` stands for.
pub open spec fn node_view(node: Node) -> NodeView
    decreases node,
{
    match node {
        Node::Null => NodeView::Null,
        Node::Main(details) => NodeView::Main {
            args: nodes_view(details.args@),
            body: nodes_view(details.body@),
        },
        Node::Def(information) => NodeView::Def {
            name: Box::new(node_view(*information.name)),
            value: Box::new(node_view(*information.value)),
        },
        Node::Function(details) => NodeView::Function {
            name: Box::new(node_view(*details.name)),
            args: nodes_view(details.args@),
            body: nodes_view(details.body@),
        },
        Node::Constant(constant) => NodeView::Constant(constant@),
        Node::Keyword(details) => NodeView::Keyword(details.token@),
        Node::Variable(name) => NodeView::Variable(name@),
        Node::Mapping(items) => NodeView::Mapping(items_view(items@)),
        Node::Vector(nodes) => NodeView::Vector(nodes_view(nodes@)),
        Node::List(details) => NodeView::List {
            head: Box::new(node_view(*details.head)),
            rest: nodes_view(details.rest@),
        },
    }
}

/// The trees that `nodes` stand for, in order.
pub open spec fn nodes_view(nodes: Seq<Node>) -> Seq<NodeView>
    decreases nodes,
{
    Seq::new(
        nodes.len(),
        |i: int|
            if 0 <= i < nodes.len() {
                node_view(nodes[i])
            } else {
                NodeView::Null
            },
    )
}

/// The entries that `items` stand for, in order: each key with the tree under it.
pub open spec fn items_view(items: Seq<MapItem>) -> Seq<(Seq<char>, NodeView)>
    decreases items,
{
    Seq::new(
        items.len(),
        |i: int|
            if 0 <= i < items.len() {
                (items[i].key@, node_view(items[i].value))
            } else {
                (Seq::empty(), NodeView::Null)
            },
    )
}

impl View for Node {
    type V = NodeView;

    open spec fn view(&self) -> NodeView {
        node_view(*self)
    }
}

impl View for MapItem {
    type V = (Seq<char>, NodeView);

    open spec fn view(&self) -> (Seq<char>, NodeView) {
        (self.key@, node_view(self.value))
    }
}

} // verus!
