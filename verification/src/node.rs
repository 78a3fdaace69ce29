//! The generic document node: the intermediate value one column is
//! normalized into.

use vstd::prelude::*;

verus! {

/// Mathematical model of a numeric node. The integer variants keep the
/// signedness they were produced with; a floating-point number is carried as
/// the decimal rendering it entered the library with.
pub enum NumberView {
    Int(i64),
    UInt(u64),
    Float(Seq<char>),
}

/// Mathematical model of a document node.
pub enum NodeView {
    Null,
    Bool(bool),
    Number(NumberView),
    Text(Seq<char>),
}

/// A numeric document node.
#[derive(Debug, Clone, PartialEq)]
pub enum NumberValue {
    /// A signed 64-bit integer.
    Int(i64),
    /// An unsigned 64-bit integer.
    UInt(u64),
    /// A finite double-precision number, carried as its decimal rendering.
    Float(String),
}

impl View for NumberValue {
    type V = NumberView;

    open spec fn view(&self) -> NumberView {
        match self {
            NumberValue::Int(i) => NumberView::Int(*i),
            NumberValue::UInt(u) => NumberView::UInt(*u),
            NumberValue::Float(t) => NumberView::Float(t@),
        }
    }
}

/// One node of the structured document: null, boolean, number or text.
#[derive(Debug, Clone, PartialEq)]
pub enum DocumentNode {
    /// The explicit empty node an absent column value becomes.
    Null,
    /// A boolean node.
    Bool(bool),
    /// A numeric node.
    Number(NumberValue),
    /// A textual node.
    Text(String),
}

impl View for DocumentNode {
    type V = NodeView;

    open spec fn view(&self) -> NodeView {
        match self {
            DocumentNode::Null => NodeView::Null,
            DocumentNode::Bool(b) => NodeView::Bool(*b),
            DocumentNode::Number(n) => NodeView::Number(n@),
            DocumentNode::Text(t) => NodeView::Text(t@),
        }
    }
}

} // verus!
