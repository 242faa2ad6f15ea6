//! Plain, arena-independent descriptions of the nodes to build.
use vstd::prelude::*;
use crate::context::{Node, NodeList, TemplateMetadata};

verus! {

/// An empty statement `;`.
#[derive(Debug, Clone, Copy)]
pub struct EmptyStatement {
    pub metadata: TemplateMetadata,
}

/// A number literal; `value` is the bit pattern of its IEEE-754 double.
#[derive(Debug, Clone, Copy)]
pub struct NumericLiteral {
    pub metadata: TemplateMetadata,
    pub value: u64,
}

/// An identifier; `name` is its atom in the label table.
#[derive(Debug, Clone, Copy)]
pub struct Identifier {
    pub metadata: TemplateMetadata,
    pub name: u32,
}

/// An expression evaluated for its effect.
#[derive(Debug, Clone, Copy)]
pub struct ExpressionStatement {
    pub metadata: TemplateMetadata,
    pub expression: Node,
}

/// A braced list of statements.
#[derive(Debug, Clone, Copy)]
pub struct BlockStatement {
    pub metadata: TemplateMetadata,
    pub body: NodeList,
}

/// A conditional statement with an optional `else` branch.
#[derive(Debug, Clone, Copy)]
pub struct IfStatement {
    pub metadata: TemplateMetadata,
    pub test: Node,
    pub consequent: Node,
    pub alternate: Option<Node>,
}

} // verus!
