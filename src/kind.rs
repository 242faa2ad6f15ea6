//! The node kinds of the tree and the names of their child fields.
use vstd::prelude::*;
use crate::context::Node;
use crate::context::NodeList;

verus! {

/// The kind of a node, with its kind-specific fields.
#[derive(Debug, Clone, Copy)]
pub enum NodeKind {
    EmptyStatement,
    /// A number literal, held as the bit pattern of its IEEE-754 double.
    NumericLiteral { value: u64 },
    /// An identifier, held as its atom in the label table.
    Identifier { name: u32 },
    ExpressionStatement { expression: Node },
    BlockStatement { body: NodeList },
    IfStatement { test: Node, consequent: Node, alternate: Option<Node> },
}

/// The name of a child field, as seen from the parent node.
#[derive(Debug, Clone, Copy, PartialEq, Eq, Hash, Structural)]
pub enum NodeField {
    Expression,
    Body,
    Test,
    Consequent,
    Alternate,
}

impl NodeField {
    /// Whether the field holds a list of children.
    pub open spec fn is_list_spec(self) -> bool {
        self == NodeField::Body
    }

    pub fn is_list(&self) -> (r: bool)
        ensures
            r == self.is_list_spec(),
    {
        match self {
            NodeField::Body => true,
            _ => false,
        }
    }
}

impl NodeKind {
    /// Every node and list that the fields refer to lies among the first
    /// `nodes` nodes and `cells` cells of an arena.
    pub open spec fn refs_below(self, nodes: nat, cells: nat) -> bool {
        match self {
            NodeKind::ExpressionStatement { expression } => expression@ < nodes,
            NodeKind::BlockStatement { body } => body.below(cells),
            NodeKind::IfStatement { test, consequent, alternate } => {
                &&& test@ < nodes
                &&& consequent@ < nodes
                &&& match alternate {
                    Some(a) => a@ < nodes,
                    None => true,
                }
            },
            _ => true,
        }
    }
}

} // verus!
