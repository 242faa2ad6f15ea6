//! One builder per node kind: each allocates a node from a template,
//! copying scalars and sharing the nodes and lists that it refers to.
use vstd::prelude::*;
use crate::context::{GCLock, Node, NodeData, NodeMetadata};
use crate::kind::NodeKind;
use crate::template;

verus! {

/// Builds `EmptyStatement` nodes.
pub struct EmptyStatement;

impl EmptyStatement {
    /// Allocate a fresh node from the template.
    pub fn build_template(lock: &mut GCLock, t: template::EmptyStatement) -> (r: Node)
        requires
            old(lock).wf(),
        ensures
            final(lock).wf(),
            final(lock).extends(*old(lock)),
            r@ == old(lock).node_count(),
            final(lock).node_count() == old(lock).node_count() + 1,
            final(lock).cell_count() == old(lock).cell_count(),
            final(lock).data(r) == (NodeData { metadata: NodeMetadata { range: t.metadata.range }, kind: NodeKind::EmptyStatement }),
    {
        let kind = NodeKind::EmptyStatement;
        lock.allocate_node(NodeData { metadata: NodeMetadata::build_template(t.metadata), kind })
    }
}

/// Builds `NumericLiteral` nodes.
pub struct NumericLiteral;

impl NumericLiteral {
    /// Allocate a fresh node from the template.
    pub fn build_template(lock: &mut GCLock, t: template::NumericLiteral) -> (r: Node)
        requires
            old(lock).wf(),
        ensures
            final(lock).wf(),
            final(lock).extends(*old(lock)),
            r@ == old(lock).node_count(),
            final(lock).node_count() == old(lock).node_count() + 1,
            final(lock).cell_count() == old(lock).cell_count(),
            final(lock).data(r) == (NodeData { metadata: NodeMetadata { range: t.metadata.range }, kind: NodeKind::NumericLiteral { value: t.value } }),
    {
        let kind = NodeKind::NumericLiteral { value: t.value };
        lock.allocate_node(NodeData { metadata: NodeMetadata::build_template(t.metadata), kind })
    }
}

/// Builds `Identifier` nodes.
pub struct Identifier;

impl Identifier {
    /// Allocate a fresh node from the template.
    pub fn build_template(lock: &mut GCLock, t: template::Identifier) -> (r: Node)
        requires
            old(lock).wf(),
        ensures
            final(lock).wf(),
            final(lock).extends(*old(lock)),
            r@ == old(lock).node_count(),
            final(lock).node_count() == old(lock).node_count() + 1,
            final(lock).cell_count() == old(lock).cell_count(),
            final(lock).data(r) == (NodeData { metadata: NodeMetadata { range: t.metadata.range }, kind: NodeKind::Identifier { name: t.name } }),
    {
        let kind = NodeKind::Identifier { name: t.name };
        lock.allocate_node(NodeData { metadata: NodeMetadata::build_template(t.metadata), kind })
    }
}

/// Builds `ExpressionStatement` nodes.
pub struct ExpressionStatement;

impl ExpressionStatement {
    /// Allocate a fresh node from the template.
    pub fn build_template(lock: &mut GCLock, t: template::ExpressionStatement) -> (r: Node)
        requires
            old(lock).wf(),
            old(lock).contains(t.expression),
        ensures
            final(lock).wf(),
            final(lock).extends(*old(lock)),
            r@ == old(lock).node_count(),
            final(lock).node_count() == old(lock).node_count() + 1,
            final(lock).cell_count() == old(lock).cell_count(),
            final(lock).data(r) == (NodeData { metadata: NodeMetadata { range: t.metadata.range }, kind: NodeKind::ExpressionStatement { expression: t.expression } }),
    {
        let kind = NodeKind::ExpressionStatement { expression: t.expression };
        lock.allocate_node(NodeData { metadata: NodeMetadata::build_template(t.metadata), kind })
    }
}

/// Builds `BlockStatement` nodes.
pub struct BlockStatement;

impl BlockStatement {
    /// Allocate a fresh node from the template.
    pub fn build_template(lock: &mut GCLock, t: template::BlockStatement) -> (r: Node)
        requires
            old(lock).wf(),
            old(lock).holds(t.body),
        ensures
            final(lock).wf(),
            final(lock).extends(*old(lock)),
            r@ == old(lock).node_count(),
            final(lock).node_count() == old(lock).node_count() + 1,
            final(lock).cell_count() == old(lock).cell_count(),
            final(lock).data(r) == (NodeData { metadata: NodeMetadata { range: t.metadata.range }, kind: NodeKind::BlockStatement { body: t.body } }),
    {
        let kind = NodeKind::BlockStatement { body: t.body };
        lock.allocate_node(NodeData { metadata: NodeMetadata::build_template(t.metadata), kind })
    }
}

/// Builds `IfStatement` nodes.
pub struct IfStatement;

impl IfStatement {
    /// Allocate a fresh node from the template.
    pub fn build_template(lock: &mut GCLock, t: template::IfStatement) -> (r: Node)
        requires
            old(lock).wf(),
            old(lock).contains(t.test),
            old(lock).contains(t.consequent),
            t.alternate matches Some(a) ==> old(lock).contains(a),
        ensures
            final(lock).wf(),
            final(lock).extends(*old(lock)),
            r@ == old(lock).node_count(),
            final(lock).node_count() == old(lock).node_count() + 1,
            final(lock).cell_count() == old(lock).cell_count(),
            final(lock).data(r) == (NodeData { metadata: NodeMetadata { range: t.metadata.range }, kind: NodeKind::IfStatement { test: t.test, consequent: t.consequent, alternate: t.alternate } }),
    {
        let kind = NodeKind::IfStatement { test: t.test, consequent: t.consequent, alternate: t.alternate };
        lock.allocate_node(NodeData { metadata: NodeMetadata::build_template(t.metadata), kind })
    }
}

/// Nodes are told apart by allocation, not by contents: a node built in one
/// step and a node built in any later step under the same lock differ, even
/// when their templates are equal; and two handles are equal exactly when
/// they denote the same allocation.
pub proof fn lemma_builds_are_distinct(before_a: GCLock, after_a: GCLock, before_b: GCLock, a: Node, b: Node)
    requires
        a@ == before_a.node_count(),
        after_a.node_count() == before_a.node_count() + 1,
        before_b.extends(after_a),
        b@ == before_b.node_count(),
    ensures
        a != b,
        (a == b) <==> (a@ == b@),
{
    crate::context::lemma_node_identity(a, b);
}

} // verus!
