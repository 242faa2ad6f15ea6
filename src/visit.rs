//! The traversal protocol: read-only visitors, rewriting visitors, and how
//! each kind of child field takes a rewriting visitor's outcome.
use vstd::prelude::*;
use crate::builder;
use crate::context::{GCLock, Node, NodeData, NodeList, NodeMetadata, TemplateMetadata};
use crate::kind::{NodeField, NodeKind};
use crate::template;

verus! {

/// Where the visited node sits: its parent and the parent's field.
#[derive(Debug, Clone, Copy)]
pub struct Path {
    pub parent: Node,
    pub field: NodeField,
}

impl Path {
    pub fn new(parent: Node, field: NodeField) -> (r: Path)
        ensures
            r.parent == parent,
            r.field == field,
    {
        Path { parent, field }
    }
}

/// The path leads into a list field, where an element may be expanded.
pub open spec fn in_list(path: Option<Path>) -> bool {
    path matches Some(p) && p.field.is_list_spec()
}

/// What a rewriting visitor did to an element.
#[derive(Debug)]
pub enum TransformResult<T> {
    /// No change to the element.
    Unchanged,
    /// The element is to be removed; a required child that cannot be absent
    /// is replaced by an empty statement instead.
    Removed,
    /// The element is replaced by the wrapped one.
    Changed(T),
    /// The element is replaced by the wrapped ones; only list elements may
    /// be expanded.
    Expanded(Vec<T>),
}

/// Every node that the outcome hands over is allocated in the arena.
pub open spec fn outcome_in(lock: GCLock, o: TransformResult<Node>) -> bool {
    match o {
        TransformResult::Changed(n) => lock.contains(n),
        TransformResult::Expanded(v) => forall|k: int| 0 <= k < v@.len() ==> lock.contains(#[trigger] v@[k]),
        _ => true,
    }
}

/// Implemented by those who walk the tree without changing it.
pub trait Visitor {
    /// Visit `node`, reached by `path` (`None` at the root).
    fn call(&mut self, lock: &GCLock, node: Node, path: Option<Path>)
        requires
            lock.wf(),
            lock.contains(node),
    ;
}

/// Implemented by those who rewrite the tree. A call may allocate, but
/// changes nothing already allocated, and expands a node only inside a list.
pub trait VisitorMut {
    /// Visit `node`, reached by `path` (`None` at the root), and say what
    /// becomes of it.
    fn call(&mut self, lock: &mut GCLock, node: Node, path: Option<Path>) -> (r: TransformResult<Node>)
        requires
            old(lock).wf(),
            old(lock).contains(node),
        ensures
            final(lock).wf(),
            final(lock).extends(*old(lock)),
            outcome_in(*final(lock), r),
            r is Expanded ==> in_list(path),
    ;
}

/// The tree that remains of a root given the visitor's outcome on it.
pub open spec fn root_after(root: Node, o: TransformResult<Node>) -> Option<Node> {
    match o {
        TransformResult::Unchanged => Some(root),
        TransformResult::Changed(n) => Some(n),
        _ => None,
    }
}

impl TransformResult<Node> {
    /// The tree that remains of `root` after this outcome: the root itself,
    /// its replacement, or no tree at all when it was removed. A root has no
    /// enclosing list, so it cannot be expanded.
    pub fn into_root(self, root: Node) -> (r: Option<Node>)
        requires
            !(self is Expanded),
        ensures
            r == root_after(root, self),
    {
        match self {
            TransformResult::Unchanged => Some(root),
            TransformResult::Removed => None,
            TransformResult::Changed(n) => Some(n),
            TransformResult::Expanded(_) => vstd::pervasive::unreached(),
        }
    }
}

impl Node {
    /// Visit this node with `visitor`.
    pub fn visit<V: Visitor>(self, lock: &GCLock, visitor: &mut V, path: Option<Path>)
        requires
            lock.wf(),
            lock.contains(self),
    {
        visitor.call(lock, self, path);
    }

    /// Visit this node with `visitor` and return what remains of it: the
    /// node, its replacement, or `None` if it was removed.
    pub fn visit_mut<V: VisitorMut>(self, lock: &mut GCLock, visitor: &mut V, path: Option<Path>) -> (r: Option<
        Node,
    >)
        requires
            old(lock).wf(),
            old(lock).contains(self),
            !in_list(path),
        ensures
            final(lock).wf(),
            final(lock).extends(*old(lock)),
            r matches Some(n) ==> final(lock).contains(n),
    {
        let o = visitor.call(lock, self, path);
        o.into_root(self)
    }

    /// Visit this node as the child held in the parent's field `path.field`.
    pub fn visit_child<V: Visitor>(self, lock: &GCLock, visitor: &mut V, path: Path)
        requires
            lock.wf(),
            lock.contains(self),
    {
        visitor.call(lock, self, Some(path));
    }

    /// Settle the outcome for a required child: a removed child becomes a
    /// fresh empty statement whose range is the zero-width range at the
    /// start of the child's range; any other outcome stands.
    pub fn settle_required(self, lock: &mut GCLock, outcome: TransformResult<Node>) -> (r: TransformResult<Node>)
        requires
            old(lock).wf(),
            old(lock).contains(self),
            outcome_in(*old(lock), outcome),
            !(outcome is Expanded),
        ensures
            final(lock).wf(),
            final(lock).extends(*old(lock)),
            outcome_in(*final(lock), r),
            outcome is Unchanged ==> r is Unchanged && *final(lock) == *old(lock),
            outcome matches TransformResult::Changed(n) ==> r == TransformResult::Changed(n) && *final(lock)
                == *old(lock),
            outcome is Removed ==> (r matches TransformResult::Changed(p) && {
                &&& p@ == old(lock).node_count()
                &&& final(lock).node_count() == old(lock).node_count() + 1
                &&& final(lock).cell_count() == old(lock).cell_count()
                &&& final(lock).data(p) == (NodeData {
                    metadata: NodeMetadata { range: old(lock).data(self).metadata.range.collapsed_spec() },
                    kind: NodeKind::EmptyStatement,
                })
            }),
    {
        match outcome {
            TransformResult::Removed => {
                let range = lock.range(self).collapsed();
                let p = builder::EmptyStatement::build_template(
                    lock,
                    template::EmptyStatement { metadata: TemplateMetadata::from_range(range) },
                );
                TransformResult::Changed(p)
            },
            TransformResult::Unchanged => TransformResult::Unchanged,
            TransformResult::Changed(n) => TransformResult::Changed(n),
            TransformResult::Expanded(_) => vstd::pervasive::unreached(),
        }
    }

    /// Visit this node as the required child held in the parent's field
    /// `path.field`, which is not a list. The outcome is never a removal:
    /// a removed child is replaced as `settle_required` says.
    pub fn visit_child_mut<V: VisitorMut>(self, lock: &mut GCLock, visitor: &mut V, path: Path) -> (r:
        TransformResult<Node>)
        requires
            old(lock).wf(),
            old(lock).contains(self),
            !path.field.is_list_spec(),
        ensures
            final(lock).wf(),
            final(lock).extends(*old(lock)),
            outcome_in(*final(lock), r),
            r is Unchanged || r is Changed,
    {
        let o = visitor.call(lock, self, Some(path));
        self.settle_required(lock, o)
    }

    /// Keep a node handle as it is: nodes are shared, never copied.
    pub fn duplicate(self) -> (r: Node)
        ensures
            r == self,
    {
        self
    }
}

/// The value of an optional child after the outcome on the child it held.
pub open spec fn optional_after(o: TransformResult<Node>) -> TransformResult<Option<Node>> {
    match o {
        TransformResult::Unchanged => TransformResult::Unchanged,
        TransformResult::Changed(n) => TransformResult::Changed(Some(n)),
        _ => TransformResult::Changed(None),
    }
}

/// Settle the outcome for the child held in an optional field: a removed
/// child leaves the field empty.
pub fn settle_optional(outcome: TransformResult<Node>) -> (r: TransformResult<Option<Node>>)
    requires
        !(outcome is Expanded),
    ensures
        r == optional_after(outcome),
{
    match outcome {
        TransformResult::Unchanged => TransformResult::Unchanged,
        TransformResult::Removed => TransformResult::Changed(None),
        TransformResult::Changed(n) => TransformResult::Changed(Some(n)),
        TransformResult::Expanded(_) => vstd::pervasive::unreached(),
    }
}

/// Visit the child of an optional field, if it holds one.
pub fn visit_optional_child<V: Visitor>(child: Option<Node>, lock: &GCLock, visitor: &mut V, path: Path)
    requires
        lock.wf(),
        child matches Some(n) ==> lock.contains(n),
{
    if let Some(n) = child {
        n.visit_child(lock, visitor, path);
    }
}

/// Visit the child of an optional field, which is not a list. An empty
/// field stays unchanged; otherwise the outcome is settled as
/// `settle_optional` says.
pub fn visit_optional_child_mut<V: VisitorMut>(
    child: Option<Node>,
    lock: &mut GCLock,
    visitor: &mut V,
    path: Path,
) -> (r: TransformResult<Option<Node>>)
    requires
        old(lock).wf(),
        child matches Some(n) ==> old(lock).contains(n),
        !path.field.is_list_spec(),
    ensures
        final(lock).wf(),
        final(lock).extends(*old(lock)),
        child is None ==> r is Unchanged && *final(lock) == *old(lock),
        r is Unchanged || r is Changed,
        r matches TransformResult::Changed(Some(n)) ==> final(lock).contains(n),
        child is Some ==> exists|o: TransformResult<Node>| r == #[trigger] optional_after(o),
{
    match child {
        None => TransformResult::Unchanged,
        Some(n) => {
            let o = visitor.call(lock, n, Some(path));
            let ghost og = o;
            let r = settle_optional(o);
            assert(r == optional_after(og));
            r
        },
    }
}

/// The elements that one list element becomes under an outcome.
pub open spec fn contribution(elem: Node, o: TransformResult<Node>) -> Seq<Node> {
    match o {
        TransformResult::Unchanged => seq![elem],
        TransformResult::Removed => Seq::empty(),
        TransformResult::Changed(n) => seq![n],
        TransformResult::Expanded(v) => v@,
    }
}

/// The list that `items` becomes when element `k` meets outcome `outs[k]`:
/// each element's contribution, in the order of the elements.
pub open spec fn spliced(items: Seq<Node>, outs: Seq<TransformResult<Node>>) -> Seq<Node>
    decreases items.len(),
{
    if items.len() == 0 || outs.len() == 0 {
        Seq::empty()
    } else {
        spliced(items.drop_last(), outs.drop_last()) + contribution(items.last(), outs.last())
    }
}

/// Every outcome leaves its element unchanged.
pub open spec fn all_unchanged(outs: Seq<TransformResult<Node>>) -> bool {
    forall|k: int| 0 <= k < outs.len() ==> (#[trigger] outs[k]) is Unchanged
}

/// A walk of the list `items` in arena `old` met the outcomes `outs`, one
/// per element in order, leaving the arena `mid` after the last visit; the
/// result `r` and the final arena `fin` are then as the protocol says: with
/// no change the walk itself allocates nothing and reports the list
/// unchanged; otherwise it builds one new list, the splice of the outcomes,
/// and allocates one cell per element of it and nothing else.
pub open spec fn list_rebuilt(
    items: Seq<Node>,
    outs: Seq<TransformResult<Node>>,
    old: GCLock,
    mid: GCLock,
    fin: GCLock,
    r: TransformResult<NodeList>,
) -> bool {
    &&& outs.len() == items.len()
    &&& mid.extends(old)
    &&& fin.extends(mid)
    &&& all_unchanged(outs) ==> r is Unchanged && fin == mid
    &&& !all_unchanged(outs) ==> (r matches TransformResult::Changed(l) && {
        &&& fin.holds(l)
        &&& fin.list(l) == spliced(items, outs)
        &&& fin.node_count() == mid.node_count()
        &&& fin.cell_count() == mid.cell_count() + spliced(items, outs).len()
    })
}

/// Outcomes that all leave their elements unchanged splice to the elements
/// themselves.
pub proof fn lemma_spliced_unchanged(items: Seq<Node>, outs: Seq<TransformResult<Node>>)
    requires
        outs.len() == items.len(),
        all_unchanged(outs),
    ensures
        spliced(items, outs) == items,
    decreases items.len(),
{
    if items.len() > 0 {
        assert(all_unchanged(outs.drop_last())) by {
            assert forall|k: int| 0 <= k < outs.drop_last().len() implies (#[trigger] outs.drop_last()[k]) is Unchanged by {
                assert(outs.drop_last()[k] == outs[k]);
            };
        };
        lemma_spliced_unchanged(items.drop_last(), outs.drop_last());
        assert(outs.last() == outs[outs.len() - 1]);
        assert(items.drop_last() + seq![items.last()] =~= items);
    }
}

/// Splicing one more element with one more outcome appends that element's
/// contribution.
pub proof fn lemma_spliced_step(items: Seq<Node>, outs: Seq<TransformResult<Node>>, i: int, o: TransformResult<Node>)
    requires
        0 <= i < items.len(),
        outs.len() == i,
    ensures
        spliced(items.take(i + 1), outs.push(o)) == spliced(items.take(i), outs) + contribution(items[i], o),
{
    assert(items.take(i + 1).drop_last() =~= items.take(i));
    assert(outs.push(o).drop_last() =~= outs);
}

impl NodeList {
    /// Visit every element of this list, in order, as children held in the
    /// parent's field `path.field`.
    pub fn visit_child<V: Visitor>(self, lock: &GCLock, visitor: &mut V, path: Path)
        requires
            lock.wf(),
            lock.holds(self),
    {
        let mut it = self.iter();
        loop
            invariant
                lock.wf(),
                lock.holds(it.remaining()),
            decreases lock.list(it.remaining()).len(),
        {
            match it.next(lock) {
                Some(elem) => {
                    visitor.call(lock, elem, Some(path));
                },
                None => {
                    break;
                },
            }
        }
    }

    /// One step of rebuilding this list during a rewriting walk, on element
    /// `index` (which is `elem`) and the visitor's outcome on it. `acc` is
    /// `None` while every element so far was unchanged, and otherwise the
    /// new list so far. The first change gathers the unchanged elements
    /// before it, shared, not copied; each step then appends the element's
    /// contribution.
    pub fn rebuild_step(
        self,
        lock: &GCLock,
        acc: Option<Vec<Node>>,
        index: usize,
        elem: Node,
        outcome: TransformResult<Node>,
    ) -> (r: Option<Vec<Node>>)
        requires
            lock.wf(),
            lock.holds(self),
            index < lock.list(self).len(),
            elem == lock.list(self)[index as int],
        ensures
            acc is None && outcome is Unchanged ==> r is None,
            acc is None && !(outcome is Unchanged) ==> (r matches Some(v) && v@ == lock.list(self).take(
                index as int,
            ) + contribution(elem, outcome)),
            acc matches Some(a) ==> (r matches Some(v) && v@ == a@ + contribution(elem, outcome)),
    {
        let ghost items = lock.list(self);
        let mut buf: Vec<Node> = match acc {
            Some(a) => a,
            None => {
                if let TransformResult::Unchanged = outcome {
                    return None;
                }
                let mut prefix: Vec<Node> = Vec::new();
                let mut it = self.iter();
                let mut j: usize = 0;
                while j < index
                    invariant
                        lock.wf(),
                        j <= index,
                        index < items.len(),
                        items == lock.list(self),
                        lock.holds(it.remaining()),
                        lock.list(it.remaining()) == items.skip(j as int),
                        prefix@ == items.take(j as int),
                    decreases index - j,
                {
                    let n = it.next(lock);
                    match n {
                        Some(n) => {
                            prefix.push(n);
                        },
                        None => {},
                    }
                    assert(prefix@ =~= items.take(j as int + 1));
                    assert(lock.list(it.remaining()) =~= items.skip(j as int + 1));
                    j = j + 1;
                }
                prefix
            },
        };
        let ghost b0 = buf@;
        match outcome {
            TransformResult::Unchanged => {
                buf.push(elem);
            },
            TransformResult::Removed => {},
            TransformResult::Changed(n) => {
                buf.push(n);
            },
            TransformResult::Expanded(v) => {
                let mut k: usize = 0;
                while k < v.len()
                    invariant
                        k <= v@.len(),
                        buf@ == b0 + v@.take(k as int),
                    decreases v@.len() - k,
                {
                    buf.push(v[k]);
                    assert(v@.take(k as int + 1) =~= v@.take(k as int).push(v@[k as int]));
                    k = k + 1;
                }
                assert(v@.take(v@.len() as int) =~= v@);
            },
        }
        assert(buf@ =~= b0 + contribution(elem, outcome));
        Some(buf)
    }

    /// Visit every element of this list, in order, with a rewriting visitor,
    /// as children held in the list field `path.field`. While every element
    /// comes back unchanged nothing is allocated and the list is reported
    /// unchanged; otherwise a new list is built from the outcomes, sharing
    /// the elements that stay, and reported as the change.
    pub fn visit_child_mut<V: VisitorMut>(self, lock: &mut GCLock, visitor: &mut V, path: Path) -> (r:
        TransformResult<NodeList>)
        requires
            old(lock).wf(),
            old(lock).holds(self),
            path.field.is_list_spec(),
        ensures
            final(lock).wf(),
            final(lock).extends(*old(lock)),
            r is Unchanged || r is Changed,
            r matches TransformResult::Changed(l) ==> final(lock).holds(l),
            old(lock).list(self).len() == 0 ==> r is Unchanged && *final(lock) == *old(lock),
            exists|outs: Seq<TransformResult<Node>>, mid: GCLock| #[trigger]
                list_rebuilt(old(lock).list(self), outs, *old(lock), mid, *final(lock), r),
    {
        let ghost items = lock.list(self);
        let ghost start = *lock;
        let ghost mut outs: Seq<TransformResult<Node>> = Seq::empty();
        proof {
            lock.lemma_list_members(self);
        }
        let total = lock.cells_allocated();
        let mut acc: Option<Vec<Node>> = None;
        let mut it = self.iter();
        let mut index: usize = 0;
        loop
            invariant
                items.len() <= total,
                start == *old(lock),
                index == 0 ==> *lock == start,
                items == start.list(self),
                start.wf(),
                start.holds(self),
                path.field.is_list_spec(),
                lock.wf(),
                lock.extends(start),
                forall|k: int| 0 <= k < items.len() ==> start.contains(#[trigger] items[k]),
                start.holds(it.remaining()),
                start.list(it.remaining()) == items.skip(index as int),
                index <= items.len(),
                outs.len() == index,
                acc is None ==> all_unchanged(outs),
                acc matches Some(v) ==> {
                    &&& !all_unchanged(outs)
                    &&& v@ == spliced(items.take(index as int), outs)
                    &&& forall|k: int| 0 <= k < v@.len() ==> lock.contains(#[trigger] v@[k])
                },
            ensures
                index == items.len(),
                index == 0 ==> *lock == start,
                lock.wf(),
                lock.extends(start),
                outs.len() == index,
                acc is None ==> all_unchanged(outs),
                acc matches Some(v) ==> {
                    &&& !all_unchanged(outs)
                    &&& v@ == spliced(items.take(index as int), outs)
                    &&& forall|k: int| 0 <= k < v@.len() ==> lock.contains(#[trigger] v@[k])
                },
            decreases items.len() - index,
        {
            let ghost before = *lock;
            let ghost rem = it.remaining();
            let next = it.next(lock);
            match next {
                None => {
                    break;
                },
                Some(elem) => {
                    assert(items.skip(index as int)[0] == items[index as int]);
                    assert(start.contains(items[index as int]));
                    assert(start.list(it.remaining()) =~= items.skip(index as int + 1));
                    let o = visitor.call(lock, elem, Some(path));
                    let ghost og = o;
                    let ghost acc0 = acc;
                    assert(lock.list(self) == items);
                    proof {
                        lemma_spliced_step(items, outs, index as int, og);
                        if acc0 is None {
                            lemma_spliced_unchanged(items.take(index as int), outs);
                        }
                    }
                    acc = self.rebuild_step(lock, acc, index, elem, o);
                    proof {
                        if og is Unchanged && acc0 is None {
                            assert(all_unchanged(outs.push(og))) by {
                                assert forall|k: int| 0 <= k < outs.push(og).len() implies (#[trigger] outs.push(og)[k]) is Unchanged by {
                                    if k < outs.len() {
                                        assert(outs.push(og)[k] == outs[k]);
                                    }
                                };
                            };
                        } else {
                            assert(outs.push(og)[index as int] == og);
                            if og is Unchanged {
                                assert(!all_unchanged(outs));
                                let w = choose|k: int| 0 <= k < outs.len() && !(outs[k] is Unchanged);
                                assert(outs.push(og)[w] == outs[w]);
                            }
                            assert(!all_unchanged(outs.push(og)));
                        }
                        outs = outs.push(og);
                    }
                    index = index + 1;
                },
            }
        }
        let ghost mid = *lock;
        assert(items.take(index as int) =~= items);
        match acc {
            None => {
                assert(list_rebuilt(items, outs, start, mid, *lock, TransformResult::Unchanged));
                TransformResult::Unchanged
            },
            Some(v) => {
                let l = NodeList::from_iter(lock, v);
                assert(list_rebuilt(items, outs, start, mid, *lock, TransformResult::Changed(l)));
                TransformResult::Changed(l)
            },
        }
    }
}

impl Node {
    /// Visit each child of this node, field by field in the kind's order,
    /// every element of a list field in turn.
    pub fn visit_children<V: Visitor>(self, lock: &GCLock, visitor: &mut V)
        requires
            lock.wf(),
            lock.contains(self),
    {
        proof {
            lock.lemma_node_refs(self);
        }
        match lock.node(self).kind {
            NodeKind::ExpressionStatement { expression } => {
                expression.visit_child(lock, visitor, Path::new(self, NodeField::Expression));
            },
            NodeKind::BlockStatement { body } => {
                body.visit_child(lock, visitor, Path::new(self, NodeField::Body));
            },
            NodeKind::IfStatement { test, consequent, alternate } => {
                test.visit_child(lock, visitor, Path::new(self, NodeField::Test));
                consequent.visit_child(lock, visitor, Path::new(self, NodeField::Consequent));
                visit_optional_child(alternate, lock, visitor, Path::new(self, NodeField::Alternate));
            },
            _ => {},
        }
    }

    /// Visit each child of this node with a rewriting visitor and return
    /// the node that results: this very node when every field came back
    /// unchanged, else a fresh node with the same metadata and the same
    /// kind, whose fields hold the new values and share the unchanged ones,
    /// as `rebuild_after` says.
    pub fn visit_children_mut<V: VisitorMut>(self, lock: &mut GCLock, visitor: &mut V) -> (r: Node)
        requires
            old(lock).wf(),
            old(lock).contains(self),
        ensures
            final(lock).wf(),
            final(lock).extends(*old(lock)),
            final(lock).contains(r),
            r == self || {
                &&& r@ >= old(lock).node_count()
                &&& final(lock).data(r).metadata == old(lock).data(self).metadata
                &&& same_variant(final(lock).data(r).kind, old(lock).data(self).kind)
                &&& final(lock).data(r).kind.refs_below(final(lock).node_count(), final(lock).cell_count())
            },
            exists|outs: FieldOutcomes, mid: GCLock| #[trigger] node_rebuilt(self, outs, *old(lock), mid, *final(lock), r),
            (old(lock).data(self).kind is EmptyStatement || old(lock).data(self).kind is NumericLiteral
                || old(lock).data(self).kind is Identifier) ==> r == self && *final(lock) == *old(lock),
    {
        proof {
            lock.lemma_node_refs(self);
        }
        let data = lock.node(self);
        let outs = match data.kind {
            NodeKind::ExpressionStatement { expression } => FieldOutcomes::Expression(
                expression.visit_child_mut(lock, visitor, Path::new(self, NodeField::Expression)),
            ),
            NodeKind::BlockStatement { body } => FieldOutcomes::Body(
                body.visit_child_mut(lock, visitor, Path::new(self, NodeField::Body)),
            ),
            NodeKind::IfStatement { test, consequent, alternate } => {
                let t = test.visit_child_mut(lock, visitor, Path::new(self, NodeField::Test));
                let c = consequent.visit_child_mut(lock, visitor, Path::new(self, NodeField::Consequent));
                let a = visit_optional_child_mut(alternate, lock, visitor, Path::new(self, NodeField::Alternate));
                FieldOutcomes::If(t, c, a)
            },
            _ => FieldOutcomes::Leaf,
        };
        let ghost og = outs;
        let ghost mid = *lock;
        proof {
            lock.lemma_node_refs(self);
        }
        let r = self.rebuild_after(lock, outs);
        assert(node_rebuilt(self, og, *old(lock), mid, *lock, r));
        r
    }

    /// The node that results from this node once its fields met the
    /// outcomes `outs`: this very node, with nothing allocated, when every
    /// outcome is `Unchanged`; else a fresh node with the same metadata and
    /// the kind that `outs.applied_to` gives.
    pub fn rebuild_after(self, lock: &mut GCLock, outs: FieldOutcomes) -> (r: Node)
        requires
            old(lock).wf(),
            old(lock).contains(self),
            outs.fits(old(lock).data(self).kind),
            outs.settled(),
            outs.refs_in(*old(lock)),
        ensures
            final(lock).wf(),
            final(lock).extends(*old(lock)),
            final(lock).contains(r),
            outs.unchanged() ==> r == self && *final(lock) == *old(lock),
            !outs.unchanged() ==> {
                &&& r@ == old(lock).node_count()
                &&& final(lock).node_count() == old(lock).node_count() + 1
                &&& final(lock).cell_count() == old(lock).cell_count()
                &&& final(lock).data(r) == (NodeData {
                    metadata: old(lock).data(self).metadata,
                    kind: outs.applied_to(old(lock).data(self).kind),
                })
            },
    {
        proof {
            lock.lemma_node_refs(self);
        }
        let data = lock.node(self);
        if outs.is_unchanged() {
            return self;
        }
        let kind = match (data.kind, outs) {
            (NodeKind::ExpressionStatement { expression }, FieldOutcomes::Expression(e)) => {
                NodeKind::ExpressionStatement { expression: changed_or(e, expression) }
            },
            (NodeKind::BlockStatement { body }, FieldOutcomes::Body(b)) => {
                NodeKind::BlockStatement { body: changed_or(b, body) }
            },
            (NodeKind::IfStatement { test, consequent, alternate }, FieldOutcomes::If(t, c, a)) => {
                NodeKind::IfStatement {
                    test: changed_or(t, test),
                    consequent: changed_or(c, consequent),
                    alternate: changed_or(a, alternate),
                }
            },
            (k, _) => k,
        };
        lock.allocate_node(NodeData { metadata: data.metadata, kind })
    }
}

/// The children of `node` in arena `old` met the outcomes `outs`, one per
/// field, leaving the arena `mid` after the last visit; the result `r` and
/// the final arena `fin` are then as `rebuild_after` says.
pub open spec fn node_rebuilt(node: Node, outs: FieldOutcomes, old: GCLock, mid: GCLock, fin: GCLock, r: Node) -> bool {
    &&& outs.fits(old.data(node).kind)
    &&& outs.settled()
    &&& mid.extends(old)
    &&& fin.extends(mid)
    &&& outs.unchanged() ==> r == node && fin == mid
    &&& !outs.unchanged() ==> {
        &&& r@ == mid.node_count()
        &&& fin.node_count() == mid.node_count() + 1
        &&& fin.cell_count() == mid.cell_count()
        &&& fin.data(r) == (NodeData { metadata: old.data(node).metadata, kind: outs.applied_to(old.data(node).kind) })
    }
}

/// The value a field holds after an outcome: the replacement if it was
/// changed, else the value it held.
pub open spec fn value_after<T>(o: TransformResult<T>, old: T) -> T {
    match o {
        TransformResult::Changed(v) => v,
        _ => old,
    }
}

/// The value a field holds after an outcome, as `value_after` says.
pub fn changed_or<T>(o: TransformResult<T>, old: T) -> (r: T)
    ensures
        r == value_after(o, old),
{
    match o {
        TransformResult::Changed(v) => v,
        _ => old,
    }
}

/// The two kinds are the same variant.
pub open spec fn same_variant(a: NodeKind, b: NodeKind) -> bool {
    match (a, b) {
        (NodeKind::EmptyStatement, NodeKind::EmptyStatement) => true,
        (NodeKind::NumericLiteral { .. }, NodeKind::NumericLiteral { .. }) => true,
        (NodeKind::Identifier { .. }, NodeKind::Identifier { .. }) => true,
        (NodeKind::ExpressionStatement { .. }, NodeKind::ExpressionStatement { .. }) => true,
        (NodeKind::BlockStatement { .. }, NodeKind::BlockStatement { .. }) => true,
        (NodeKind::IfStatement { .. }, NodeKind::IfStatement { .. }) => true,
        _ => false,
    }
}

/// The outcomes met by the child fields of one node, field by field.
#[derive(Debug)]
pub enum FieldOutcomes {
    /// A kind without child fields.
    Leaf,
    /// The `expression` field of an expression statement.
    Expression(TransformResult<Node>),
    /// The `body` field of a block.
    Body(TransformResult<NodeList>),
    /// The `test`, `consequent` and `alternate` fields of an if statement.
    If(TransformResult<Node>, TransformResult<Node>, TransformResult<Option<Node>>),
}

/// The outcome is `Unchanged` or `Changed`.
pub open spec fn is_settled<T>(o: TransformResult<T>) -> bool {
    o is Unchanged || o is Changed
}

impl FieldOutcomes {
    /// The outcomes are for the fields of a node of this kind.
    pub open spec fn fits(self, kind: NodeKind) -> bool {
        match (self, kind) {
            (FieldOutcomes::Expression(_), NodeKind::ExpressionStatement { .. }) => true,
            (FieldOutcomes::Body(_), NodeKind::BlockStatement { .. }) => true,
            (FieldOutcomes::If(_, _, _), NodeKind::IfStatement { .. }) => true,
            (FieldOutcomes::Leaf, NodeKind::EmptyStatement) => true,
            (FieldOutcomes::Leaf, NodeKind::NumericLiteral { .. }) => true,
            (FieldOutcomes::Leaf, NodeKind::Identifier { .. }) => true,
            _ => false,
        }
    }

    /// Every outcome leaves its field unchanged.
    pub open spec fn unchanged(self) -> bool {
        match self {
            FieldOutcomes::Leaf => true,
            FieldOutcomes::Expression(e) => e is Unchanged,
            FieldOutcomes::Body(b) => b is Unchanged,
            FieldOutcomes::If(t, c, a) => t is Unchanged && c is Unchanged && a is Unchanged,
        }
    }

    /// Every outcome either keeps its field or replaces its value.
    pub open spec fn settled(self) -> bool {
        match self {
            FieldOutcomes::Leaf => true,
            FieldOutcomes::Expression(e) => is_settled(e),
            FieldOutcomes::Body(b) => is_settled(b),
            FieldOutcomes::If(t, c, a) => is_settled(t) && is_settled(c) && is_settled(a),
        }
    }

    /// Every replacement is allocated in the arena.
    pub open spec fn refs_in(self, lock: GCLock) -> bool {
        match self {
            FieldOutcomes::Leaf => true,
            FieldOutcomes::Expression(e) => outcome_in(lock, e),
            FieldOutcomes::Body(b) => b matches TransformResult::Changed(l) ==> lock.holds(l),
            FieldOutcomes::If(t, c, a) => {
                &&& outcome_in(lock, t)
                &&& outcome_in(lock, c)
                &&& a matches TransformResult::Changed(Some(n)) ==> lock.contains(n)
            },
        }
    }

    /// The kind with each field replaced by its `Changed` value, and kept
    /// otherwise.
    pub open spec fn applied_to(self, kind: NodeKind) -> NodeKind {
        match (self, kind) {
            (FieldOutcomes::Expression(e), NodeKind::ExpressionStatement { expression }) => {
                NodeKind::ExpressionStatement { expression: value_after(e, expression) }
            },
            (FieldOutcomes::Body(b), NodeKind::BlockStatement { body }) => {
                NodeKind::BlockStatement { body: value_after(b, body) }
            },
            (FieldOutcomes::If(t, c, a), NodeKind::IfStatement { test, consequent, alternate }) => {
                NodeKind::IfStatement {
                    test: value_after(t, test),
                    consequent: value_after(c, consequent),
                    alternate: value_after(a, alternate),
                }
            },
            _ => kind,
        }
    }

    /// Whether every outcome leaves its field unchanged.
    pub fn is_unchanged(&self) -> (r: bool)
        ensures
            r == self.unchanged(),
    {
        match self {
            FieldOutcomes::Leaf => true,
            FieldOutcomes::Expression(e) => matches!(e, TransformResult::Unchanged),
            FieldOutcomes::Body(b) => matches!(b, TransformResult::Unchanged),
            FieldOutcomes::If(t, c, a) => matches!(t, TransformResult::Unchanged) && matches!(
                c,
                TransformResult::Unchanged
            ) && matches!(a, TransformResult::Unchanged),
        }
    }
}

/// A rewriting walk over a list in which every element came back unchanged
/// reports the list itself unchanged and allocates nothing of its own: the
/// arena at the end is the one the last visit left.
pub proof fn lemma_unchanged_walk_allocates_nothing(
    items: Seq<Node>,
    outs: Seq<TransformResult<Node>>,
    old: GCLock,
    mid: GCLock,
    fin: GCLock,
    r: TransformResult<NodeList>,
)
    requires
        list_rebuilt(items, outs, old, mid, fin, r),
        all_unchanged(outs),
    ensures
        r is Unchanged,
        fin == mid,
{
}

/// Expanding the middle element of `[a, b, c]` into `[x, y]`, with the
/// others unchanged, yields the new list `[a, x, y, c]`, whose first and
/// last elements are the very nodes `a` and `c`.
pub proof fn lemma_splice_expanded(
    a: Node,
    b: Node,
    c: Node,
    xy: Vec<Node>,
    old: GCLock,
    mid: GCLock,
    fin: GCLock,
    r: TransformResult<NodeList>,
)
    requires
        list_rebuilt(
            seq![a, b, c],
            seq![TransformResult::Unchanged, TransformResult::Expanded(xy), TransformResult::Unchanged],
            old,
            mid,
            fin,
            r,
        ),
        xy@.len() == 2,
    ensures
        r matches TransformResult::Changed(l) && fin.list(l) == seq![a, xy@[0], xy@[1], c],
{
    let u = TransformResult::<Node>::Unchanged;
    let e = TransformResult::Expanded(xy);
    let i1 = seq![a];
    let o1 = seq![u];
    let i2 = seq![a, b];
    let o2 = seq![u, e];
    let i3 = seq![a, b, c];
    let o3 = seq![u, e, u];
    assert(!(o3[1] is Unchanged));
    assert(!all_unchanged(o3));
    assert(i1.drop_last() =~= Seq::<Node>::empty());
    assert(o1.drop_last() =~= Seq::<TransformResult<Node>>::empty());
    assert(spliced(Seq::<Node>::empty(), Seq::<TransformResult<Node>>::empty()) =~= Seq::<Node>::empty());
    assert(i1.last() == a);
    assert(o1.last() == u);
    assert(contribution(a, u) =~= seq![a]);
    assert(spliced(i1, o1) =~= seq![a]);
    assert(i2.drop_last() =~= i1);
    assert(o2.drop_last() =~= o1);
    assert(i2.last() == b && o2.last() == e);
    assert(spliced(i2, o2) =~= seq![a] + xy@);
    assert(i3.drop_last() =~= i2);
    assert(o3.drop_last() =~= o2);
    assert(i3.last() == c && o3.last() == u);
    assert(spliced(i3, o3) =~= seq![a] + xy@ + seq![c]);
    assert(seq![a] + xy@ + seq![c] =~= seq![a, xy@[0], xy@[1], c]);
}

} // verus!
