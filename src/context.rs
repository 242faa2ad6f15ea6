//! The arena that owns every node and list cell of one tree, the lock
//! through which it is read and grown, and the handles into it.
use vstd::prelude::*;
use crate::kind::NodeKind;
use crate::source::SourceRange;

verus! {

/// A handle to a node in the arena. Two handles are equal exactly when they
/// denote the same allocation, whatever the nodes hold.
#[derive(Debug, Clone, Copy, PartialEq, Eq, Hash, Structural)]
pub struct Node {
    id: usize,
}

/// A hashable handle to a node, compared by identity.
pub type NodePtr = Node;

impl View for Node {
    type V = nat;

    /// The node's slot in the arena.
    closed spec fn view(&self) -> nat {
        self.id as nat
    }
}

/// An ordered list of nodes, held as a chain of arena cells. Copying the
/// handle copies the head only; the cells are shared.
#[derive(Debug, Clone, Copy)]
pub struct NodeList {
    head: Option<usize>,
}

impl View for NodeList {
    type V = Option<nat>;

    /// The slot of the first cell, or `None` for the empty list.
    closed spec fn view(&self) -> Option<nat> {
        match self.head {
            Some(i) => Some(i as nat),
            None => None,
        }
    }
}

impl NodeList {
    /// The head lies among the first `cells` cells of an arena.
    pub open spec fn below(self, cells: nat) -> bool {
        match self@ {
            Some(i) => i < cells,
            None => true,
        }
    }
}

/// One cell of a list: an element and the rest of the list.
#[derive(Debug, Clone, Copy)]
pub struct ListCell {
    pub node: Node,
    pub next: NodeList,
}

/// Metadata common to all nodes.
#[derive(Debug, Clone, Copy)]
pub struct NodeMetadata {
    pub range: SourceRange,
}

/// Metadata given in a template; the default range is the invalid one.
#[derive(Debug, Clone, Copy)]
pub struct TemplateMetadata {
    pub range: SourceRange,
}

impl Default for TemplateMetadata {
    fn default() -> (r: TemplateMetadata)
        ensures
            r.range == SourceRange::invalid_spec(),
    {
        TemplateMetadata { range: SourceRange::invalid() }
    }
}

impl TemplateMetadata {
    /// Template metadata that copies the metadata of an existing node.
    pub fn from_metadata(metadata: &NodeMetadata) -> (r: TemplateMetadata)
        ensures
            r.range == metadata.range,
    {
        TemplateMetadata { range: metadata.range }
    }

    /// Template metadata with the given range.
    pub fn from_range(range: SourceRange) -> (r: TemplateMetadata)
        ensures
            r.range == range,
    {
        TemplateMetadata { range }
    }
}

impl From<SourceRange> for TemplateMetadata {
    /// Template metadata with the given range.
    fn from(range: SourceRange) -> (r: TemplateMetadata) {
        TemplateMetadata { range }
    }
}

impl vstd::std_specs::convert::FromSpecImpl<SourceRange> for TemplateMetadata {
    open spec fn obeys_from_spec() -> bool {
        true
    }

    open spec fn from_spec(range: SourceRange) -> TemplateMetadata {
        TemplateMetadata { range }
    }
}

impl<'a> From<&'a NodeMetadata> for TemplateMetadata {
    /// Template metadata that copies the metadata of an existing node.
    fn from(metadata: &'a NodeMetadata) -> (r: TemplateMetadata) {
        TemplateMetadata { range: metadata.range }
    }
}

impl<'a> vstd::std_specs::convert::FromSpecImpl<&'a NodeMetadata> for TemplateMetadata {
    open spec fn obeys_from_spec() -> bool {
        true
    }

    open spec fn from_spec(metadata: &'a NodeMetadata) -> TemplateMetadata {
        TemplateMetadata { range: metadata.range }
    }
}

impl NodeMetadata {
    /// The metadata of a node built from template metadata.
    pub fn build_template(template: TemplateMetadata) -> (r: NodeMetadata)
        ensures
            r.range == template.range,
    {
        NodeMetadata { range: template.range }
    }
}

/// What a node holds: its metadata and its kind with the kind's fields.
#[derive(Debug, Clone, Copy)]
pub struct NodeData {
    pub metadata: NodeMetadata,
    pub kind: NodeKind,
}

/// The elements of the list whose first cell is `head`, following `next`
/// links, each of which points to an earlier cell.
pub closed spec fn chain(cells: Seq<ListCell>, head: Option<usize>) -> Seq<Node>
    decreases
            match head {
                Some(i) => i as int + 1,
                None => 0int,
            },
{
    match head {
        None => Seq::empty(),
        Some(i) => {
            if (i as int) < cells.len() {
                let c = cells[i as int];
                match c.next.head {
                    Some(j) => if j < i {
                        seq![c.node] + chain(cells, c.next.head)
                    } else {
                        seq![c.node]
                    },
                    None => seq![c.node],
                }
            } else {
                Seq::empty()
            }
        },
    }
}

/// The lock on an arena: the one way to allocate nodes and list cells and
/// to read them. The arena only grows while the lock is held; a node or a
/// cell once allocated never changes.
pub struct GCLock {
    nodes: Vec<NodeData>,
    cells: Vec<ListCell>,
}

impl GCLock {
    /// How many nodes the arena holds.
    pub closed spec fn node_count(&self) -> nat {
        self.nodes@.len()
    }

    /// How many list cells the arena holds.
    pub closed spec fn cell_count(&self) -> nat {
        self.cells@.len()
    }

    /// The node is allocated in this arena.
    pub open spec fn contains(&self, n: Node) -> bool {
        n@ < self.node_count()
    }

    /// The list's cells are allocated in this arena.
    pub open spec fn holds(&self, l: NodeList) -> bool {
        l.below(self.cell_count())
    }

    /// What the node holds.
    pub closed spec fn data(&self, n: Node) -> NodeData {
        self.nodes@[n@ as int]
    }

    /// The elements of the list, in order.
    pub closed spec fn list(&self, l: NodeList) -> Seq<Node> {
        chain(self.cells@, l.head)
    }

    /// Every cell refers to an allocated node and links to an earlier cell,
    /// and every node refers only to nodes and cells allocated before it.
    pub closed spec fn wf(&self) -> bool {
        &&& forall|i: int|
            0 <= i < self.cells@.len() ==> {
                &&& (#[trigger] self.cells@[i]).node@ < self.nodes@.len()
                &&& match self.cells@[i].next.head {
                    Some(j) => j < i,
                    None => true,
                }
            }
        &&& forall|i: int|
            0 <= i < self.nodes@.len() ==> (#[trigger] self.nodes@[i]).kind.refs_below(
                self.nodes@.len(),
                self.cells@.len(),
            )
    }

    /// This arena is `old` with nodes and cells added: whatever `old` held,
    /// this one holds unchanged.
    pub open spec fn extends(&self, old: GCLock) -> bool {
        &&& old.node_count() <= self.node_count()
        &&& old.cell_count() <= self.cell_count()
        &&& forall|n: Node| old.contains(n) ==> #[trigger] self.data(n) == old.data(n)
        &&& forall|l: NodeList| old.holds(l) ==> #[trigger] self.list(l) == old.list(l)
    }

    /// Every element of a list of a well-formed arena is allocated there,
    /// and the list is empty exactly when its handle has no head.
    pub proof fn lemma_list_members(&self, l: NodeList)
        requires
            self.wf(),
            self.holds(l),
        ensures
            forall|k: int| 0 <= k < self.list(l).len() ==> self.contains(#[trigger] self.list(l)[k]),
            (self.list(l).len() == 0) <==> (l@ is None),
            self.list(l).len() <= self.cell_count(),
        decreases
                match l@ {
                    Some(i) => i as int + 1,
                    None => 0int,
                },
    {
        match l.head {
            None => {},
            Some(i) => {
                let c = self.cells@[i as int];
                self.lemma_list_members(c.next);
                assert(self.list(l) == seq![c.node] + self.list(c.next));
                assert forall|k: int| 0 <= k < self.list(l).len() implies self.contains(
                    #[trigger] self.list(l)[k],
                ) by {
                    if k > 0 {
                        assert(self.list(l)[k] == self.list(c.next)[k - 1]);
                    }
                };
                if let Some(j) = c.next.head {
                    assert(self.list(c.next).len() <= j + 1) by {
                        self.lemma_list_short(c.next);
                    };
                } else {
                }
            },
        }
    }

    proof fn lemma_list_short(&self, l: NodeList)
        requires
            self.wf(),
            self.holds(l),
        ensures
            match l.head {
                Some(i) => self.list(l).len() <= i + 1,
                None => self.list(l).len() == 0,
            },
        decreases
                match l.head {
                    Some(i) => i as int + 1,
                    None => 0int,
                },
    {
        if let Some(i) = l.head {
            let c = self.cells@[i as int];
            self.lemma_list_short(c.next);
        }
    }

    /// In a well-formed arena a node refers only to allocated nodes and lists.
    pub proof fn lemma_node_refs(&self, n: Node)
        requires
            self.wf(),
            self.contains(n),
        ensures
            self.data(n).kind.refs_below(self.node_count(), self.cell_count()),
    {
        assert(self.nodes@[n@ as int] == self.data(n));
    }

    /// Chains that start among the first `old.len()` cells do not change
    /// when cells are added after them.
    proof fn lemma_chain_prefix(old: Seq<ListCell>, new: Seq<ListCell>, head: Option<usize>)
        requires
            old.len() <= new.len(),
            forall|i: int| 0 <= i < old.len() ==> new[i] == old[i],
            match head {
                Some(i) => i < old.len(),
                None => true,
            },
        ensures
            chain(new, head) == chain(old, head),
        decreases
                match head {
                    Some(i) => i as int + 1,
                    None => 0int,
                },
    {
        if let Some(i) = head {
            let c = old[i as int];
            if let Some(j) = c.next.head {
                if j < i {
                    Self::lemma_chain_prefix(old, new, c.next.head);
                }
            }
        }
    }

    /// An empty arena.
    fn new_arena() -> (r: GCLock)
        ensures
            r.wf(),
            r.node_count() == 0,
            r.cell_count() == 0,
    {
        GCLock { nodes: Vec::new(), cells: Vec::new() }
    }

    /// Allocate a node holding `data`. The node is fresh: its handle differs
    /// from that of every node allocated before.
    pub fn allocate_node(&mut self, data: NodeData) -> (r: Node)
        requires
            old(self).wf(),
            data.kind.refs_below(old(self).node_count(), old(self).cell_count()),
        ensures
            final(self).wf(),
            final(self).extends(*old(self)),
            r@ == old(self).node_count(),
            final(self).node_count() == old(self).node_count() + 1,
            final(self).cell_count() == old(self).cell_count(),
            final(self).data(r) == data,
    {
        let id = self.nodes.len();
        self.nodes.push(data);
        let r = Node { id };
        assert(self.nodes@[id as int] == data);
        assert forall|i: int| 0 <= i < self.nodes@.len() implies (#[trigger] self.nodes@[i]).kind.refs_below(
            self.nodes@.len(),
            self.cells@.len(),
        ) by {
            if i < id {
                assert(self.nodes@[i] == old(self).nodes@[i]);
            }
        };
        assert forall|n: Node| old(self).contains(n) implies #[trigger] self.data(n) == old(self).data(n) by {
            assert(self.nodes@[n@ as int] == old(self).nodes@[n@ as int]);
        };
        r
    }

    /// Allocate a cell holding `node` in front of `next`: the new list is
    /// `node` followed by the elements of `next`.
    pub fn push_cell(&mut self, node: Node, next: NodeList) -> (r: NodeList)
        requires
            old(self).wf(),
            old(self).contains(node),
            old(self).holds(next),
        ensures
            final(self).wf(),
            final(self).extends(*old(self)),
            final(self).node_count() == old(self).node_count(),
            final(self).cell_count() == old(self).cell_count() + 1,
            final(self).holds(r),
            final(self).list(r) == seq![node] + old(self).list(next),
    {
        let id = self.cells.len();
        self.cells.push(ListCell { node, next });
        let r = NodeList { head: Some(id) };
        proof {
            Self::lemma_chain_prefix(old(self).cells@, self.cells@, next.head);
            assert forall|l: NodeList| old(self).holds(l) implies #[trigger] self.list(l) == old(self).list(l) by {
                Self::lemma_chain_prefix(old(self).cells@, self.cells@, l.head);
            };
            assert forall|n: Node| old(self).contains(n) implies #[trigger] self.data(n) == old(self).data(n) by {};
            assert forall|i: int| 0 <= i < self.nodes@.len() implies (#[trigger] self.nodes@[i]).kind.refs_below(
                self.nodes@.len(),
                self.cells@.len(),
            ) by {
                assert(self.nodes@[i] == old(self).nodes@[i]);
            };
            assert(self.cells@[id as int] == ListCell { node, next });
        }
        r
    }

    /// How many list cells the arena holds.
    pub fn cells_allocated(&self) -> (r: usize)
        ensures
            r == self.cell_count(),
    {
        self.cells.len()
    }

    /// What the node holds.
    pub fn node(&self, n: Node) -> (r: NodeData)
        requires
            self.contains(n),
        ensures
            r == self.data(n),
    {
        self.nodes[n.id]
    }

    /// The source range of the node.
    pub fn range(&self, n: Node) -> (r: SourceRange)
        requires
            self.contains(n),
        ensures
            r == self.data(n).metadata.range,
    {
        self.nodes[n.id].metadata.range
    }

    /// The first element of a non-empty list and the list of the rest.
    pub fn split_first(&self, l: NodeList) -> (r: Option<(Node, NodeList)>)
        requires
            self.wf(),
            self.holds(l),
        ensures
            r is None <==> self.list(l).len() == 0,
            r matches Some((n, rest)) ==> {
                &&& n == self.list(l)[0]
                &&& self.contains(n)
                &&& self.holds(rest)
                &&& forall|c: nat| l.below(c) ==> #[trigger] rest.below(c)
                &&& self.list(rest) == self.list(l).skip(1)
            },
    {
        proof {
            self.lemma_list_members(l);
        }
        match l.head {
            None => None,
            Some(i) => {
                let c = self.cells[i];
                proof {
                    assert(self.cells@[i as int] == c);
                    assert(self.list(l) == seq![c.node] + self.list(c.next));
                    assert(self.list(l).skip(1) =~= self.list(c.next));
                }
                Some((c.node, c.next))
            },
        }
    }
}

/// Two node handles are equal exactly when they name the same slot.
pub proof fn lemma_node_identity(a: Node, b: Node)
    ensures
        (a == b) <==> (a@ == b@),
{
}

/// The owner of an arena. While a lock is out the context holds nothing,
/// so a second lock on it cannot be taken.
pub struct Context {
    arena: Option<GCLock>,
}

impl Context {
    /// No lock on this context is outstanding.
    pub closed spec fn is_free(&self) -> bool {
        self.arena is Some
    }

    /// The arena the context holds while no lock is out.
    pub closed spec fn stored(&self) -> GCLock {
        self.arena->Some_0
    }

    /// A context with an empty arena and no lock outstanding.
    pub fn new() -> (r: Context)
        ensures
            r.is_free(),
            r.stored().wf(),
            r.stored().node_count() == 0,
            r.stored().cell_count() == 0,
    {
        Context { arena: Some(GCLock::new_arena()) }
    }

    /// Whether no lock on this context is outstanding.
    pub fn free(&self) -> (r: bool)
        ensures
            r == self.is_free(),
    {
        self.arena.is_some()
    }
}

impl GCLock {
    /// Take the lock on the context's arena. Taking a second lock while one
    /// is out is a misuse, which the precondition rules out.
    pub fn new(ctx: &mut Context) -> (r: GCLock)
        requires
            old(ctx).is_free(),
        ensures
            r == old(ctx).stored(),
            !final(ctx).is_free(),
    {
        match ctx.arena.take() {
            Some(lock) => lock,
            None => vstd::pervasive::unreached(),
        }
    }

    /// Give the lock back; the context then holds the arena as the lock
    /// left it.
    pub fn release(self, ctx: &mut Context)
        requires
            !old(ctx).is_free(),
        ensures
            final(ctx).is_free(),
            final(ctx).stored() == self,
    {
        ctx.arena = Some(self);
    }
}

impl NodeList {
    /// The empty list. Allocates nothing.
    pub fn new(_lock: &GCLock) -> (r: NodeList)
        ensures
            r@ is None,
            _lock.holds(r),
            _lock.list(r) == Seq::<Node>::empty(),
    {
        NodeList { head: None }
    }

    /// Link the given nodes into a list, in the given order, with one new
    /// cell per node and no new node.
    pub fn from_iter(lock: &mut GCLock, nodes: Vec<Node>) -> (r: NodeList)
        requires
            old(lock).wf(),
            forall|k: int| 0 <= k < nodes@.len() ==> old(lock).contains(#[trigger] nodes@[k]),
        ensures
            final(lock).wf(),
            final(lock).extends(*old(lock)),
            final(lock).node_count() == old(lock).node_count(),
            final(lock).cell_count() == old(lock).cell_count() + nodes@.len(),
            final(lock).holds(r),
            final(lock).list(r) == nodes@,
    {
        let mut head = NodeList { head: None };
        let mut i: usize = nodes.len();
        assert(nodes@.subrange(i as int, nodes@.len() as int) =~= Seq::<Node>::empty());
        while i > 0
            invariant
                i <= nodes@.len(),
                lock.wf(),
                lock.extends(*old(lock)),
                lock.node_count() == old(lock).node_count(),
                lock.cell_count() == old(lock).cell_count() + (nodes@.len() - i),
                lock.holds(head),
                lock.list(head) == nodes@.subrange(i as int, nodes@.len() as int),
                forall|k: int| 0 <= k < nodes@.len() ==> old(lock).contains(#[trigger] nodes@[k]),
            decreases i,
        {
            i = i - 1;
            let n = nodes[i];
            assert(old(lock).contains(nodes@[i as int]));
            head = lock.push_cell(n, head);
            assert(lock.list(head) =~= nodes@.subrange(i as int, nodes@.len() as int));
        }
        assert(nodes@.subrange(0, nodes@.len() as int) =~= nodes@);
        head
    }

    /// An iterator over the elements, from the first. Each call starts
    /// afresh from the head, so a list can be walked any number of times.
    pub fn iter(self) -> (r: NodeListIterator)
        ensures
            r.remaining() == self,
    {
        NodeListIterator { rest: self }
    }

    /// Whether the list has no element. Cost: O(1).
    pub fn is_empty(&self) -> (r: bool)
        ensures
            r == (self@ is None),
    {
        self.head.is_none()
    }

    /// The first element, if the list has one.
    pub fn head(&self, lock: &GCLock) -> (r: Option<Node>)
        requires
            lock.wf(),
            lock.holds(*self),
        ensures
            lock.list(*self).len() == 0 ==> r is None,
            lock.list(*self).len() > 0 ==> r == Some(lock.list(*self)[0]),
    {
        let mut it = self.iter();
        it.next(lock)
    }

    /// The number of elements. Cost: O(n); prefer `is_empty` where that is
    /// all that is asked.
    pub fn len(&self, lock: &GCLock) -> (r: usize)
        requires
            lock.wf(),
            lock.holds(*self),
        ensures
            r == lock.list(*self).len(),
    {
        proof {
            lock.lemma_list_members(*self);
        }
        let cells = lock.cells.len();
        let mut it = self.iter();
        let mut count: usize = 0;
        loop
            invariant
                lock.wf(),
                lock.holds(it.remaining()),
                count + lock.list(it.remaining()).len() == lock.list(*self).len(),
                lock.list(*self).len() <= lock.cell_count(),
                lock.cell_count() == cells,
            decreases lock.list(it.remaining()).len(),
        {
            match it.next(lock) {
                Some(_) => {
                    count = count + 1;
                },
                None => {
                    return count;
                },
            }
        }
    }
}

/// Walks the elements of a list in order.
pub struct NodeListIterator {
    rest: NodeList,
}

impl NodeListIterator {
    /// The part of the list not yet walked.
    pub closed spec fn remaining(&self) -> NodeList {
        self.rest
    }

    /// The next element, or `None` once the list is exhausted.
    pub fn next(&mut self, lock: &GCLock) -> (r: Option<Node>)
        requires
            lock.wf(),
            lock.holds(old(self).remaining()),
        ensures
            lock.holds(final(self).remaining()),
            forall|c: nat| old(self).remaining().below(c) ==> #[trigger] final(self).remaining().below(c),
            lock.list(old(self).remaining()).len() == 0 ==> {
                &&& r is None
                &&& lock.list(final(self).remaining()).len() == 0
            },
            lock.list(old(self).remaining()).len() > 0 ==> {
                &&& r == Some(lock.list(old(self).remaining())[0])
                &&& lock.contains(lock.list(old(self).remaining())[0])
                &&& lock.list(final(self).remaining()) == lock.list(old(self).remaining()).skip(1)
            },
    {
        match lock.split_first(self.rest) {
            Some((n, rest)) => {
                self.rest = rest;
                Some(n)
            },
            None => None,
        }
    }
}

/// A list built from a sequence of nodes yields exactly that sequence, in
/// order, and every walk of it, however many, starts from its first element.
pub proof fn lemma_iteration_order(lock: GCLock, l: NodeList, nodes: Seq<Node>, a: NodeListIterator, b: NodeListIterator)
    requires
        lock.list(l) == nodes,
        a.remaining() == l,
        b.remaining() == l,
    ensures
        lock.list(a.remaining()) == nodes,
        lock.list(a.remaining()) == lock.list(b.remaining()),
{
}

} // verus!
