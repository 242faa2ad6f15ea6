use juno_ast::builder;
use juno_ast::template;
use juno_ast::visit::{changed_or, settle_optional};
use juno_ast::{
    BinaryExpressionOperator, Context, FieldOutcomes, GCLock, Node, NodeField, NodeKind, NodeList, NodePtr, Path,
    PropertyKind, SourceId, SourceLoc, SourceRange, TemplateMetadata, TransformResult,
    TryFromStringError, Visitor, VisitorMut,
};
use std::collections::HashMap;

fn number(lock: &mut GCLock, value: f64) -> Node {
    builder::NumericLiteral::build_template(
        lock,
        template::NumericLiteral {
            metadata: Default::default(),
            value: value.to_bits(),
        },
    )
}

fn number_at(lock: &mut GCLock, value: f64, start: (u32, u32), end: (u32, u32)) -> Node {
    builder::NumericLiteral::build_template(
        lock,
        template::NumericLiteral {
            metadata: TemplateMetadata::from_range(SourceRange {
                file: SourceId { id: 3 },
                start: SourceLoc { line: start.0, col: start.1 },
                end: SourceLoc { line: end.0, col: end.1 },
            }),
            value: value.to_bits(),
        },
    )
}

fn elements(lock: &GCLock, list: NodeList) -> Vec<Node> {
    let mut out = Vec::new();
    let mut it = list.iter();
    while let Some(n) = it.next(lock) {
        out.push(n);
    }
    out
}

fn value_of(lock: &GCLock, n: Node) -> f64 {
    match lock.node(n).kind {
        NodeKind::NumericLiteral { value } => f64::from_bits(value),
        _ => panic!("not a number literal"),
    }
}

/// Leaves every node as it is.
struct Keep {
    calls: usize,
}

impl VisitorMut for Keep {
    fn call(&mut self, _lock: &mut GCLock, _node: Node, _path: Option<Path>) -> TransformResult<Node> {
        self.calls += 1;
        TransformResult::Unchanged
    }
}

/// Gives one fixed outcome for one node and leaves the others.
struct Rewrite {
    target: Node,
    outcome: Option<TransformResult<Node>>,
}

impl VisitorMut for Rewrite {
    fn call(&mut self, _lock: &mut GCLock, node: Node, _path: Option<Path>) -> TransformResult<Node> {
        if node == self.target {
            self.outcome.take().unwrap_or(TransformResult::Unchanged)
        } else {
            TransformResult::Unchanged
        }
    }
}

/// Records the nodes it sees and the fields they sit in.
struct Record {
    seen: Vec<(Node, Option<NodeField>)>,
}

impl Visitor for Record {
    fn call(&mut self, _lock: &GCLock, node: Node, path: Option<Path>) {
        self.seen.push((node, path.map(|p| p.field)));
    }
}

#[test]
fn test_node_ref() {
    let mut ctx = Context::new();
    let mut lock = GCLock::new(&mut ctx);

    let mut m = HashMap::new();

    let n1 = NodePtr::from(builder::NumericLiteral::build_template(
        &mut lock,
        template::NumericLiteral {
            metadata: Default::default(),
            value: 10.0f64.to_bits(),
        },
    ));
    let n2 = NodePtr::from(builder::NumericLiteral::build_template(
        &mut lock,
        template::NumericLiteral {
            metadata: Default::default(),
            value: 20.0f64.to_bits(),
        },
    ));
    let n25 = Box::new(n2);
    assert_ne!(n1, n2);
    assert_eq!(n2, *n25);
    m.insert(n1, 10);
    m.insert(n2, 20);

    assert_eq!(10, *m.get(&n1).unwrap());
    assert_eq!(20, *m.get(&n2).unwrap());
    assert_eq!(20, *m.get(&*n25).unwrap());
}

#[test]
fn equal_templates_give_distinct_nodes() {
    let mut ctx = Context::new();
    let mut lock = GCLock::new(&mut ctx);
    let a = number(&mut lock, 1.5);
    let b = number(&mut lock, 1.5);
    assert_ne!(a, b);
    assert_eq!(a, a);
    assert_eq!(value_of(&lock, a), value_of(&lock, b));
}

#[test]
fn default_template_metadata_is_invalid_range() {
    let mut ctx = Context::new();
    let mut lock = GCLock::new(&mut ctx);
    let a = number(&mut lock, 0.0);
    let r = lock.range(a);
    assert_eq!(r, SourceRange::invalid());
    assert_eq!(r.file, SourceId::invalid());
    assert!(!r.start.is_valid());
    assert!(!r.end.is_valid());
}

#[test]
fn empty_list_allocates_nothing() {
    let mut ctx = Context::new();
    let lock = GCLock::new(&mut ctx);
    let before = lock.cells_allocated();
    let l = NodeList::new(&lock);
    assert!(l.is_empty());
    assert_eq!(l.len(&lock), 0);
    assert!(l.head(&lock).is_none());
    assert_eq!(lock.cells_allocated(), before);
    let mut lock = lock;
    let e = NodeList::from_iter(&mut lock, Vec::new());
    assert!(e.is_empty());
    assert_eq!(lock.cells_allocated(), before);
}

#[test]
fn list_keeps_order_and_restarts() {
    let mut ctx = Context::new();
    let mut lock = GCLock::new(&mut ctx);
    let ns: Vec<Node> = (0..5).map(|i| number(&mut lock, i as f64)).collect();
    let l = NodeList::from_iter(&mut lock, ns.clone());
    assert_eq!(lock.cells_allocated(), 5);
    assert!(!l.is_empty());
    assert_eq!(l.len(&lock), 5);
    assert_eq!(l.head(&lock), Some(ns[0]));
    assert_eq!(elements(&lock, l), ns);
    assert_eq!(elements(&lock, l), ns);
    let mut it = l.iter();
    for n in &ns {
        assert_eq!(it.next(&lock), Some(*n));
    }
    assert_eq!(it.next(&lock), None);
    assert_eq!(it.next(&lock), None);
}

#[test]
fn release_and_lock_again_keeps_the_arena() {
    let mut ctx = Context::new();
    assert!(ctx.free());
    let mut lock = GCLock::new(&mut ctx);
    assert!(!ctx.free());
    let a = number(&mut lock, 7.0);
    lock.release(&mut ctx);
    assert!(ctx.free());
    let lock = GCLock::new(&mut ctx);
    assert_eq!(value_of(&lock, a), 7.0);
}

#[test]
fn unchanged_walk_allocates_nothing() {
    let mut ctx = Context::new();
    let mut lock = GCLock::new(&mut ctx);
    let ns: Vec<Node> = (0..4).map(|i| number(&mut lock, i as f64)).collect();
    let body = NodeList::from_iter(&mut lock, ns.clone());
    let block = builder::BlockStatement::build_template(
        &mut lock,
        template::BlockStatement { metadata: Default::default(), body },
    );
    let cells = lock.cells_allocated();
    let mut keep = Keep { calls: 0 };
    let r = body.visit_child_mut(&mut lock, &mut keep, Path::new(block, NodeField::Body));
    assert!(matches!(r, TransformResult::Unchanged));
    assert_eq!(keep.calls, 4);
    assert_eq!(lock.cells_allocated(), cells);
    let same = block.visit_children_mut(&mut lock, &mut keep);
    assert_eq!(same, block);
    assert_eq!(lock.cells_allocated(), cells);
    assert_eq!(block.visit_mut(&mut lock, &mut keep, None), Some(block));
}

#[test]
fn expanded_element_is_spliced_in_place() {
    let mut ctx = Context::new();
    let mut lock = GCLock::new(&mut ctx);
    let a = number(&mut lock, 1.0);
    let b = number(&mut lock, 2.0);
    let c = number(&mut lock, 3.0);
    let x = number(&mut lock, 20.0);
    let y = number(&mut lock, 21.0);
    let body = NodeList::from_iter(&mut lock, vec![a, b, c]);
    let block = builder::BlockStatement::build_template(
        &mut lock,
        template::BlockStatement { metadata: Default::default(), body },
    );
    let cells = lock.cells_allocated();
    let mut v = Rewrite { target: b, outcome: Some(TransformResult::Expanded(vec![x, y])) };
    let r = body.visit_child_mut(&mut lock, &mut v, Path::new(block, NodeField::Body));
    let l = match r {
        TransformResult::Changed(l) => l,
        _ => panic!("expected a changed list"),
    };
    assert_eq!(elements(&lock, l), vec![a, x, y, c]);
    assert_eq!(lock.cells_allocated(), cells + 4);
    assert_eq!(elements(&lock, body), vec![a, b, c]);
    let vals: Vec<f64> = elements(&lock, l).iter().map(|n| value_of(&lock, *n)).collect();
    assert_eq!(vals, vec![1.0, 20.0, 21.0, 3.0]);
}

#[test]
fn removed_and_changed_list_elements() {
    let mut ctx = Context::new();
    let mut lock = GCLock::new(&mut ctx);
    let a = number(&mut lock, 1.0);
    let b = number(&mut lock, 2.0);
    let c = number(&mut lock, 3.0);
    let z = number(&mut lock, 9.0);
    let body = NodeList::from_iter(&mut lock, vec![a, b, c]);
    let block = builder::BlockStatement::build_template(
        &mut lock,
        template::BlockStatement { metadata: Default::default(), body },
    );
    let mut rm = Rewrite { target: a, outcome: Some(TransformResult::Removed) };
    match body.visit_child_mut(&mut lock, &mut rm, Path::new(block, NodeField::Body)) {
        TransformResult::Changed(l) => assert_eq!(elements(&lock, l), vec![b, c]),
        _ => panic!("expected a changed list"),
    }
    let mut ch = Rewrite { target: c, outcome: Some(TransformResult::Changed(z)) };
    match body.visit_child_mut(&mut lock, &mut ch, Path::new(block, NodeField::Body)) {
        TransformResult::Changed(l) => assert_eq!(elements(&lock, l), vec![a, b, z]),
        _ => panic!("expected a changed list"),
    }
    let mut all = Rewrite { target: b, outcome: Some(TransformResult::Expanded(vec![])) };
    let new_block = block.visit_children_mut(&mut lock, &mut all);
    assert_ne!(new_block, block);
    match lock.node(new_block).kind {
        NodeKind::BlockStatement { body } => assert_eq!(elements(&lock, body), vec![a, c]),
        _ => panic!("expected a block"),
    }
}

#[test]
fn rebuild_step_gathers_prefix_on_first_change() {
    let mut ctx = Context::new();
    let mut lock = GCLock::new(&mut ctx);
    let a = number(&mut lock, 1.0);
    let b = number(&mut lock, 2.0);
    let c = number(&mut lock, 3.0);
    let x = number(&mut lock, 4.0);
    let y = number(&mut lock, 5.0);
    let l = NodeList::from_iter(&mut lock, vec![a, b, c]);
    let s0 = l.rebuild_step(&lock, None, 0, a, TransformResult::Unchanged);
    assert!(s0.is_none());
    let s1 = l.rebuild_step(&lock, s0, 1, b, TransformResult::Expanded(vec![x, y]));
    assert_eq!(s1, Some(vec![a, x, y]));
    let s2 = l.rebuild_step(&lock, s1, 2, c, TransformResult::Unchanged);
    assert_eq!(s2, Some(vec![a, x, y, c]));
    let r = l.rebuild_step(&lock, None, 2, c, TransformResult::Removed);
    assert_eq!(r, Some(vec![a, b]));
}

#[test]
fn removed_required_child_becomes_empty_statement() {
    let mut ctx = Context::new();
    let mut lock = GCLock::new(&mut ctx);
    let e = number_at(&mut lock, 5.0, (2, 4), (2, 9));
    let stmt = builder::ExpressionStatement::build_template(
        &mut lock,
        template::ExpressionStatement { metadata: Default::default(), expression: e },
    );
    let mut rm = Rewrite { target: e, outcome: Some(TransformResult::Removed) };
    let r = e.visit_child_mut(&mut lock, &mut rm, Path::new(stmt, NodeField::Expression));
    let p = match r {
        TransformResult::Changed(p) => p,
        _ => panic!("expected a placeholder"),
    };
    assert_ne!(p, e);
    assert!(matches!(lock.node(p).kind, NodeKind::EmptyStatement));
    let range = lock.range(p);
    assert_eq!(range.file, SourceId { id: 3 });
    assert_eq!(range.start, SourceLoc { line: 2, col: 4 });
    assert_eq!(range.end, SourceLoc { line: 2, col: 4 });
}

#[test]
fn settle_required_keeps_other_outcomes() {
    let mut ctx = Context::new();
    let mut lock = GCLock::new(&mut ctx);
    let e = number(&mut lock, 1.0);
    let z = number(&mut lock, 2.0);
    assert!(matches!(e.settle_required(&mut lock, TransformResult::Unchanged), TransformResult::Unchanged));
    match e.settle_required(&mut lock, TransformResult::Changed(z)) {
        TransformResult::Changed(n) => assert_eq!(n, z),
        _ => panic!("expected the replacement"),
    }
}

#[test]
fn removed_optional_child_leaves_field_empty() {
    let mut ctx = Context::new();
    let mut lock = GCLock::new(&mut ctx);
    let t = number(&mut lock, 1.0);
    let c = number(&mut lock, 2.0);
    let a = number(&mut lock, 3.0);
    let stmt = builder::IfStatement::build_template(
        &mut lock,
        template::IfStatement { metadata: Default::default(), test: t, consequent: c, alternate: Some(a) },
    );
    assert!(matches!(settle_optional(TransformResult::Removed), TransformResult::Changed(None)));
    assert!(matches!(settle_optional(TransformResult::Unchanged), TransformResult::Unchanged));
    let mut rm = Rewrite { target: a, outcome: Some(TransformResult::Removed) };
    let new_stmt = stmt.visit_children_mut(&mut lock, &mut rm);
    assert_ne!(new_stmt, stmt);
    match lock.node(new_stmt).kind {
        NodeKind::IfStatement { test, consequent, alternate } => {
            assert_eq!(test, t);
            assert_eq!(consequent, c);
            assert_eq!(alternate, None);
        }
        _ => panic!("expected an if statement"),
    }
}

#[test]
fn root_removal_yields_no_tree() {
    let mut ctx = Context::new();
    let mut lock = GCLock::new(&mut ctx);
    let root = number(&mut lock, 1.0);
    let z = number(&mut lock, 2.0);
    let mut rm = Rewrite { target: root, outcome: Some(TransformResult::Removed) };
    assert_eq!(root.visit_mut(&mut lock, &mut rm, None), None);
    let mut ch = Rewrite { target: root, outcome: Some(TransformResult::Changed(z)) };
    assert_eq!(root.visit_mut(&mut lock, &mut ch, None), Some(z));
    assert_eq!(TransformResult::Removed.into_root(root), None);
    assert_eq!(TransformResult::Unchanged.into_root(root), Some(root));
}

#[test]
fn read_only_visit_sees_children_in_order() {
    let mut ctx = Context::new();
    let mut lock = GCLock::new(&mut ctx);
    let a = number(&mut lock, 1.0);
    let b = number(&mut lock, 2.0);
    let body = NodeList::from_iter(&mut lock, vec![a, b]);
    let block = builder::BlockStatement::build_template(
        &mut lock,
        template::BlockStatement { metadata: Default::default(), body },
    );
    let t = number(&mut lock, 0.0);
    let stmt = builder::IfStatement::build_template(
        &mut lock,
        template::IfStatement { metadata: Default::default(), test: t, consequent: block, alternate: None },
    );
    let mut rec = Record { seen: Vec::new() };
    stmt.visit(&lock, &mut rec, None);
    stmt.visit_children(&lock, &mut rec);
    block.visit_children(&lock, &mut rec);
    assert_eq!(
        rec.seen,
        vec![
            (stmt, None),
            (t, Some(NodeField::Test)),
            (block, Some(NodeField::Consequent)),
            (a, Some(NodeField::Body)),
            (b, Some(NodeField::Body)),
        ]
    );
    assert!(NodeField::Body.is_list());
    assert!(!NodeField::Test.is_list());
}

#[test]
fn operators_parse_from_their_text() {
    assert_eq!(BinaryExpressionOperator::parse("==="), Ok(BinaryExpressionOperator::StrictEquals));
    assert_eq!(BinaryExpressionOperator::parse(">>>"), Ok(BinaryExpressionOperator::RShift3));
    assert_eq!(BinaryExpressionOperator::parse("instanceof"), Ok(BinaryExpressionOperator::Instanceof));
    assert_eq!(BinaryExpressionOperator::parse("=!="), Err(TryFromStringError));
    assert_eq!(BinaryExpressionOperator::parse(""), Err(TryFromStringError));
    assert_eq!(BinaryExpressionOperator::Exp.as_str(), "**");
    assert_eq!(PropertyKind::parse("set"), Ok(PropertyKind::Setter));
    assert_eq!(PropertyKind::Get.as_str(), "get");
    assert_eq!(juno_ast::UnaryExpressionOperator::parse("typeof"), Ok(juno_ast::UnaryExpressionOperator::Typeof));
    assert_eq!(juno_ast::VariableDeclarationKind::parse("let").map(|k| k.as_str()), Ok("let"));
    assert_eq!(juno_ast::ExportKind::parse("values"), Err(TryFromStringError));
}

#[test]
fn parse_error_has_a_message() {
    let e = PropertyKind::parse("setter").unwrap_err();
    assert_eq!(e.message(), "Invalid string property for AST node");
}

#[test]
fn rebuild_after_keeps_node_when_nothing_changed() {
    let mut ctx = Context::new();
    let mut lock = GCLock::new(&mut ctx);
    let t = number(&mut lock, 1.0);
    let c = number(&mut lock, 2.0);
    let stmt = builder::IfStatement::build_template(
        &mut lock,
        template::IfStatement { metadata: Default::default(), test: t, consequent: c, alternate: None },
    );
    let cells = lock.cells_allocated();
    let r = stmt.rebuild_after(
        &mut lock,
        FieldOutcomes::If(TransformResult::Unchanged, TransformResult::Unchanged, TransformResult::Unchanged),
    );
    assert_eq!(r, stmt);
    assert_eq!(lock.cells_allocated(), cells);
    let leaf = number(&mut lock, 3.0);
    assert_eq!(leaf.rebuild_after(&mut lock, FieldOutcomes::Leaf), leaf);
}

#[test]
fn rebuild_after_replaces_changed_fields_only() {
    let mut ctx = Context::new();
    let mut lock = GCLock::new(&mut ctx);
    let t = number(&mut lock, 1.0);
    let c = number(&mut lock, 2.0);
    let z = number(&mut lock, 9.0);
    let alt = number(&mut lock, 4.0);
    let stmt = builder::IfStatement::build_template(
        &mut lock,
        template::IfStatement {
            metadata: TemplateMetadata::from_range(SourceRange {
                file: SourceId { id: 1 },
                start: SourceLoc { line: 1, col: 1 },
                end: SourceLoc { line: 1, col: 20 },
            }),
            test: t,
            consequent: c,
            alternate: None,
        },
    );
    let r = stmt.rebuild_after(
        &mut lock,
        FieldOutcomes::If(
            TransformResult::Unchanged,
            TransformResult::Changed(z),
            TransformResult::Changed(Some(alt)),
        ),
    );
    assert_ne!(r, stmt);
    assert_eq!(lock.range(r), lock.range(stmt));
    match lock.node(r).kind {
        NodeKind::IfStatement { test, consequent, alternate } => {
            assert_eq!(test, t);
            assert_eq!(consequent, z);
            assert_eq!(alternate, Some(alt));
        }
        _ => panic!("expected an if statement"),
    }
    let e = builder::ExpressionStatement::build_template(
        &mut lock,
        template::ExpressionStatement { metadata: Default::default(), expression: t },
    );
    let r2 = e.rebuild_after(&mut lock, FieldOutcomes::Expression(TransformResult::Changed(c)));
    match lock.node(r2).kind {
        NodeKind::ExpressionStatement { expression } => assert_eq!(expression, c),
        _ => panic!("expected an expression statement"),
    }
    assert_eq!(changed_or(TransformResult::Changed(5u32), 7u32), 5);
    assert_eq!(changed_or(TransformResult::Removed, 7u32), 7);
}

#[test]
fn visit_children_mut_replaces_required_child() {
    let mut ctx = Context::new();
    let mut lock = GCLock::new(&mut ctx);
    let e = number(&mut lock, 1.0);
    let z = number(&mut lock, 2.0);
    let stmt = builder::ExpressionStatement::build_template(
        &mut lock,
        template::ExpressionStatement { metadata: Default::default(), expression: e },
    );
    let mut ch = Rewrite { target: e, outcome: Some(TransformResult::Changed(z)) };
    let r = stmt.visit_children_mut(&mut lock, &mut ch);
    assert_ne!(r, stmt);
    match lock.node(r).kind {
        NodeKind::ExpressionStatement { expression } => assert_eq!(expression, z),
        _ => panic!("expected an expression statement"),
    }
}

#[test]
fn empty_list_walk_is_unchanged() {
    let mut ctx = Context::new();
    let mut lock = GCLock::new(&mut ctx);
    let body = NodeList::new(&lock);
    let block = builder::BlockStatement::build_template(
        &mut lock,
        template::BlockStatement { metadata: Default::default(), body },
    );
    let mut keep = Keep { calls: 0 };
    let r = body.visit_child_mut(&mut lock, &mut keep, Path::new(block, NodeField::Body));
    assert!(matches!(r, TransformResult::Unchanged));
    assert_eq!(keep.calls, 0);
}
