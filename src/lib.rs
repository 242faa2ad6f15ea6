//! Arena-backed abstract syntax tree with generic, shape-erased traversal.
//!
//! Nodes and list cells live in an arena owned by a [`Context`]. All
//! allocation and all reading goes through a [`GCLock`], taken from the
//! context and given back when done. Node handles compare by identity.
//! Visitors walk a node's children read-only ([`Visitor`]) or rewrite them
//! ([`VisitorMut`]), with removal and one-to-many expansion inside lists.
pub mod source;
pub mod context;
pub mod kind;
pub mod operators;
pub mod template;
pub mod builder;
pub mod visit;

pub use source::{SourceId, SourceLoc, SourceRange};
pub use context::{Context, GCLock, ListCell, Node, NodeData, NodeMetadata, NodePtr, TemplateMetadata};
pub use kind::{NodeField, NodeKind};
pub use operators::{
    AssignmentExpressionOperator, BinaryExpressionOperator, ExportKind, ImportKind,
    LogicalExpressionOperator, MethodDefinitionKind, PropertyKind, TryFromStringError,
    UnaryExpressionOperator, UpdateExpressionOperator, VariableDeclarationKind,
};
pub use context::{NodeList, NodeListIterator};
pub use visit::{FieldOutcomes, Path, TransformResult, Visitor, VisitorMut};
