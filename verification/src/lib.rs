//! A composable, parser-combinator-style abstraction over syntax-tree node
//! dispatch, verified with Verus.
//!
//! Trees are held in a [`SyntaxTree`] arena; a [`Node`] is a cheap handle into
//! it. Handlers map an [`Input`] (a node plus caller context) to an optional
//! output, and combinators build larger handlers out of smaller ones. The
//! crate is language-agnostic: all grammar knowledge lives with the caller.

pub mod combinators;
pub mod constructors;
pub mod handler;
pub mod input;
pub mod kinds;
pub mod laws;
pub mod predicates;
pub mod query;
pub mod traversal;
pub mod tree;

pub use combinators::boxed::BoxedHandler;
pub use combinators::find_ancestor::FindAncestor;
pub use combinators::for_children::{ForChildren, ScanChildren};
pub use combinators::HandlerExt;
pub use constructors::{always, dispatch_on_kind, first_of, handler_fn, never};
pub use handler::{Handler, HandlerResult};
pub use input::Input;
pub use predicates::{has_ancestor_kind, HasAncestorKind};
pub use predicates::{has_ancestor_kinds, HasAncestorKinds};
pub use predicates::{has_parent_kind, kind_is, kind_is_not, node_depth_lte, NodePredicate};
pub use tree::{Node, NodeView, SyntaxTree};
