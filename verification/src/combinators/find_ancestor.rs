//! The [`FindAncestor`] combinator: locate an ancestor of a given kind, then
//! run a handler on it once.
use vstd::prelude::*;

use crate::handler::{Handler, HandlerResult};
use crate::input::Input;
use crate::kinds::contains_kind;
use crate::traversal::{first_ancestor, first_up};

verus! {

/// A handler that walks up the syntax tree to the nearest strict ancestor
/// whose kind is in `target_kinds`, then runs `inner` on that ancestor.
///
/// The original node is never tested. Walking stops (with `None`) at a node
/// whose kind is in `stop_kinds` (the stop node itself is not tested against
/// `target_kinds`) or at the root.
pub struct FindAncestor<H> {
    /// The handler invoked on the found ancestor.
    pub inner: H,
    /// The kinds searched for; the first ancestor whose kind is one of them
    /// wins.
    pub target_kinds: &'static [&'static str],
    /// Ancestor kinds at which the search stops unconditionally.
    pub stop_kinds: &'static [&'static str],
}

impl<Ctx: Copy, R, H: Handler<Ctx, R>> Handler<Ctx, R> for FindAncestor<H> {
    open spec fn admits(&self, input: Input<'_, Ctx>) -> bool {
        first_ancestor(input.node, self.target_kinds@, self.stop_kinds@) matches Some(a)
            ==> self.inner.admits(input.spec_with_node(a))
    }

    open spec fn yields(&self, input: Input<'_, Ctx>, out: Option<R>) -> bool {
        match first_ancestor(input.node, self.target_kinds@, self.stop_kinds@) {
            Some(a) => self.inner.yields(input.spec_with_node(a), out),
            None => out is None,
        }
    }

    fn handle<'tree>(&self, input: Input<'tree, Ctx>) -> (out: HandlerResult<R>) {
        let mut current = match input.node.parent() {
            Some(p) => p,
            None => return None,
        };
        loop
            invariant
                first_ancestor(input.node, self.target_kinds@, self.stop_kinds@) == first_up(
                    current,
                    self.target_kinds@,
                    self.stop_kinds@,
                ),
                self.admits(input),
            decreases current.spec_id(),
        {
            if contains_kind(self.stop_kinds, current.kind()) {
                return None;
            }
            if contains_kind(self.target_kinds, current.kind()) {
                return self.inner.handle(input.with_node(current));
            }
            match current.parent() {
                Some(p) => current = p,
                None => return None,
            }
        }
    }
}

} // verus!
