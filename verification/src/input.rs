//! The [`Input`] type: a cheap, copyable snapshot passed to every handler.
use vstd::prelude::*;

use crate::tree::Node;

verus! {

/// A node together with caller-supplied context.
///
/// `Input` is passed by value; it is `Copy` whenever `Ctx` is.
#[derive(Clone, Copy)]
pub struct Input<'tree, Ctx> {
    /// The node being examined.
    pub node: Node<'tree>,
    /// Caller-supplied context (e.g. a reference to an extractor struct).
    pub ctx: Ctx,
    /// An optional trigger character hint (e.g. `.` or `(`).
    pub trigger_char: Option<char>,
}

impl<'tree, Ctx> Input<'tree, Ctx> {
    /// This input with its node replaced by `node`.
    pub open spec fn spec_with_node(self, node: Node<'tree>) -> Self {
        Input { node, ctx: self.ctx, trigger_char: self.trigger_char }
    }

    /// Builds an input.
    pub fn new(node: Node<'tree>, ctx: Ctx, trigger_char: Option<char>) -> (i: Self)
        ensures
            i == (Input { node, ctx, trigger_char }),
    {
        Input { node, ctx, trigger_char }
    }

    /// A copy of this input with `node` replaced.
    pub fn with_node(self, node: Node<'tree>) -> (i: Self)
        ensures
            i == self.spec_with_node(node),
    {
        Input { node, ..self }
    }
}

} // verus!
