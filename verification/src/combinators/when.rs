//! The [`When`] combinator: guard a handler with a predicate.
use vstd::prelude::*;

use crate::handler::{Handler, HandlerResult};
use crate::input::Input;
use crate::predicates::NodePredicate;

verus! {

/// A handler that runs `inner` only when `pred` holds; otherwise `None`.
pub struct When<H, P> {
    /// The guarded handler.
    pub inner: H,
    /// The predicate gate.
    pub pred: P,
}

impl<Ctx: Copy, R, H: Handler<Ctx, R>, P: NodePredicate<Ctx>> Handler<Ctx, R> for When<H, P> {
    open spec fn admits(&self, input: Input<'_, Ctx>) -> bool {
        &&& self.pred.admits(input)
        &&& self.pred.answers(input, true) ==> self.inner.admits(input)
    }

    open spec fn yields(&self, input: Input<'_, Ctx>, out: Option<R>) -> bool {
        ||| self.pred.answers(input, true) && self.inner.yields(input, out)
        ||| self.pred.answers(input, false) && out is None
    }

    fn handle<'tree>(&self, input: Input<'tree, Ctx>) -> (out: HandlerResult<R>) {
        if self.pred.test(input) {
            self.inner.handle(input)
        } else {
            None
        }
    }
}

} // verus!
