//! The [`Or`] combinator: try the first handler, fall back to the second.
use vstd::prelude::*;

use crate::handler::{Handler, HandlerResult};
use crate::input::Input;

verus! {

/// A handler that tries `first`; if it returns `None`, tries `second`.
pub struct Or<A, B> {
    /// Primary handler.
    pub first: A,
    /// Fallback handler.
    pub second: B,
}

impl<Ctx: Copy, R, A: Handler<Ctx, R>, B: Handler<Ctx, R>> Handler<Ctx, R> for Or<A, B> {
    open spec fn admits(&self, input: Input<'_, Ctx>) -> bool {
        &&& self.first.admits(input)
        &&& self.first.yields(input, None) ==> self.second.admits(input)
    }

    open spec fn yields(&self, input: Input<'_, Ctx>, out: Option<R>) -> bool {
        ||| out is Some && self.first.yields(input, out)
        ||| self.first.yields(input, None) && self.second.yields(input, out)
    }

    fn handle<'tree>(&self, input: Input<'tree, Ctx>) -> (out: HandlerResult<R>) {
        match self.first.handle(input) {
            Some(r) => Some(r),
            None => self.second.handle(input),
        }
    }
}

} // verus!
