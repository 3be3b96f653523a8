//! The [`MapOutput`] combinator: transform a successful output value.
use vstd::prelude::*;

use crate::handler::{Handler, HandlerResult};
use crate::input::Input;

verus! {

/// A handler that applies `f` to the output of `inner` when it succeeds.
pub struct MapOutput<H, F, R> {
    /// The source handler.
    pub inner: H,
    /// The mapping function.
    pub f: F,
    /// Records the output type of `inner`.
    pub _marker: Ghost<R>,
}

impl<Ctx: Copy, R, R2, H, F> Handler<Ctx, R2> for MapOutput<H, F, R> where
    H: Handler<Ctx, R>,
    F: Fn(R) -> R2 + Send + Sync,
 {
    open spec fn admits(&self, input: Input<'_, Ctx>) -> bool {
        &&& self.inner.admits(input)
        &&& forall|r: R| #[trigger] self.inner.yields(input, Some(r)) ==> call_requires(self.f, (r,))
    }

    open spec fn yields(&self, input: Input<'_, Ctx>, out: Option<R2>) -> bool {
        ||| self.inner.yields(input, None) && out is None
        ||| exists|r: R|
            #[trigger] self.inner.yields(input, Some(r)) && (out matches Some(r2) && call_ensures(
                self.f,
                (r,),
                r2,
            ))
    }

    fn handle<'tree>(&self, input: Input<'tree, Ctx>) -> (out: HandlerResult<R2>) {
        match self.inner.handle(input) {
            Some(r) => Some((self.f)(r)),
            None => None,
        }
    }
}

} // verus!
