//! The [`AndThen`] combinator: flat-map on success.
use vstd::prelude::*;

use crate::handler::{Handler, HandlerResult};
use crate::input::Input;

verus! {

/// A handler that, on success, feeds `(input, out)` into a second function
/// that may itself fail.
pub struct AndThen<H, F, R> {
    /// The source handler.
    pub inner: H,
    /// The flat-mapping function.
    pub f: F,
    /// Records the output type of `inner`.
    pub _marker: Ghost<R>,
}

impl<Ctx: Copy, R, R2, H, F> Handler<Ctx, R2> for AndThen<H, F, R> where
    H: Handler<Ctx, R>,
    F: Fn(Input<'_, Ctx>, R) -> HandlerResult<R2> + Send + Sync,
 {
    open spec fn admits(&self, input: Input<'_, Ctx>) -> bool {
        &&& self.inner.admits(input)
        &&& forall|r: R|
            #[trigger] self.inner.yields(input, Some(r)) ==> call_requires(self.f, (input, r))
    }

    open spec fn yields(&self, input: Input<'_, Ctx>, out: Option<R2>) -> bool {
        ||| self.inner.yields(input, None) && out is None
        ||| exists|r: R|
            #[trigger] self.inner.yields(input, Some(r)) && call_ensures(self.f, (input, r), out)
    }

    fn handle<'tree>(&self, input: Input<'tree, Ctx>) -> (out: HandlerResult<R2>) {
        match self.inner.handle(input) {
            Some(r) => (self.f)(input, r),
            None => None,
        }
    }
}

} // verus!
