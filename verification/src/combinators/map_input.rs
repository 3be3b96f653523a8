//! The [`MapInput`] combinator: transform the input before handling it.
use vstd::prelude::*;

use crate::handler::{Handler, HandlerResult};
use crate::input::Input;

verus! {

/// A handler that passes `f(input)` to `inner`.
pub struct MapInput<H, F> {
    /// The handler that receives the transformed input.
    pub inner: H,
    /// The input transformation.
    pub f: F,
}

impl<Ctx: Copy, R, H, F> Handler<Ctx, R> for MapInput<H, F> where
    H: Handler<Ctx, R>,
    F: for<'tree> Fn(Input<'tree, Ctx>) -> Input<'tree, Ctx> + Send + Sync,
 {
    open spec fn admits<'a>(&self, input: Input<'a, Ctx>) -> bool {
        &&& call_requires(self.f, (input,))
        &&& forall|i: Input<'a, Ctx>| #[trigger] call_ensures(self.f, (input,), i) ==> self.inner.admits(i)
    }

    open spec fn yields<'a>(&self, input: Input<'a, Ctx>, out: Option<R>) -> bool {
        exists|i: Input<'a, Ctx>| #[trigger] call_ensures(self.f, (input,), i) && self.inner.yields(i, out)
    }

    fn handle<'tree>(&self, input: Input<'tree, Ctx>) -> (out: HandlerResult<R>) {
        self.inner.handle((self.f)(input))
    }
}

} // verus!
