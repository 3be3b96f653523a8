//! The [`Handler`] trait and its implementation for closures.
use vstd::prelude::*;

use crate::input::Input;

verus! {

/// The result type returned by every handler: `Some(out)` on success,
/// `None` to signal that the handler does not apply.
pub type HandlerResult<R> = Option<R>;

/// Maps an [`Input`] to an optional output value.
///
/// `admits` says on which inputs `handle` may be called, and `yields` which
/// results it may return there. For the combinators of this library both are
/// built from those of their parts; a closure admits what its `requires`
/// admits and yields what its `ensures` allows.
pub trait Handler<Ctx, R>: Send + Sync {
    /// `handle` may be called on `input`.
    spec fn admits(&self, input: Input<'_, Ctx>) -> bool;

    /// `out` is a result that `handle` may return on `input`.
    spec fn yields(&self, input: Input<'_, Ctx>, out: Option<R>) -> bool;

    /// Attempts to produce an output for `input`; `None` when the handler
    /// does not apply.
    fn handle<'tree>(&self, input: Input<'tree, Ctx>) -> (out: HandlerResult<R>)
        requires
            self.admits(input),
        ensures
            self.yields(input, out),
    ;
}

/// Any `Fn(Input) -> Option<R>` is a handler.
impl<Ctx, R, F> Handler<Ctx, R> for F where F: Fn(Input<'_, Ctx>) -> Option<R> + Send + Sync {
    open spec fn admits(&self, input: Input<'_, Ctx>) -> bool {
        call_requires(*self, (input,))
    }

    open spec fn yields(&self, input: Input<'_, Ctx>, out: Option<R>) -> bool {
        call_ensures(*self, (input,), out)
    }

    fn handle<'tree>(&self, input: Input<'tree, Ctx>) -> (out: HandlerResult<R>) {
        self(input)
    }
}

} // verus!

verus! {

/// A closure's handler view is its `requires` and `ensures`.
pub proof fn lemma_closure_handler<Ctx, R, F>(f: F, i: Input<'_, Ctx>, o: Option<R>) where
    F: Fn(Input<'_, Ctx>) -> Option<R> + Send + Sync,
    ensures
        f.admits(i) == call_requires(f, (i,)),
        f.yields(i, o) == call_ensures(f, (i,), o),
{
}

} // verus!
