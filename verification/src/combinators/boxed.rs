//! The [`BoxedHandler`] type: type-erased dynamic dispatch.
use vstd::prelude::*;

use crate::handler::{lemma_closure_handler, Handler, HandlerResult};
use crate::input::Input;

verus! {

/// A type-erased handler that owns a boxed handler object.
///
/// Use this to store handlers in a collection or to return them from a
/// function with an erased type.
#[verifier::reject_recursive_types(Ctx)]
#[verifier::reject_recursive_types(R)]
pub struct BoxedHandler<Ctx, R>(Box<dyn Handler<Ctx, R>>);

impl<Ctx: Copy, R> BoxedHandler<Ctx, R> {
    /// Wraps a closure as a [`BoxedHandler`]; the result admits what the
    /// closure's `requires` admits and yields what its `ensures` allows.
    pub fn new<F>(f: F) -> (b: Self) where
        F: for<'tree> Fn(Input<'tree, Ctx>) -> HandlerResult<R> + Send + Sync + 'static,
        ensures
            forall|i: Input<'_, Ctx>| #[trigger] b.admits(i) == call_requires(f, (i,)),
            forall|i: Input<'_, Ctx>, o: Option<R>| #[trigger] b.yields(i, o) == call_ensures(f, (i,), o),
    {
        let b = BoxedHandler(Box::new(f));
        assert forall|i: Input<'_, Ctx>, o: Option<R>|
            #[trigger] b.yields(i, o) == call_ensures(f, (i,), o) by {
            assert(b.yields(i, o) == f.yields(i, o));
            lemma_closure_handler(f, i, o);
        }
        assert forall|i: Input<'_, Ctx>| #[trigger] b.admits(i) == call_requires(f, (i,)) by {
            assert(b.admits(i) == f.admits(i));
            lemma_closure_handler(f, i, None);
        }
        b
    }
}

impl<Ctx: Copy, R> Handler<Ctx, R> for BoxedHandler<Ctx, R> {
    closed spec fn admits(&self, input: Input<'_, Ctx>) -> bool {
        self.0.admits(input)
    }

    closed spec fn yields(&self, input: Input<'_, Ctx>, out: Option<R>) -> bool {
        self.0.yields(input, out)
    }

    fn handle<'tree>(&self, input: Input<'tree, Ctx>) -> (out: HandlerResult<R>) {
        self.0.handle(input)
    }
}

} // verus!
