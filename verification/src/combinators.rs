//! The combinators: handlers built out of other handlers, and the
//! [`HandlerExt`] extension trait that builds them.
pub mod and_then;
pub mod boxed;
pub mod climb;
pub mod find_ancestor;
pub mod for_children;
pub mod map;
pub mod map_input;
pub mod or;
pub mod when;

use vstd::prelude::*;

use crate::handler::{lemma_closure_handler, Handler};
use crate::input::Input;
use crate::predicates::{kind_is, KindIs, NodePredicate};

use self::and_then::AndThen;
use self::boxed::BoxedHandler;
use self::climb::{Climb, OrElseClimb};
use self::find_ancestor::FindAncestor;
use self::for_children::{ForChildren, ScanChildren};
use self::map::MapOutput;
use self::map_input::MapInput;
use self::or::Or;
use self::when::When;

verus! {

/// Extension trait that adds combinator methods to every [`Handler`].
pub trait HandlerExt<Ctx, R>: Handler<Ctx, R> + Sized {
    /// Try `self`; if it returns `None`, try `other`.
    fn or<H: Handler<Ctx, R>>(self, other: H) -> (h: Or<Self, H>)
        ensures
            h.first == self,
            h.second == other,
    {
        Or { first: self, second: other }
    }

    /// Run `self` only when `pred` holds; otherwise return `None`.
    fn when<P: NodePredicate<Ctx>>(self, pred: P) -> (h: When<Self, P>)
        ensures
            h.inner == self,
            h.pred == pred,
    {
        When { inner: self, pred }
    }

    /// Sugar for `.when(kind_is(kinds))`: only handle the given node kinds.
    fn for_kinds(self, kinds: &'static [&'static str]) -> (h: When<Self, KindIs>)
        ensures
            h.inner == self,
            h.pred == KindIs(kinds),
    {
        self.when(kind_is(kinds))
    }

    /// Apply `f` to the output value when `self` succeeds.
    fn map<F, R2>(self, f: F) -> (h: MapOutput<Self, F, R>) where F: Fn(R) -> R2 + Send + Sync
        ensures
            h.inner == self,
            h.f == f,
    {
        MapOutput { inner: self, f, _marker: Ghost(arbitrary()) }
    }

    /// Transform the [`Input`] before passing it to `self`.
    fn map_input<F>(self, f: F) -> (h: MapInput<Self, F>) where
        F: for<'tree> Fn(Input<'tree, Ctx>) -> Input<'tree, Ctx> + Send + Sync,
        ensures
            h.inner == self,
            h.f == f,
    {
        MapInput { inner: self, f }
    }

    /// On success, pass `(input, out)` to `f`, which may itself return `None`.
    fn and_then<F, R2>(self, f: F) -> (h: AndThen<Self, F, R>) where
        F: Fn(Input<'_, Ctx>, R) -> Option<R2> + Send + Sync,
        ensures
            h.inner == self,
            h.f == f,
    {
        AndThen { inner: self, f, _marker: Ghost(arbitrary()) }
    }

    /// Retry `self` on each ancestor until it succeeds, stopping at any kind
    /// in `stop_kinds` or at the root.
    fn climb(self, stop_kinds: &'static [&'static str]) -> (h: Climb<Self>)
        ensures
            h.inner == self,
            h.stop_kinds == stop_kinds,
    {
        Climb { inner: self, stop_kinds }
    }

    /// Try `self` on the original node; on `None`, try `other` on each
    /// ancestor.
    fn or_else_climb<O: Handler<Ctx, R>>(self, other: O, stop_kinds: &'static [&'static str]) -> (h:
        OrElseClimb<Self, O>)
        ensures
            h.inner == self,
            h.other == other,
            h.stop_kinds == stop_kinds,
    {
        OrElseClimb { inner: self, other, stop_kinds }
    }

    /// Walk up to the nearest strict ancestor whose kind is in
    /// `target_kinds`, then run `self` on that ancestor once.
    fn find_ancestor(
        self,
        target_kinds: &'static [&'static str],
        stop_kinds: &'static [&'static str],
    ) -> (h: FindAncestor<Self>)
        ensures
            h.inner == self,
            h.target_kinds == target_kinds,
            h.stop_kinds == stop_kinds,
    {
        FindAncestor { inner: self, target_kinds, stop_kinds }
    }

    /// Apply `self` to every named child and collect all `Some` results.
    fn for_children(self) -> (h: ForChildren<Self>)
        ensures
            h.inner == self,
    {
        ForChildren { inner: self }
    }

    /// Apply `self` to each named child in order; return the first `Some`.
    fn scan_children(self) -> (h: ScanChildren<Self>)
        ensures
            h.inner == self,
    {
        ScanChildren { inner: self }
    }

    /// Erase the concrete type into a [`BoxedHandler`]: it admits whatever
    /// `self` admits and yields only what `self` may yield.
    fn boxed(self) -> (h: BoxedHandler<Ctx, R>) where Self: 'static, Ctx: Copy
        ensures
            forall|i: Input<'_, Ctx>| self.admits(i) ==> #[trigger] h.admits(i),
            forall|i: Input<'_, Ctx>, o: Option<R>| #[trigger] h.yields(i, o) ==> self.yields(i, o),
    {
        let f = move |input: Input<'_, Ctx>| -> (out: Option<R>)
            requires
                self.admits(input),
            ensures
                self.yields(input, out),
            {
                self.handle(input)
            };
        let h = BoxedHandler::new(f);
        assert forall|i: Input<'_, Ctx>, o: Option<R>|
            #[trigger] h.yields(i, o) implies self.yields(i, o) by {
            lemma_closure_handler(f, i, o);
        }
        assert forall|i: Input<'_, Ctx>| self.admits(i) implies #[trigger] h.admits(i) by {
            lemma_closure_handler(f, i, None);
        }
        h
    }
}

impl<Ctx, R, T: Handler<Ctx, R>> HandlerExt<Ctx, R> for T {

}

} // verus!
