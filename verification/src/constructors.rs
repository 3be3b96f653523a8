//! Free-function handler constructors.
use vstd::prelude::*;

use crate::combinators::boxed::BoxedHandler;
use crate::handler::{Handler, HandlerResult};
use crate::input::Input;
use crate::kinds::str_eq;

verus! {

/// Handler produced by [`handler_fn`]: wraps an infallible function and
/// always returns `Some` of its result.
pub struct HandlerFn<F>(F);

impl<F> HandlerFn<F> {
    /// The wrapped function.
    pub closed spec fn func(self) -> F {
        self.0
    }
}

impl<Ctx: Copy, R, F> Handler<Ctx, R> for HandlerFn<F> where
    F: Fn(Input<'_, Ctx>) -> R + Send + Sync,
 {
    open spec fn admits(&self, input: Input<'_, Ctx>) -> bool {
        call_requires(self.func(), (input,))
    }

    open spec fn yields(&self, input: Input<'_, Ctx>, out: Option<R>) -> bool {
        out matches Some(r) && call_ensures(self.func(), (input,), r)
    }

    fn handle<'tree>(&self, input: Input<'tree, Ctx>) -> (out: HandlerResult<R>) {
        Some((self.0)(input))
    }
}

/// Wraps an infallible function as a handler that always returns `Some`.
pub fn handler_fn<Ctx, R, F>(f: F) -> (h: HandlerFn<F>) where
    F: Fn(Input<'_, Ctx>) -> R + Send + Sync,
    ensures
        h.func() == f,
{
    HandlerFn(f)
}

/// Handler produced by [`never`]: always returns `None`.
pub struct Never<Ctx, R>(Ghost<(Ctx, R)>);

impl<Ctx, R> Handler<Ctx, R> for Never<Ctx, R> {
    open spec fn admits(&self, input: Input<'_, Ctx>) -> bool {
        true
    }

    open spec fn yields(&self, input: Input<'_, Ctx>, out: Option<R>) -> bool {
        out is None
    }

    fn handle<'tree>(&self, _input: Input<'tree, Ctx>) -> (out: HandlerResult<R>) {
        None
    }
}

/// A handler that always returns `None`.
pub fn never<Ctx, R>() -> (h: Never<Ctx, R>)
    ensures
        forall|i: Input<'_, Ctx>, o: Option<R>| #[trigger] h.yields(i, o) == (o is None),
{
    Never(Ghost(arbitrary()))
}

/// Handler produced by [`always`]: always returns `Some` of a clone of its
/// value.
pub struct Always<R>(pub R);

impl<R> Always<R> {
    /// Builds an [`Always`] handler.
    pub fn new_const(value: R) -> (h: Self)
        ensures
            h.0 == value,
    {
        Always(value)
    }
}

impl<Ctx, R: Clone + Send + Sync> Handler<Ctx, R> for Always<R> {
    open spec fn admits(&self, input: Input<'_, Ctx>) -> bool {
        true
    }

    open spec fn yields(&self, input: Input<'_, Ctx>, out: Option<R>) -> bool {
        out matches Some(v) && cloned(self.0, v)
    }

    fn handle<'tree>(&self, _input: Input<'tree, Ctx>) -> (out: HandlerResult<R>) {
        Some(self.0.clone())
    }
}

/// A handler that always returns `Some(value.clone())`.
pub fn always<Ctx, R: Clone + Send + Sync>(value: R) -> (h: Always<R>)
    ensures
        h.0 == value,
{
    Always(value)
}

/// The index of the first entry of `table` whose kind is `kind`.
pub open spec fn first_entry<Ctx, R>(
    table: Seq<(&str, &dyn Handler<Ctx, R>)>,
    kind: Seq<char>,
) -> Option<int>
    decreases table.len(),
{
    if table.len() == 0 {
        None
    } else if table[0].0@ == kind {
        Some(0)
    } else {
        match first_entry(table.drop_first(), kind) {
            Some(j) => Some(j + 1),
            None => None,
        }
    }
}

/// Handler produced by [`dispatch_on_kind`]: runs the handler of the first
/// table entry whose kind is the node's kind; `None` when there is none.
#[verifier::reject_recursive_types(Ctx)]
#[verifier::reject_recursive_types(R)]
pub struct DispatchOnKind<Ctx: 'static, R: 'static> {
    /// The static dispatch table.
    pub table: &'static [(&'static str, &'static dyn Handler<Ctx, R>)],
}

impl<Ctx: Copy + 'static, R: 'static> Handler<Ctx, R> for DispatchOnKind<Ctx, R> {
    open spec fn admits(&self, input: Input<'_, Ctx>) -> bool {
        first_entry(self.table@, input.node.spec_kind()) matches Some(j)
            ==> self.table@[j].1.admits(input)
    }

    open spec fn yields(&self, input: Input<'_, Ctx>, out: Option<R>) -> bool {
        match first_entry(self.table@, input.node.spec_kind()) {
            Some(j) => self.table@[j].1.yields(input, out),
            None => out is None,
        }
    }

    fn handle<'tree>(&self, input: Input<'tree, Ctx>) -> (out: HandlerResult<R>) {
        let kind = input.node.kind();
        let mut j: usize = 0;
        assert(self.table@.skip(0) =~= self.table@);
        while j < self.table.len()
            invariant
                kind@ == input.node.spec_kind(),
                self.admits(input),
                j <= self.table@.len(),
                first_entry(self.table@, kind@) == match first_entry(self.table@.skip(j as int), kind@) {
                    Some(e) => Some(e + j),
                    None => None,
                },
            decreases self.table@.len() - j,
        {
            assert(self.table@.skip(j as int).drop_first() =~= self.table@.skip(j + 1));
            let (k, h) = self.table[j];
            if str_eq(k, kind) {
                return h.handle(input);
            }
            j += 1;
        }
        None
    }
}

/// Builds a handler that dispatches on the node's kind through a static
/// lookup table; entries are tried in order and the first matching kind wins.
pub fn dispatch_on_kind<Ctx: 'static, R: 'static>(
    table: &'static [(&'static str, &'static dyn Handler<Ctx, R>)],
) -> (h: DispatchOnKind<Ctx, R>)
    ensures
        h.table == table,
{
    DispatchOnKind { table }
}

/// `out` is a possible result of trying `handlers` in order and stopping at
/// the first `Some`.
pub open spec fn first_some<'t, Ctx: Copy, R>(
    handlers: Seq<BoxedHandler<Ctx, R>>,
    input: Input<'t, Ctx>,
    out: Option<R>,
) -> bool
    decreases handlers.len(),
{
    if handlers.len() == 0 {
        out is None
    } else {
        ||| out is Some && handlers[0].yields(input, out)
        ||| handlers[0].yields(input, None) && first_some(handlers.drop_first(), input, out)
    }
}

/// Handler produced by [`first_of`]: tries its handlers in order and returns
/// the first `Some` result.
#[verifier::reject_recursive_types(Ctx)]
#[verifier::reject_recursive_types(R)]
pub struct FirstOf<Ctx, R> {
    handlers: Vec<BoxedHandler<Ctx, R>>,
}

impl<Ctx, R> FirstOf<Ctx, R> {
    /// The handlers, in the order they are tried.
    pub closed spec fn spec_handlers(self) -> Seq<BoxedHandler<Ctx, R>> {
        self.handlers@
    }
}

impl<Ctx: Copy, R> Handler<Ctx, R> for FirstOf<Ctx, R> {
    open spec fn admits(&self, input: Input<'_, Ctx>) -> bool {
        forall|k: int|
            0 <= k < self.spec_handlers().len() ==> (#[trigger] self.spec_handlers()[k]).admits(
                input,
            )
    }

    open spec fn yields(&self, input: Input<'_, Ctx>, out: Option<R>) -> bool {
        first_some(self.spec_handlers(), input, out)
    }

    fn handle<'tree>(&self, input: Input<'tree, Ctx>) -> (out: HandlerResult<R>) {
        let mut k: usize = 0;
        assert(self.handlers@.skip(0) =~= self.handlers@);
        while k < self.handlers.len()
            invariant
                self.admits(input),
                k <= self.handlers@.len(),
                forall|o: Option<R>|
                    #[trigger] first_some(self.handlers@.skip(k as int), input, o) ==> first_some(
                        self.handlers@,
                        input,
                        o,
                    ),
            decreases self.handlers@.len() - k,
        {
            let ghost rest = self.handlers@.skip(k as int);
            assert(rest.drop_first() =~= self.handlers@.skip(k + 1));
            assert(self.spec_handlers()[k as int].admits(input));
            let result = self.handlers[k].handle(input);
            if result.is_some() {
                assert(first_some(rest, input, result));
                return result;
            }
            assert forall|o: Option<R>|
                #[trigger] first_some(self.handlers@.skip(k + 1), input, o) implies first_some(
                self.handlers@,
                input,
                o,
            ) by {
                assert(first_some(rest, input, o));
            }
            k += 1;
        }
        assert(first_some(self.handlers@.skip(k as int), input, None));
        None
    }
}

/// Tries `handlers` in order and returns the first `Some` result.
pub fn first_of<Ctx, R>(handlers: Vec<BoxedHandler<Ctx, R>>) -> (h: FirstOf<Ctx, R>)
    ensures
        h.spec_handlers() == handlers@,
{
    FirstOf { handlers }
}

} // verus!
