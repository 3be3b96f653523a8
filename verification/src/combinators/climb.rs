//! The [`Climb`] and [`OrElseClimb`] combinators: walk up the syntax tree.
use vstd::prelude::*;

use crate::handler::{Handler, HandlerResult};
use crate::input::Input;
use crate::kinds::{contains_kind, kind_in};
use crate::tree::Node;

verus! {

/// `inner` may be called at every node that climbing from `n` tries: `n`,
/// then, while `inner` may answer `None` and no stop kind was met, the
/// ancestors of `n`.
pub open spec fn climb_admits<'t, Ctx, R, H: Handler<Ctx, R>>(
    inner: H,
    stops: Seq<&str>,
    input: Input<'t, Ctx>,
    n: Node<'t>,
) -> bool
    decreases n.spec_id(),
{
    &&& inner.admits(input.spec_with_node(n))
    &&& (inner.yields(input.spec_with_node(n), None) && !kind_in(stops, n.spec_kind()))
        ==> match n.spec_parent() {
        Some(p) => p.spec_id() < n.spec_id() ==> climb_admits(inner, stops, input, p),
        None => true,
    }
}

/// `out` is a result of climbing from `n`: `inner`'s result at `n` when it is
/// `Some`; otherwise `None` when `n`'s kind is a stop kind or `n` is the root,
/// and the result of climbing from the parent of `n` else.
pub open spec fn climb_yields<'t, Ctx, R, H: Handler<Ctx, R>>(
    inner: H,
    stops: Seq<&str>,
    input: Input<'t, Ctx>,
    n: Node<'t>,
    out: Option<R>,
) -> bool
    decreases n.spec_id(),
{
    ||| out is Some && inner.yields(input.spec_with_node(n), out)
    ||| inner.yields(input.spec_with_node(n), None) && if kind_in(stops, n.spec_kind()) {
        out is None
    } else {
        match n.spec_parent() {
            Some(p) => if p.spec_id() < n.spec_id() {
                climb_yields(inner, stops, input, p, out)
            } else {
                out is None
            },
            None => out is None,
        }
    }
}

/// A handler that retries `inner` on each ancestor node, stopping when it
/// succeeds, when it reaches a node whose kind is in `stop_kinds`, or at the
/// root. The first attempt is made on the original node.
pub struct Climb<H> {
    /// The handler tried at each level.
    pub inner: H,
    /// Kinds at which climbing stops (regardless of success).
    pub stop_kinds: &'static [&'static str],
}

impl<Ctx: Copy, R, H: Handler<Ctx, R>> Handler<Ctx, R> for Climb<H> {
    open spec fn admits(&self, input: Input<'_, Ctx>) -> bool {
        climb_admits(self.inner, self.stop_kinds@, input, input.node)
    }

    open spec fn yields(&self, input: Input<'_, Ctx>, out: Option<R>) -> bool {
        climb_yields(self.inner, self.stop_kinds@, input, input.node, out)
    }

    fn handle<'tree>(&self, input: Input<'tree, Ctx>) -> (out: HandlerResult<R>) {
        let mut current = input.node;
        loop
            invariant
                climb_admits(self.inner, self.stop_kinds@, input, current),
                forall|o: Option<R>|
                    #[trigger] climb_yields(self.inner, self.stop_kinds@, input, current, o)
                        ==> climb_yields(self.inner, self.stop_kinds@, input, input.node, o),
            decreases current.spec_id(),
        {
            let attempt = self.inner.handle(input.with_node(current));
            if attempt.is_some() {
                assert(climb_yields(self.inner, self.stop_kinds@, input, current, attempt));
                return attempt;
            }
            if contains_kind(self.stop_kinds, current.kind()) {
                assert(climb_yields(self.inner, self.stop_kinds@, input, current, None));
                return None;
            }
            match current.parent() {
                Some(parent) => {
                    assert forall|o: Option<R>|
                        #[trigger] climb_yields(self.inner, self.stop_kinds@, input, parent, o)
                            implies climb_yields(
                            self.inner,
                            self.stop_kinds@,
                            input,
                            input.node,
                            o,
                        ) by {
                        assert(climb_yields(self.inner, self.stop_kinds@, input, current, o));
                    }
                    current = parent;
                },
                None => {
                    assert(climb_yields(self.inner, self.stop_kinds@, input, current, None));
                    return None;
                },
            }
        }
    }
}

/// `other` may be called at every ancestor of `n` that climbing tries.
pub open spec fn ancestors_admit<'t, Ctx, R, O: Handler<Ctx, R>>(
    other: O,
    stops: Seq<&str>,
    input: Input<'t, Ctx>,
    n: Node<'t>,
) -> bool
    decreases n.spec_id(),
{
    !kind_in(stops, n.spec_kind()) ==> match n.spec_parent() {
        Some(p) => p.spec_id() < n.spec_id() ==> {
            &&& other.admits(input.spec_with_node(p))
            &&& other.yields(input.spec_with_node(p), None) ==> ancestors_admit(
                other,
                stops,
                input,
                p,
            )
        },
        None => true,
    }
}

/// `out` is a result of trying `other` on the strict ancestors of `n`:
/// `None` when `n`'s kind is a stop kind or `n` is the root; otherwise
/// `other`'s result at the parent when it is `Some`, and the result of
/// continuing from the parent else.
pub open spec fn ancestors_yield<'t, Ctx, R, O: Handler<Ctx, R>>(
    other: O,
    stops: Seq<&str>,
    input: Input<'t, Ctx>,
    n: Node<'t>,
    out: Option<R>,
) -> bool
    decreases n.spec_id(),
{
    if kind_in(stops, n.spec_kind()) {
        out is None
    } else {
        match n.spec_parent() {
            Some(p) => if p.spec_id() < n.spec_id() {
                ||| out is Some && other.yields(input.spec_with_node(p), out)
                ||| other.yields(input.spec_with_node(p), None) && ancestors_yield(
                    other,
                    stops,
                    input,
                    p,
                    out,
                )
            } else {
                out is None
            },
            None => out is None,
        }
    }
}

/// A handler that first tries `inner` on the current node; if that returns
/// `None`, walks up the tree trying `other` at each ancestor, stopping at any
/// kind in `stop_kinds` or at the root.
pub struct OrElseClimb<H, O> {
    /// Handler tried first on the original node.
    pub inner: H,
    /// Handler tried on each ancestor when `inner` fails.
    pub other: O,
    /// Kinds at which climbing stops.
    pub stop_kinds: &'static [&'static str],
}

impl<Ctx: Copy, R, H: Handler<Ctx, R>, O: Handler<Ctx, R>> Handler<Ctx, R> for OrElseClimb<H, O> {
    open spec fn admits(&self, input: Input<'_, Ctx>) -> bool {
        &&& self.inner.admits(input)
        &&& self.inner.yields(input, None) ==> ancestors_admit(
            self.other,
            self.stop_kinds@,
            input,
            input.node,
        )
    }

    open spec fn yields(&self, input: Input<'_, Ctx>, out: Option<R>) -> bool {
        ||| out is Some && self.inner.yields(input, out)
        ||| self.inner.yields(input, None) && ancestors_yield(
            self.other,
            self.stop_kinds@,
            input,
            input.node,
            out,
        )
    }

    fn handle<'tree>(&self, input: Input<'tree, Ctx>) -> (out: HandlerResult<R>) {
        if let Some(out) = self.inner.handle(input) {
            return Some(out);
        }
        let mut current = input.node;
        loop
            invariant
                ancestors_admit(self.other, self.stop_kinds@, input, current),
                self.inner.yields(input, None),
                forall|o: Option<R>|
                    #[trigger] ancestors_yield(self.other, self.stop_kinds@, input, current, o)
                        ==> ancestors_yield(self.other, self.stop_kinds@, input, input.node, o),
            decreases current.spec_id(),
        {
            if contains_kind(self.stop_kinds, current.kind()) {
                assert(ancestors_yield(self.other, self.stop_kinds@, input, current, None));
                return None;
            }
            match current.parent() {
                Some(parent) => {
                    let attempt = self.other.handle(input.with_node(parent));
                    if attempt.is_some() {
                        assert(ancestors_yield(
                            self.other,
                            self.stop_kinds@,
                            input,
                            current,
                            attempt,
                        ));
                        return attempt;
                    }
                    assert forall|o: Option<R>|
                        #[trigger] ancestors_yield(self.other, self.stop_kinds@, input, parent, o)
                            implies ancestors_yield(
                            self.other,
                            self.stop_kinds@,
                            input,
                            input.node,
                            o,
                        ) by {
                        assert(ancestors_yield(self.other, self.stop_kinds@, input, current, o));
                    }
                    current = parent;
                },
                None => {
                    assert(ancestors_yield(self.other, self.stop_kinds@, input, current, None));
                    return None;
                },
            }
        }
    }
}

} // verus!
