//! The [`ForChildren`] and [`ScanChildren`] combinators: apply a handler to
//! every named child of the current node.
//!
//! Both operate on named children only, and only on immediate children.
use vstd::prelude::*;

use crate::handler::{Handler, HandlerResult};
use crate::input::Input;
use crate::tree::Node;

verus! {

/// `inner` may be called on each of the nodes `s`.
pub open spec fn all_admit<'t, Ctx, R, H: Handler<Ctx, R>>(
    inner: H,
    input: Input<'t, Ctx>,
    s: Seq<Node<'t>>,
) -> bool {
    forall|k: int| 0 <= k < s.len() ==> inner.admits(input.spec_with_node(#[trigger] s[k]))
}

/// `v` is a possible collection of the `Some` results of running `inner` on
/// each node of `s` in order.
pub open spec fn collects<'t, Ctx, R, H: Handler<Ctx, R>>(
    inner: H,
    input: Input<'t, Ctx>,
    s: Seq<Node<'t>>,
    v: Seq<R>,
) -> bool
    decreases s.len(),
{
    if s.len() == 0 {
        v.len() == 0
    } else {
        ||| inner.yields(input.spec_with_node(s.last()), None) && collects(
            inner,
            input,
            s.drop_last(),
            v,
        )
        ||| v.len() > 0 && inner.yields(input.spec_with_node(s.last()), Some(v.last()))
            && collects(inner, input, s.drop_last(), v.drop_last())
    }
}

/// `out` is a possible result of running `inner` on the nodes of `s` in
/// order and stopping at the first `Some`.
pub open spec fn scans<'t, Ctx, R, H: Handler<Ctx, R>>(
    inner: H,
    input: Input<'t, Ctx>,
    s: Seq<Node<'t>>,
    out: Option<R>,
) -> bool
    decreases s.len(),
{
    if s.len() == 0 {
        out is None
    } else {
        ||| out is Some && inner.yields(input.spec_with_node(s[0]), out)
        ||| inner.yields(input.spec_with_node(s[0]), None) && scans(inner, input, s.drop_first(), out)
    }
}

/// A handler that runs `inner` on every named child of the current node and
/// returns `Some` of all its `Some` results, in order (possibly empty). It
/// never returns `None`.
pub struct ForChildren<H> {
    /// The handler applied to each named child.
    pub inner: H,
}

impl<Ctx: Copy, R, H: Handler<Ctx, R>> Handler<Ctx, Vec<R>> for ForChildren<H> {
    open spec fn admits(&self, input: Input<'_, Ctx>) -> bool {
        all_admit(self.inner, input, input.node.spec_named_children())
    }

    open spec fn yields(&self, input: Input<'_, Ctx>, out: Option<Vec<R>>) -> bool {
        out matches Some(v) && collects(self.inner, input, input.node.spec_named_children(), v@)
    }

    fn handle<'tree>(&self, input: Input<'tree, Ctx>) -> (out: HandlerResult<Vec<R>>) {
        let children = input.node.named_children();
        let mut results: Vec<R> = Vec::new();
        let mut k: usize = 0;
        while k < children.len()
            invariant
                children@ == input.node.spec_named_children(),
                all_admit(self.inner, input, children@),
                k <= children@.len(),
                collects(self.inner, input, children@.take(k as int), results@),
            decreases children@.len() - k,
        {
            let ghost before = results@;
            let child = children[k];
            if let Some(r) = self.inner.handle(input.with_node(child)) {
                results.push(r);
            }
            proof {
                let s = children@.take(k + 1);
                assert(s.drop_last() =~= children@.take(k as int));
                assert(s.last() == child);
                if results@.len() > before.len() {
                    assert(results@.drop_last() =~= before);
                }
            }
            k += 1;
        }
        assert(children@.take(k as int) =~= children@);
        Some(results)
    }
}

/// A handler that runs `inner` on each named child of the current node in
/// order and returns the first `Some` result, or `None` when there is none.
pub struct ScanChildren<H> {
    /// The handler applied to each named child.
    pub inner: H,
}

impl<Ctx: Copy, R, H: Handler<Ctx, R>> Handler<Ctx, R> for ScanChildren<H> {
    open spec fn admits(&self, input: Input<'_, Ctx>) -> bool {
        all_admit(self.inner, input, input.node.spec_named_children())
    }

    open spec fn yields(&self, input: Input<'_, Ctx>, out: Option<R>) -> bool {
        scans(self.inner, input, input.node.spec_named_children(), out)
    }

    fn handle<'tree>(&self, input: Input<'tree, Ctx>) -> (out: HandlerResult<R>) {
        let children = input.node.named_children();
        let mut k: usize = 0;
        assert(children@.skip(0) =~= children@);
        while k < children.len()
            invariant
                children@ == input.node.spec_named_children(),
                all_admit(self.inner, input, children@),
                k <= children@.len(),
                forall|o: Option<R>|
                    #[trigger] scans(self.inner, input, children@.skip(k as int), o) ==> scans(
                        self.inner,
                        input,
                        children@,
                        o,
                    ),
            decreases children@.len() - k,
        {
            let child = children[k];
            let attempt = self.inner.handle(input.with_node(child));
            let ghost rest = children@.skip(k as int);
            assert(rest[0] == child);
            assert(rest.drop_first() =~= children@.skip(k + 1));
            if attempt.is_some() {
                assert(scans(self.inner, input, rest, attempt));
                return attempt;
            }
            assert forall|o: Option<R>|
                #[trigger] scans(self.inner, input, children@.skip(k + 1), o) implies scans(
                self.inner,
                input,
                children@,
                o,
            ) by {
                assert(scans(self.inner, input, rest, o));
            }
            k += 1;
        }
        assert(scans(self.inner, input, children@.skip(k as int), None));
        None
    }
}

} // verus!
