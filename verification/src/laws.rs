//! Properties that hold across the library's functions, stated over the
//! spec functions that their contracts use.
use vstd::prelude::*;

use crate::combinators::climb::{ancestors_yield, climb_yields, Climb, OrElseClimb};
use crate::combinators::for_children::{collects, scans, ForChildren, ScanChildren};
use crate::combinators::find_ancestor::FindAncestor;
use crate::combinators::map::MapOutput;
use crate::combinators::or::Or;
use crate::combinators::when::When;
use crate::constructors::{first_some, FirstOf, Never};
use crate::handler::Handler;
use crate::input::Input;
use crate::kinds::kind_in;
use crate::predicates::{HasAncestorKinds, HasParentKind, KindIs, KindIsNot, NodePredicate};
use crate::traversal::{
    depth,
    first_ancestor,
    first_of_kinds,
    first_up,
    last_match,
    last_match_children,
    named_sibling_before,
    peeled,
    position_of_id,
    spans,
    up_has_id,
};
use crate::tree::Node;

verus! {

broadcast use Node::lemma_at, Node::lemma_at_at, Node::lemma_at_self;

/// `a` is `x` or one of its ancestors.
pub open spec fn descends_from<'t>(x: Node<'t>, a: Node<'t>) -> bool
    decreases x.spec_id(),
{
    ||| x == a
    ||| match x.spec_parent() {
        Some(p) => p.spec_id() < x.spec_id() && descends_from(p, a),
        None => false,
    }
}

/// Descent is transitive: a descendant of a descendant of `a` descends from
/// `a`.
pub proof fn law_descends_transitive<'t>(x: Node<'t>, b: Node<'t>, a: Node<'t>)
    requires
        descends_from(x, b),
        descends_from(b, a),
    ensures
        descends_from(x, a),
    decreases x.spec_id(),
{
    if x != b {
        let p = x.spec_parent().unwrap();
        law_descends_transitive(p, b, a);
    }
}

/// `is_descendant_of(x, a)` answers `true` whenever `a` is `x` or one of its
/// ancestors.
pub proof fn law_is_descendant_of_complete<'t>(x: Node<'t>, a: Node<'t>)
    requires
        descends_from(x, a),
    ensures
        up_has_id(x, a.spec_id()),
    decreases x.spec_id(),
{
    if x != a {
        let p = x.spec_parent().unwrap();
        law_is_descendant_of_complete(p, a);
    }
}

/// What the upward search (`ancestor_of_kind(s)`, `find_ancestor`,
/// `has_ancestor_kind(s)`) finds starting at `n` itself: a node whose kind is
/// a target and not a stop kind, and that is `n` or one of its ancestors.
pub proof fn law_first_up_result<'t>(n: Node<'t>, targets: Seq<&str>, stops: Seq<&str>)
    ensures
        first_up(n, targets, stops) matches Some(a) ==> {
            &&& kind_in(targets, a.spec_kind())
            &&& !kind_in(stops, a.spec_kind())
            &&& a.spec_id() <= n.spec_id()
            &&& descends_from(n, a)
        },
    decreases n.spec_id(),
{
    if !kind_in(stops, n.spec_kind()) && !kind_in(targets, n.spec_kind()) {
        if let Some(p) = n.spec_parent() {
            if p.spec_id() < n.spec_id() {
                law_first_up_result(p, targets, stops);
            }
        }
    }
}

/// The ancestor that `ancestor_of_kind(s)` and `find_ancestor` find is a
/// strict ancestor of the start node (never the node itself), its kind is a
/// target and not a stop kind.
pub proof fn law_first_ancestor_result<'t>(n: Node<'t>, targets: Seq<&str>, stops: Seq<&str>)
    ensures
        first_ancestor(n, targets, stops) matches Some(a) ==> {
            &&& kind_in(targets, a.spec_kind())
            &&& !kind_in(stops, a.spec_kind())
            &&& a.spec_id() < n.spec_id()
            &&& descends_from(n, a)
        },
{
    if let Some(p) = n.spec_parent() {
        if p.spec_id() < n.spec_id() {
            law_first_up_result(p, targets, stops);
            if let Some(a) = first_up(p, targets, stops) {
                assert(descends_from(p, p));
                assert(descends_from(n, p));
                law_descends_transitive(n, p, a);
            }
        }
    }
}

/// Peeling reaches a node that is `n` or one of its descendants and that is
/// not a wrapper or has no named child; a node that is not a wrapper is
/// returned unchanged.
pub proof fn law_peel_result<'t>(n: Node<'t>, wrappers: Seq<&str>)
    requires
        n.valid(),
    ensures
        peeled(n, wrappers).valid(),
        descends_from(peeled(n, wrappers), n),
        !kind_in(wrappers, peeled(n, wrappers).spec_kind()) || peeled(
            n,
            wrappers,
        ).spec_named_children().len() == 0,
        !kind_in(wrappers, n.spec_kind()) ==> peeled(n, wrappers) == n,
    decreases n.tree_view().len() - n.spec_id(),
{
    n.lemma_named_children();
    if kind_in(wrappers, n.spec_kind()) && n.spec_named_children().len() > 0 {
        let c = n.spec_named_children()[0];
        law_peel_result(c, wrappers);
        assert(descends_from(n, n));
        assert(descends_from(c, n));
        law_descends_transitive(peeled(c, wrappers), c, n);
    }
}

/// The child that `first_child_of_kind(s)` finds is a named child of `n`
/// whose kind is one of `kinds`.
pub proof fn law_first_named_child_result<'t>(n: Node<'t>, kinds: Seq<&str>)
    requires
        n.valid(),
    ensures
        first_of_kinds(n.spec_named_children(), kinds) matches Some(c) ==> {
            &&& c.spec_parent() == Some(n)
            &&& c.data().named
            &&& kind_in(kinds, c.spec_kind())
        },
{
    n.lemma_named_children();
    lemma_first_of_kinds_in(n.spec_named_children(), kinds);
}

/// The child that `any_child_of_kind(s)` finds is a child of `n` whose kind
/// is one of `kinds`.
pub proof fn law_first_child_result<'t>(n: Node<'t>, kinds: Seq<&str>)
    requires
        n.valid(),
    ensures
        first_of_kinds(n.spec_children(), kinds) matches Some(c) ==> {
            &&& c.spec_parent() == Some(n)
            &&& kind_in(kinds, c.spec_kind())
        },
{
    n.lemma_children();
    lemma_first_of_kinds_in(n.spec_children(), kinds);
}

/// The node that [`first_of_kinds`] picks is an element of the sequence with
/// a matching kind.
proof fn lemma_first_of_kinds_in<'t>(s: Seq<Node<'t>>, kinds: Seq<&str>)
    ensures
        first_of_kinds(s, kinds) matches Some(c) ==> {
            &&& exists|j: int| 0 <= j < s.len() && s[j] == c
            &&& kind_in(kinds, c.spec_kind())
        },
    decreases s.len(),
{
    if s.len() > 0 && !kind_in(kinds, s[0].spec_kind()) {
        lemma_first_of_kinds_in(s.drop_first(), kinds);
        if let Some(c) = first_of_kinds(s, kinds) {
            let j = choose|j: int| 0 <= j < s.drop_first().len() && s.drop_first()[j] == c;
            assert(s[j + 1] == c);
        }
    } else if s.len() > 0 {
        assert(s[0] == s[0]);
    }
}

/// The node that `find_node_by_offset` returns has the requested kind, its
/// span contains the offset, it is `root` or a descendant of it, and it is
/// innermost: no node inside it that the search reaches matches as well.
pub proof fn law_offset_result<'t>(root: Node<'t>, kind: Seq<char>, offset: int)
    requires
        root.valid(),
    ensures
        last_match(root, kind, offset) matches Some(m) ==> {
            &&& m.spec_kind() == kind
            &&& spans(m, offset)
            &&& descends_from(m, root)
            &&& last_match_children(m, m.spec_children().len() as int, kind, offset) is None
        },
    decreases root.tree_view().len() - root.spec_id(), root.spec_children().len() + 1,
{
    if spans(root, offset) {
        let k = root.spec_children().len() as int;
        lemma_offset_children(root, k, kind, offset);
    }
}

/// [`law_offset_result`] for the children part of the search.
proof fn lemma_offset_children<'t>(n: Node<'t>, k: int, kind: Seq<char>, offset: int)
    requires
        n.valid(),
    ensures
        last_match_children(n, k, kind, offset) matches Some(m) ==> {
            &&& m.spec_kind() == kind
            &&& spans(m, offset)
            &&& descends_from(m, n)
            &&& last_match_children(m, m.spec_children().len() as int, kind, offset) is None
        },
    decreases n.tree_view().len() - n.spec_id(), k,
{
    n.lemma_children();
    if 0 < k <= n.spec_children().len() {
        let c = n.spec_children()[k - 1];
        law_offset_result(c, kind, offset);
        lemma_offset_children(n, k - 1, kind, offset);
        if let Some(m) = last_match(c, kind, offset) {
            assert(descends_from(n, n));
            assert(descends_from(c, n));
            law_descends_transitive(m, c, n);
        }
    }
}

/// `h.climb(stops)` and `h.or_else_climb(h, stops)` yield the same results:
/// climbing retries the same handler on each ancestor.
pub proof fn law_climb_is_or_else_climb<'t, Ctx: Copy, R, H: Handler<Ctx, R>>(
    h: H,
    stops: &'static [&'static str],
    input: Input<'t, Ctx>,
    out: Option<R>,
)
    ensures
        (Climb { inner: h, stop_kinds: stops }).yields(input, out) == (OrElseClimb {
            inner: h,
            other: h,
            stop_kinds: stops,
        }).yields(input, out),
{
    lemma_climb_unfold(h, stops@, input, input.node, out);
    assert(input.spec_with_node(input.node) == input);
}

/// Climbing from `n` is trying `h` at `n` and then at the ancestors of `n`.
proof fn lemma_climb_unfold<'t, Ctx, R, H: Handler<Ctx, R>>(
    h: H,
    stops: Seq<&str>,
    input: Input<'t, Ctx>,
    n: Node<'t>,
    out: Option<R>,
)
    ensures
        climb_yields(h, stops, input, n, out) == ((out is Some && h.yields(
            input.spec_with_node(n),
            out,
        )) || (h.yields(input.spec_with_node(n), None) && ancestors_yield(
            h,
            stops,
            input,
            n,
            out,
        ))),
    decreases n.spec_id(),
{
    if let Some(p) = n.spec_parent() {
        if p.spec_id() < n.spec_id() {
            lemma_climb_unfold(h, stops, input, p, out);
        }
    }
}

/// `never()` is a left identity of `or`: `never().or(h)` yields exactly what
/// `h` yields.
pub proof fn law_never_or<'t, Ctx: Copy, R, H: Handler<Ctx, R>>(
    n: Never<Ctx, R>,
    h: H,
    input: Input<'t, Ctx>,
    out: Option<R>,
)
    ensures
        (Or { first: n, second: h }).yields(input, out) == h.yields(input, out),
{
}

/// `never()` is a right identity of `or`: `h.or(never())` yields exactly what
/// `h` yields.
pub proof fn law_or_never<'t, Ctx: Copy, R, H: Handler<Ctx, R>>(
    h: H,
    n: Never<Ctx, R>,
    input: Input<'t, Ctx>,
    out: Option<R>,
)
    ensures
        (Or { first: h, second: n }).yields(input, out) == h.yields(input, out),
{
}

/// `or` is associative: `a.or(b).or(c)` and `a.or(b.or(c))` yield the same
/// results.
pub proof fn law_or_associative<'t, Ctx: Copy, R, A, B, C>(
    a: A,
    b: B,
    c: C,
    input: Input<'t, Ctx>,
    out: Option<R>,
) where A: Handler<Ctx, R>, B: Handler<Ctx, R>, C: Handler<Ctx, R>
    ensures
        (Or { first: Or { first: a, second: b }, second: c }).yields(input, out) == (Or {
            first: a,
            second: Or { first: b, second: c },
        }).yields(input, out),
{
}

/// `map` propagates `None`: the mapped handler yields `None` exactly when
/// the source handler does.
pub proof fn law_map_none<'t, Ctx: Copy, R, R2, H, F>(
    m: MapOutput<H, F, R>,
    input: Input<'t, Ctx>,
) where H: Handler<Ctx, R>, F: Fn(R) -> R2 + Send + Sync
    ensures
        m.yields(input, None) == m.inner.yields(input, None),
{
}

/// `for_children` never yields `None`, and on a node without named
/// children it yields only the empty collection.
pub proof fn law_for_children<'t, Ctx: Copy, R, H: Handler<Ctx, R>>(
    f: ForChildren<H>,
    input: Input<'t, Ctx>,
    out: Option<Vec<R>>,
)
    ensures
        !f.yields(input, None),
        input.node.spec_named_children().len() == 0 ==> (f.yields(input, out) <==> (out matches Some(
            v,
        ) && v@.len() == 0)),
{
}

/// For a handler that yields at most one result on each input,
/// `h.scan_children()` yields the first element of what `h.for_children()`
/// collects on the same input, and `None` when that collection is empty.
pub proof fn law_scan_children_is_first_of_for_children<'t, Ctx: Copy, R, H: Handler<Ctx, R>>(
    h: H,
    input: Input<'t, Ctx>,
    all: Vec<R>,
    out: Option<R>,
)
    requires
        forall|i: Input<'t, Ctx>, o1: Option<R>, o2: Option<R>|
            #![trigger h.yields(i, o1), h.yields(i, o2)]
            h.yields(i, o1) && h.yields(i, o2) ==> o1 == o2,
        (ForChildren { inner: h }).yields(input, Some(all)),
        (ScanChildren { inner: h }).yields(input, out),
    ensures
        out == (if all@.len() > 0 {
            Some(all@[0])
        } else {
            None
        }),
{
    lemma_scan_is_first_collected(h, input, input.node.spec_named_children(), all@, out);
}

/// [`law_scan_children_is_first_of_for_children`] over any sequence of nodes.
proof fn lemma_scan_is_first_collected<'t, Ctx, R, H: Handler<Ctx, R>>(
    h: H,
    input: Input<'t, Ctx>,
    s: Seq<Node<'t>>,
    v: Seq<R>,
    out: Option<R>,
)
    requires
        forall|i: Input<'t, Ctx>, o1: Option<R>, o2: Option<R>|
            #![trigger h.yields(i, o1), h.yields(i, o2)]
            h.yields(i, o1) && h.yields(i, o2) ==> o1 == o2,
        collects(h, input, s, v),
        scans(h, input, s, out),
    ensures
        out == (if v.len() > 0 {
            Some(v[0])
        } else {
            None
        }),
    decreases s.len(),
{
    if s.len() > 0 {
        lemma_collects_first(h, input, s, v);
        if h.yields(input.spec_with_node(s[0]), None) && collects(h, input, s.drop_first(), v)
            && scans(h, input, s.drop_first(), out) {
            lemma_scan_is_first_collected(h, input, s.drop_first(), v, out);
        }
    }
}

/// Reading a collection from its first node: either the first node yields
/// `None` and the others collect everything, or it yields the first element
/// and the others collect the rest.
proof fn lemma_collects_first<'t, Ctx, R, H: Handler<Ctx, R>>(
    h: H,
    input: Input<'t, Ctx>,
    s: Seq<Node<'t>>,
    v: Seq<R>,
)
    requires
        s.len() > 0,
        collects(h, input, s, v),
    ensures
        (h.yields(input.spec_with_node(s[0]), None) && collects(h, input, s.drop_first(), v)) || (
        v.len() > 0 && h.yields(input.spec_with_node(s[0]), Some(v[0])) && collects(
            h,
            input,
            s.drop_first(),
            v.drop_first(),
        )),
    decreases s.len(),
{
    let t = s.drop_first();
    if s.len() == 1 {
        let s1 = s.drop_last();
        assert(s1.len() == 0);
        assert(t.len() == 0);
        assert(s.last() == s[0]);
        if h.yields(input.spec_with_node(s.last()), None) && collects(h, input, s1, v) {
            assert(v.len() == 0);
            assert(collects(h, input, t, v));
        } else {
            assert(v.len() > 0);
            assert(collects(h, input, s1, v.drop_last()));
            assert(v.drop_last().len() == 0);
            assert(v.len() == 1);
            assert(v.drop_first().len() == 0);
            assert(v.last() == v[0]);
            assert(collects(h, input, t, v.drop_first()));
        }
    } else {
        let s1 = s.drop_last();
        assert(s1[0] == s[0]);
        assert(s1.drop_first() =~= t.drop_last());
        assert(t.last() == s.last());
        if h.yields(input.spec_with_node(s.last()), None) && collects(h, input, s1, v) {
            lemma_collects_first(h, input, s1, v);
            if v.len() > 0 {
                assert(v.drop_first().len() == v.len() - 1);
            }
        } else {
            let v1 = v.drop_last();
            lemma_collects_first(h, input, s1, v1);
            assert(v.last() == v[v.len() - 1]);
            if v1.len() > 0 {
                assert(v1[0] == v[0]);
                assert(v.drop_first().drop_last() =~= v1.drop_first());
                assert(v.drop_first().last() == v.last());
            }
        }
    }
}

/// `h.for_kinds(kinds)` yields what `h` yields on nodes whose kind is one of
/// `kinds`, and only `None` on the others.
pub proof fn law_for_kinds<'t, Ctx: Copy, R, H: Handler<Ctx, R>>(
    h: H,
    kinds: &'static [&'static str],
    input: Input<'t, Ctx>,
    out: Option<R>,
)
    ensures
        (When { inner: h, pred: KindIs(kinds) }).yields(input, out) == if kind_in(
            kinds@,
            input.node.spec_kind(),
        ) {
            h.yields(input, out)
        } else {
            out is None
        },
{
}

/// With no stop kinds, `h.find_ancestor(targets, &[])` yields what `h`
/// yields on the ancestor that `ancestor_of_kinds(node, targets)` returns,
/// and `None` when that returns `None`; `has_ancestor_kinds(targets)` holds
/// exactly when that ancestor exists.
pub proof fn law_find_ancestor_agrees<'t, Ctx: Copy, R, H: Handler<Ctx, R>>(
    h: H,
    targets: &'static [&'static str],
    stops: &'static [&'static str],
    input: Input<'t, Ctx>,
    out: Option<R>,
    b: bool,
)
    requires
        stops@.len() == 0,
    ensures
        (FindAncestor { inner: h, target_kinds: targets, stop_kinds: stops }).yields(input, out)
            == match first_ancestor(input.node, targets@, Seq::empty()) {
            Some(a) => h.yields(input.spec_with_node(a), out),
            None => out is None,
        },
        <HasAncestorKinds as NodePredicate<Ctx>>::answers(&HasAncestorKinds(targets), input, b)
            == (b == first_ancestor(input.node, targets@, Seq::empty()) is Some),
{
    assert(stops@ =~= Seq::<&str>::empty());
}

/// `kind_is_not(kinds)` answers the negation of `kind_is(kinds)`.
pub proof fn law_kind_is_not_negates<'t, Ctx>(
    kinds: &'static [&'static str],
    input: Input<'t, Ctx>,
    b: bool,
)
    ensures
        <KindIsNot as NodePredicate<Ctx>>::answers(&KindIsNot(kinds), input, b)
            == <KindIs as NodePredicate<Ctx>>::answers(&KindIs(kinds), input, !b),
{
}

/// The root has depth 0 and a child is one deeper than its parent.
pub proof fn law_depth<'t>(n: Node<'t>)
    requires
        n.valid(),
    ensures
        n.spec_parent() is None ==> depth(n) == 0,
        forall|k: int|
            0 <= k < n.spec_children().len() ==> depth(#[trigger] n.spec_children()[k]) == depth(
                n,
            ) + 1,
{
    n.lemma_children();
}

/// The first position of `s` holding a node with index `id` is `j` when `s[j]`
/// has that index and no earlier node does; there is none when no node does.
proof fn lemma_position_of_id<'t>(s: Seq<Node<'t>>, id: nat, j: int)
    requires
        0 <= j <= s.len(),
        j < s.len() ==> s[j].spec_id() == id,
        forall|i: int| 0 <= i < j ==> s[i].spec_id() != id,
    ensures
        position_of_id(s, id) == if j < s.len() {
            Some(j)
        } else {
            None::<int>
        },
    decreases s.len(),
{
    if s.len() > 0 && j > 0 {
        assert(s[0].spec_id() != id);
        assert forall|i: int| 0 <= i < j - 1 implies s.drop_first()[i].spec_id() != id by {
            assert(s.drop_first()[i] == s[i + 1]);
        }
        if j < s.len() {
            assert(s.drop_first()[j - 1] == s[j]);
        }
        lemma_position_of_id(s.drop_first(), id, j - 1);
    }
}

/// `preceding_named_sibling(node, parent)`: when `node`'s index first occurs
/// among the named children of `parent` at position `j`, the result is the
/// named child at position `j - 1`, and `None` when `j` is 0.
pub proof fn law_preceding_named_sibling<'t>(node: Node<'t>, parent: Node<'t>, j: int)
    requires
        0 <= j < parent.spec_named_children().len(),
        parent.spec_named_children()[j].spec_id() == node.spec_id(),
        forall|i: int|
            0 <= i < j ==> (#[trigger] parent.spec_named_children()[i]).spec_id()
                != node.spec_id(),
    ensures
        named_sibling_before(node, parent) == if j > 0 {
            Some(parent.spec_named_children()[j - 1])
        } else {
            None
        },
{
    lemma_position_of_id(parent.spec_named_children(), node.spec_id(), j);
}

/// `preceding_named_sibling(node, parent)` is `None` when `node`'s index is
/// not that of a named child of `parent`.
pub proof fn law_preceding_named_sibling_absent<'t>(node: Node<'t>, parent: Node<'t>)
    requires
        forall|i: int|
            0 <= i < parent.spec_named_children().len() ==> (
            #[trigger] parent.spec_named_children()[i]).spec_id() != node.spec_id(),
    ensures
        named_sibling_before(node, parent) is None,
{
    lemma_position_of_id(
        parent.spec_named_children(),
        node.spec_id(),
        parent.spec_named_children().len() as int,
    );
}

/// `has_parent_kind(kind)` answers `true` exactly when the node has a parent
/// whose kind is `kind`: a node whose parent has another kind gets `false`,
/// whatever kinds its further ancestors have. When it answers `true`,
/// `has_ancestor_kind(kind)` holds too.
pub proof fn law_has_parent_kind<'t, Ctx>(kind: &'static str, input: Input<'t, Ctx>, b: bool)
    ensures
        <HasParentKind as NodePredicate<Ctx>>::answers(&HasParentKind(kind), input, b) <==> b == (
        input.node.spec_parent() matches Some(p) && p.spec_kind() == kind@),
        (input.node.spec_parent() matches Some(p) && p.spec_kind() != kind@) ==> !<HasParentKind as NodePredicate<Ctx>>::answers(&HasParentKind(kind), input, true),
        (<HasParentKind as NodePredicate<Ctx>>::answers(&HasParentKind(kind), input, true)
            && input.node.valid()) ==> first_ancestor(input.node, seq![kind], Seq::empty()) is Some,
{
    if let Some(p) = input.node.spec_parent() {
        if input.node.valid() {
            input.node.lemma_parent();
        }
        crate::traversal::lemma_kind_in_single(kind, p.spec_kind());
    }
}

/// `first_of(handlers)` tries its first handler first: a `Some` result of
/// the first handler is a result of the whole, and the whole yields nothing
/// else unless the first handler may yield `None`. With one handler,
/// `first_of` yields exactly what that handler yields.
pub proof fn law_first_of_first_wins<'t, Ctx: Copy, R>(
    f: FirstOf<Ctx, R>,
    input: Input<'t, Ctx>,
    out: Option<R>,
)
    requires
        f.spec_handlers().len() > 0,
    ensures
        (out is Some && f.spec_handlers()[0].yields(input, out)) ==> f.yields(input, out),
        f.yields(input, out) ==> ((out is Some && f.spec_handlers()[0].yields(input, out))
            || f.spec_handlers()[0].yields(input, None)),
        f.spec_handlers().len() == 1 ==> (f.yields(input, out) <==> f.spec_handlers()[0].yields(
            input,
            out,
        )),
{
    if f.spec_handlers().len() == 1 {
        let rest = f.spec_handlers().drop_first();
        assert(rest.len() == 0);
        assert(first_some(rest, input, out) == (out is None));
    }
}

/// `a.or(b)` tries `a` first: a `Some` result of `a` is a result of the
/// whole, and the whole yields nothing else unless `a` may yield `None`.
pub proof fn law_or_first_wins<'t, Ctx: Copy, R, A: Handler<Ctx, R>, B: Handler<Ctx, R>>(
    a: A,
    b: B,
    input: Input<'t, Ctx>,
    out: Option<R>,
)
    ensures
        (out is Some && a.yields(input, out)) ==> (Or { first: a, second: b }).yields(input, out),
        (Or { first: a, second: b }).yields(input, out) ==> ((out is Some && a.yields(input, out))
            || a.yields(input, None)),
{
}

/// Peeling a wrapper that has a named child is peeling its first named
/// child.
pub proof fn law_peel_first_named_child<'t>(n: Node<'t>, wrappers: Seq<&str>)
    requires
        n.valid(),
        kind_in(wrappers, n.spec_kind()),
        n.spec_named_children().len() > 0,
    ensures
        peeled(n, wrappers) == peeled(n.spec_named_children()[0], wrappers),
{
    n.lemma_named_children();
}

/// Climbing only reads the context and trigger of its input, not its node.
proof fn lemma_climb_input_node<'t, Ctx, R, H: Handler<Ctx, R>>(
    h: H,
    stops: Seq<&str>,
    input: Input<'t, Ctx>,
    x: Node<'t>,
    n: Node<'t>,
    out: Option<R>,
)
    ensures
        climb_yields(h, stops, input.spec_with_node(x), n, out) == climb_yields(
            h,
            stops,
            input,
            n,
            out,
        ),
    decreases n.spec_id(),
{
    assert(input.spec_with_node(x).spec_with_node(n) == input.spec_with_node(n));
    if let Some(p) = n.spec_parent() {
        if p.spec_id() < n.spec_id() {
            lemma_climb_input_node(h, stops, input, x, p, out);
        }
    }
}

/// When the handler yields only `None` at the input's node and that node is
/// not a stop kind, `h.climb(stops)` yields exactly what it yields when
/// started at the node's parent, whatever the parent's kind: the handler is
/// tried at the parent before its kind can stop the climb.
pub proof fn law_climb_moves_to_parent<'t, Ctx: Copy, R, H: Handler<Ctx, R>>(
    h: H,
    stops: &'static [&'static str],
    input: Input<'t, Ctx>,
    p: Node<'t>,
    out: Option<R>,
)
    requires
        input.node.valid(),
        input.node.spec_parent() == Some(p),
        !kind_in(stops@, input.node.spec_kind()),
        h.yields(input, None),
        forall|o: Option<R>| #[trigger] h.yields(input, o) ==> o is None,
    ensures
        (Climb { inner: h, stop_kinds: stops }).yields(input, out) == (Climb {
            inner: h,
            stop_kinds: stops,
        }).yields(input.spec_with_node(p), out),
{
    input.node.lemma_parent();
    assert(input.spec_with_node(input.node) == input);
    lemma_climb_input_node(h, stops@, input, p, p, out);
    if out is Some {
        assert(!h.yields(input.spec_with_node(input.node), out));
    }
}

/// When `inner` yields only `None` at the input's node and that node is not
/// a stop kind, every `Some` result of `other` at the parent is a result of
/// `inner.or_else_climb(other, stops)`, whatever the parent's kind.
pub proof fn law_or_else_climb_tries_parent<'t, Ctx: Copy, R, H, O>(
    inner: H,
    other: O,
    stops: &'static [&'static str],
    input: Input<'t, Ctx>,
    p: Node<'t>,
    out: Option<R>,
) where H: Handler<Ctx, R>, O: Handler<Ctx, R>
    requires
        input.node.valid(),
        input.node.spec_parent() == Some(p),
        !kind_in(stops@, input.node.spec_kind()),
        inner.yields(input, None),
        out is Some,
        other.yields(input.spec_with_node(p), out),
    ensures
        (OrElseClimb { inner, other, stop_kinds: stops }).yields(input, out),
{
    input.node.lemma_parent();
}

} // verus!
