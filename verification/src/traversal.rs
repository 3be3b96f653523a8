//! Node-returning traversal utilities: ancestors, wrapper peeling, child
//! search, offset search and sibling lookup.
use vstd::prelude::*;

use crate::kinds::{contains_kind, kind_in, str_eq};
use crate::tree::Node;

verus! {

broadcast use Node::lemma_at, Node::lemma_at_at, Node::lemma_at_self;

/// `kind_in` of a one-element list is equality with that element.
pub proof fn lemma_kind_in_single(k: &str, x: Seq<char>)
    ensures
        kind_in(seq![k], x) == (k@ == x),
{
    if k@ == x {
        assert(seq![k][0] == k);
    }
}

/// The first node on the path from `n` up to the root, `n` included, whose
/// kind is in `targets`; `None` when a node whose kind is in `stops` comes
/// first (a stop node is not tested against `targets`) or the root is passed.
pub open spec fn first_up<'t>(n: Node<'t>, targets: Seq<&str>, stops: Seq<&str>) -> Option<
    Node<'t>,
>
    decreases n.spec_id(),
{
    if kind_in(stops, n.spec_kind()) {
        None
    } else if kind_in(targets, n.spec_kind()) {
        Some(n)
    } else {
        match n.spec_parent() {
            Some(p) => if p.spec_id() < n.spec_id() {
                first_up(p, targets, stops)
            } else {
                None
            },
            None => None,
        }
    }
}

/// [`first_up`] started at the parent of `n`: only strict ancestors are
/// examined.
pub open spec fn first_ancestor<'t>(n: Node<'t>, targets: Seq<&str>, stops: Seq<&str>) -> Option<
    Node<'t>,
> {
    match n.spec_parent() {
        Some(p) => if p.spec_id() < n.spec_id() {
            first_up(p, targets, stops)
        } else {
            None
        },
        None => None,
    }
}

/// The number of strict ancestors of `n` (the root has depth 0).
pub open spec fn depth<'t>(n: Node<'t>) -> nat
    decreases n.spec_id(),
{
    match n.spec_parent() {
        Some(p) => if p.spec_id() < n.spec_id() {
            1 + depth(p)
        } else {
            0
        },
        None => 0,
    }
}

/// The depth of a node is at most its index.
pub proof fn lemma_depth_bound<'t>(n: Node<'t>)
    ensures
        depth(n) <= n.spec_id(),
    decreases n.spec_id(),
{
    if let Some(p) = n.spec_parent() {
        if p.spec_id() < n.spec_id() {
            lemma_depth_bound(p);
        }
    }
}

/// Whether a node with index `id` lies on the path from `n` up to the root,
/// `n` included.
pub open spec fn up_has_id<'t>(n: Node<'t>, id: nat) -> bool
    decreases n.spec_id(),
{
    ||| n.spec_id() == id
    ||| match n.spec_parent() {
        Some(p) => p.spec_id() < n.spec_id() && up_has_id(p, id),
        None => false,
    }
}

/// The node that unwrapping `n` reaches: while the current node's kind is in
/// `wrappers` and it has a named child, descend into its first named child.
pub open spec fn peeled<'t>(n: Node<'t>, wrappers: Seq<&str>) -> Node<'t>
    decreases n.tree_view().len() - n.spec_id(),
{
    if !kind_in(wrappers, n.spec_kind()) || n.spec_named_children().len() == 0 {
        n
    } else {
        let c = n.spec_named_children()[0];
        if n.spec_id() < c.spec_id() && c.spec_id() < c.tree_view().len() && c.tree_view()
            == n.tree_view() {
            peeled(c, wrappers)
        } else {
            n
        }
    }
}

/// The first node of `s` whose kind is in `kinds`.
pub open spec fn first_of_kinds<'t>(s: Seq<Node<'t>>, kinds: Seq<&str>) -> Option<Node<'t>>
    decreases s.len(),
{
    if s.len() == 0 {
        None
    } else if kind_in(kinds, s[0].spec_kind()) {
        Some(s[0])
    } else {
        first_of_kinds(s.drop_first(), kinds)
    }
}

/// `n`'s span contains `offset` (inclusive start, exclusive end).
pub open spec fn spans(n: Node, offset: int) -> bool {
    n.data().start_byte <= offset < n.data().end_byte
}

/// What a depth-first walk of the subtree of `n` finds: the last node, in
/// pre-order, of kind `kind` whose span and all of whose ancestors' spans
/// (up to `n`) contain `offset`. The walk does not enter a node whose span
/// misses the offset.
pub open spec fn last_match<'t>(n: Node<'t>, kind: Seq<char>, offset: int) -> Option<Node<'t>>
    decreases n.tree_view().len() - n.spec_id(), n.spec_children().len() + 1,
{
    if !spans(n, offset) {
        None
    } else {
        match last_match_children(n, n.spec_children().len() as int, kind, offset) {
            Some(m) => Some(m),
            None => if n.spec_kind() == kind {
                Some(n)
            } else {
                None
            },
        }
    }
}

/// [`last_match`] over the first `k` children of `n`: the match of the last
/// of them that has one.
pub open spec fn last_match_children<'t>(n: Node<'t>, k: int, kind: Seq<char>, offset: int) -> Option<
    Node<'t>,
>
    decreases n.tree_view().len() - n.spec_id(), k,
{
    if k <= 0 || k > n.spec_children().len() {
        None
    } else {
        let c = n.spec_children()[k - 1];
        let here = if n.spec_id() < c.spec_id() && c.spec_id() < c.tree_view().len()
            && c.tree_view() == n.tree_view() {
            last_match(c, kind, offset)
        } else {
            None
        };
        match here {
            Some(m) => Some(m),
            None => last_match_children(n, k - 1, kind, offset),
        }
    }
}

/// The first index of `s` that holds a node with index `id`.
pub open spec fn position_of_id<'t>(s: Seq<Node<'t>>, id: nat) -> Option<int>
    decreases s.len(),
{
    if s.len() == 0 {
        None
    } else if s[0].spec_id() == id {
        Some(0)
    } else {
        match position_of_id(s.drop_first(), id) {
            Some(j) => Some(j + 1),
            None => None,
        }
    }
}

/// The named child of `parent` just before the one with `node`'s index.
pub open spec fn named_sibling_before<'t>(node: Node<'t>, parent: Node<'t>) -> Option<Node<'t>> {
    let s = parent.spec_named_children();
    match position_of_id(s, node.spec_id()) {
        Some(j) => if j > 0 {
            Some(s[j - 1])
        } else {
            None
        },
        None => None,
    }
}

/// Walks up the ancestor chain and returns the first strict ancestor whose
/// kind equals `kind`; the starting node itself is not tested. Returns `None`
/// when the root is reached without a match.
pub fn ancestor_of_kind<'tree>(node: Node<'tree>, kind: &str) -> (r: Option<Node<'tree>>)
    ensures
        r == first_ancestor(node, seq![kind], Seq::empty()),
{
    let mut cur = node;
    loop
        invariant
            first_ancestor(node, seq![kind], Seq::empty()) == first_ancestor(
                cur,
                seq![kind],
                Seq::empty(),
            ),
        decreases cur.spec_id(),
    {
        match cur.parent() {
            None => return None,
            Some(p) => {
                proof {
                    lemma_kind_in_single(kind, p.spec_kind());
                }
                cur = p;
                if str_eq(cur.kind(), kind) {
                    return Some(cur);
                }
            },
        }
    }
}

/// Walks up the ancestor chain and returns the first strict ancestor whose
/// kind is one of `kinds`. Returns `None` when the root is reached without a
/// match.
pub fn ancestor_of_kinds<'tree>(node: Node<'tree>, kinds: &[&str]) -> (r: Option<Node<'tree>>)
    ensures
        r == first_ancestor(node, kinds@, Seq::empty()),
{
    let mut cur = node;
    loop
        invariant
            first_ancestor(node, kinds@, Seq::empty()) == first_ancestor(
                cur,
                kinds@,
                Seq::empty(),
            ),
        decreases cur.spec_id(),
    {
        match cur.parent() {
            None => return None,
            Some(p) => {
                cur = p;
                if contains_kind(kinds, cur.kind()) {
                    return Some(cur);
                }
            },
        }
    }
}

/// Repeatedly descends into the first named child while the current node's
/// kind is in `wrapper_kinds`, returning the innermost non-wrapper node. A
/// node that is not a wrapper is returned unchanged; a wrapper without named
/// children stops the descent and is returned.
pub fn peel_while_kind<'tree>(node: Node<'tree>, wrapper_kinds: &[&str]) -> (r: Node<'tree>)
    ensures
        r == peeled(node, wrapper_kinds@),
{
    let mut cur = node;
    loop
        invariant
            peeled(node, wrapper_kinds@) == peeled(cur, wrapper_kinds@),
        decreases cur.tree_view().len() - cur.spec_id(),
    {
        proof {
            use_type_invariant(&cur);
            cur.lemma_named_children();
        }
        if !contains_kind(wrapper_kinds, cur.kind()) {
            return cur;
        }
        let named = cur.named_children();
        if named.len() == 0 {
            return cur;
        }
        cur = named[0];
    }
}

/// The first node of `nodes` whose kind is one of `kinds`.
fn first_node_of_kinds<'tree>(nodes: &Vec<Node<'tree>>, kinds: &[&str]) -> (r: Option<Node<'tree>>)
    ensures
        r == first_of_kinds(nodes@, kinds@),
{
    let mut k: usize = 0;
    assert(nodes@.skip(0) =~= nodes@);
    while k < nodes.len()
        invariant
            k <= nodes@.len(),
            first_of_kinds(nodes@, kinds@) == first_of_kinds(nodes@.skip(k as int), kinds@),
        decreases nodes@.len() - k,
    {
        assert(nodes@.skip(k as int).drop_first() =~= nodes@.skip(k + 1));
        if contains_kind(kinds, nodes[k].kind()) {
            return Some(nodes[k]);
        }
        k += 1;
    }
    None
}

/// Returns the first named child of `node` whose kind equals `kind`. Only the
/// immediate children are searched.
pub fn first_child_of_kind<'tree>(node: Node<'tree>, kind: &str) -> (r: Option<Node<'tree>>)
    ensures
        r == first_of_kinds(node.spec_named_children(), seq![kind]),
{
    let kinds = [kind];
    assert(kinds@ =~= seq![kind]);
    first_node_of_kinds(&node.named_children(), kinds.as_slice())
}

/// Returns the first named child of `node` whose kind is one of `kinds`. Only
/// the immediate children are searched.
pub fn first_child_of_kinds<'tree>(node: Node<'tree>, kinds: &[&str]) -> (r: Option<Node<'tree>>)
    ensures
        r == first_of_kinds(node.spec_named_children(), kinds@),
{
    first_node_of_kinds(&node.named_children(), kinds)
}

/// Returns the first child of `node`, named or anonymous, whose kind equals
/// `kind`.
pub fn any_child_of_kind<'tree>(node: Node<'tree>, kind: &str) -> (r: Option<Node<'tree>>)
    ensures
        r == first_of_kinds(node.spec_children(), seq![kind]),
{
    let kinds = [kind];
    assert(kinds@ =~= seq![kind]);
    first_node_of_kinds(&node.children(), kinds.as_slice())
}

/// Returns the first child of `node`, named or anonymous, whose kind is one of
/// `kinds`.
pub fn any_child_of_kinds<'tree>(node: Node<'tree>, kinds: &[&str]) -> (r: Option<Node<'tree>>)
    ensures
        r == first_of_kinds(node.spec_children(), kinds@),
{
    first_node_of_kinds(&node.children(), kinds)
}

/// Depth-first walk that records in `result` every node of kind `kind` whose
/// span contains `offset`; subtrees whose root misses the offset are skipped.
fn offset_walk<'tree>(node: Node<'tree>, kind: &str, offset: usize, result: &mut Option<Node<'tree>>)
    ensures
        *final(result) == match last_match(node, kind@, offset as int) {
            Some(m) => Some(m),
            None => *old(result),
        },
    decreases node.tree_view().len() - node.spec_id(),
{
    proof {
        use_type_invariant(&node);
        node.lemma_children();
    }
    if offset < node.start_byte() || offset >= node.end_byte() {
        return ;
    }
    if str_eq(node.kind(), kind) {
        *result = Some(node);
    }
    let ghost own = *result;
    let children = node.children();
    let mut k: usize = 0;
    while k < children.len()
        invariant
            node.valid(),
            spans(node, offset as int),
            children@ == node.spec_children(),
            k <= children@.len(),
            forall|j: int|
                0 <= j < children@.len() ==> {
                    let c = #[trigger] children@[j];
                    &&& node.spec_id() < c.spec_id()
                    &&& c.spec_id() < c.tree_view().len()
                    &&& c.tree_view() == node.tree_view()
                },
            *result == match last_match_children(node, k as int, kind@, offset as int) {
                Some(m) => Some(m),
                None => own,
            },
        decreases children@.len() - k,
    {
        offset_walk(children[k], kind, offset, result);
        k += 1;
    }
}

/// Walks the subtree rooted at `root` and returns the innermost node whose
/// kind equals `kind` and whose span contains `offset` (inclusive start,
/// exclusive end). When several such nodes are nested, the deepest one is
/// returned. Returns `None` when no node of `kind` contains the offset.
pub fn find_node_by_offset<'tree>(root: Node<'tree>, kind: &str, offset: usize) -> (r: Option<
    Node<'tree>,
>)
    ensures
        r == last_match(root, kind@, offset as int),
{
    let mut result: Option<Node<'tree>> = None;
    offset_walk(root, kind, offset, &mut result);
    result
}

/// Returns the named child of `parent` that comes just before `node`; `None`
/// when `node` is the first named child or not a named child of `parent`.
pub fn preceding_named_sibling<'tree>(node: Node<'tree>, parent: Node<'tree>) -> (r: Option<
    Node<'tree>,
>)
    ensures
        r == named_sibling_before(node, parent),
{
    let named = parent.named_children();
    let id = node.id();
    let mut prev: Option<Node<'tree>> = None;
    let mut k: usize = 0;
    assert(named@.skip(0) =~= named@);
    while k < named.len()
        invariant
            named@ == parent.spec_named_children(),
            id == node.spec_id(),
            k <= named@.len(),
            position_of_id(named@, id as nat) == match position_of_id(named@.skip(k as int), id as nat) {
                Some(j) => Some(j + k),
                None => None,
            },
            k == 0 ==> prev is None,
            k > 0 ==> prev == Some(named@[k - 1]),
        decreases named@.len() - k,
    {
        assert(named@.skip(k as int).drop_first() =~= named@.skip(k + 1));
        if named[k].id() == id {
            return prev;
        }
        prev = Some(named[k]);
        k += 1;
    }
    None
}

/// Whether `ancestor` is `node` or one of its ancestors (nodes are compared
/// by their index).
pub fn is_descendant_of<'tree>(node: Node<'tree>, ancestor: Node<'tree>) -> (r: bool)
    ensures
        r == up_has_id(node, ancestor.spec_id()),
{
    let target = ancestor.id();
    let mut cur = node;
    loop
        invariant
            target == ancestor.spec_id(),
            up_has_id(node, target as nat) == up_has_id(cur, target as nat),
        decreases cur.spec_id(),
    {
        if cur.id() == target {
            return true;
        }
        match cur.parent() {
            Some(p) => cur = p,
            None => return false,
        }
    }
}

} // verus!
