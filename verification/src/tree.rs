//! The syntax-tree model: an arena of nodes and cheap node handles into it.
//!
//! A [`SyntaxTree`] holds, for every node, what the rest of the library reads
//! of it: its kind, whether it is named, its parent, its children in order and
//! its byte span. Node 0 is the root. A [`Node`] is a copyable handle (a
//! reference to the tree and an index) that always points at a node of a
//! well-formed tree.
use vstd::prelude::*;
use vstd::utf8::{decode_utf8, valid_utf8};

verus! {

broadcast use vstd::std_specs::vec::group_vec_axioms;

/// The mathematical view of one node of a tree.
pub struct NodeView {
    /// The grammar kind, e.g. `identifier`.
    pub kind: Seq<char>,
    /// Whether the node is named (as opposed to an anonymous token).
    pub named: bool,
    /// Index of the parent node, `None` for the root.
    pub parent: Option<usize>,
    /// Indices of the children, in source order.
    pub children: Seq<usize>,
    /// First byte of the node's span.
    pub start_byte: usize,
    /// One past the last byte of the node's span.
    pub end_byte: usize,
}

/// Node `i` of `t` is consistent with its neighbours: its parent comes before
/// it and lists it among its children; each child comes after it, lies in the
/// arena and names it as its parent.
pub open spec fn node_view_ok(t: Seq<NodeView>, i: int) -> bool {
    &&& (t[i].parent matches Some(p) ==> p < i && t[p as int].children.contains(i as usize))
    &&& forall|k: int|
        0 <= k < t[i].children.len() ==> {
            &&& i < #[trigger] t[i].children[k]
            &&& t[i].children[k] < t.len()
            &&& t[t[i].children[k] as int].parent == Some(i as usize)
        }
}

/// A well-formed arena: it is non-empty (node 0 is the root) and every node is
/// consistent with its neighbours.
pub open spec fn tree_wf(t: Seq<NodeView>) -> bool {
    &&& t.len() > 0
    &&& forall|i: int| 0 <= i < t.len() ==> #[trigger] node_view_ok(t, i)
}

/// The arena after `add_child`: `node` is appended as a new last node and
/// its index is appended to the children of `parent`.
pub open spec fn with_child(t: Seq<NodeView>, parent: int, node: NodeView) -> Seq<NodeView> {
    t.update(
        parent,
        NodeView { children: t[parent].children.push(t.len() as usize), ..t[parent] },
    ).push(node)
}

/// What the library stores of one node.
pub struct NodeData {
    kind: String,
    named: bool,
    parent: Option<usize>,
    children: Vec<usize>,
    start_byte: usize,
    end_byte: usize,
}

impl View for NodeData {
    type V = NodeView;

    closed spec fn view(&self) -> NodeView {
        NodeView {
            kind: self.kind@,
            named: self.named,
            parent: self.parent,
            children: self.children@,
            start_byte: self.start_byte,
            end_byte: self.end_byte,
        }
    }
}

/// A syntax tree held as an arena of nodes; node 0 is the root.
pub struct SyntaxTree {
    nodes: Vec<NodeData>,
}

impl View for SyntaxTree {
    type V = Seq<NodeView>;

    closed spec fn view(&self) -> Seq<NodeView> {
        self.nodes@.map_values(|d: NodeData| d@)
    }
}

impl SyntaxTree {
    /// The tree is well formed (see [`tree_wf`]).
    pub open spec fn wf(&self) -> bool {
        tree_wf(self@)
    }

    /// A tree made of a single root node.
    pub fn new(kind: &str, named: bool, start_byte: usize, end_byte: usize) -> (t: SyntaxTree)
        ensures
            t.wf(),
            t@ == seq![
                NodeView {
                    kind: kind@,
                    named,
                    parent: None,
                    children: Seq::empty(),
                    start_byte,
                    end_byte,
                },
            ],
    {
        let mut nodes: Vec<NodeData> = Vec::new();
        nodes.push(
            NodeData {
                kind: kind.to_owned(),
                named,
                parent: None,
                children: Vec::new(),
                start_byte,
                end_byte,
            },
        );
        let t = SyntaxTree { nodes };
        assert(node_view_ok(t@, 0));
        t
    }

    /// The number of nodes.
    pub fn len(&self) -> (n: usize)
        ensures
            n == self@.len(),
    {
        self.nodes.len()
    }

    /// Appends a new node as the last child of `parent` and returns its index.
    /// Returns `None`, leaving the tree as it was, when `parent` is not a node
    /// of the tree or the arena is full.
    pub fn add_child(
        &mut self,
        parent: usize,
        kind: &str,
        named: bool,
        start_byte: usize,
        end_byte: usize,
    ) -> (r: Option<usize>)
        requires
            old(self).wf(),
        ensures
            final(self).wf(),
            (parent < old(self)@.len() && old(self)@.len() < usize::MAX) <==> r is Some,
            r matches Some(c) ==> {
                &&& c == old(self)@.len()
                &&& final(self)@ == with_child(
                    old(self)@,
                    parent as int,
                    NodeView {
                        kind: kind@,
                        named,
                        parent: Some(parent),
                        children: Seq::empty(),
                        start_byte,
                        end_byte,
                    },
                )
            },
            r is None ==> final(self)@ == old(self)@,
    {
        let len = self.nodes.len();
        if parent >= len || len == usize::MAX {
            return None;
        }
        let ghost t0 = self@;
        let old_parent = &self.nodes[parent];
        let mut siblings = old_parent.children.clone();
        siblings.push(len);
        let updated = NodeData {
            kind: old_parent.kind.clone(),
            named: old_parent.named,
            parent: old_parent.parent,
            children: siblings,
            start_byte: old_parent.start_byte,
            end_byte: old_parent.end_byte,
        };
        self.nodes.set(parent, updated);
        self.nodes.push(
            NodeData {
                kind: kind.to_owned(),
                named,
                parent: Some(parent),
                children: Vec::new(),
                start_byte,
                end_byte,
            },
        );
        let ghost nv = NodeView {
            kind: kind@,
            named,
            parent: Some(parent),
            children: Seq::empty(),
            start_byte,
            end_byte,
        };
        assert(self@ =~= with_child(t0, parent as int, nv));
        assert forall|i: int| 0 <= i < self@.len() implies #[trigger] node_view_ok(self@, i) by {
            let t1 = self@;
            if i < len {
                assert(node_view_ok(t0, i));
                if let Some(p) = t1[i].parent {
                    if p == parent {
                        assert(t0[p as int].children.contains(i as usize));
                        let j = choose|j: int|
                            0 <= j < t0[p as int].children.len() && t0[p as int].children[j]
                                == i as usize;
                        assert(t1[p as int].children[j] == i as usize);
                    } else {
                        assert(t1[p as int] == t0[p as int]);
                    }
                }
                assert forall|k: int| 0 <= k < t1[i].children.len() implies {
                    &&& i < #[trigger] t1[i].children[k]
                    &&& t1[i].children[k] < t1.len()
                    &&& t1[t1[i].children[k] as int].parent == Some(i as usize)
                } by {
                    if i != parent || k < t0[i].children.len() {
                        assert(t1[i].children[k] == t0[i].children[k]);
                    }
                }
            } else {
                assert(t1[i].children.len() == 0);
                assert(t1[parent as int].children[t0[parent as int].children.len() as int]
                    == len);
            }
        }
        Some(len)
    }

    /// The root node.
    pub fn root(&self) -> (n: Node<'_>)
        requires
            self.wf(),
        ensures
            n.spec_id() == 0,
            n.tree_view() == self@,
    {
        Node { tree: self, id: 0 }
    }

    /// The node with index `id`, when there is one.
    pub fn node(&self, id: usize) -> (n: Option<Node<'_>>)
        requires
            self.wf(),
        ensures
            n is Some <==> id < self@.len(),
            n matches Some(n) ==> n.spec_id() == id && n.tree_view() == self@,
    {
        if id < self.nodes.len() {
            Some(Node { tree: self, id })
        } else {
            None
        }
    }
}

/// Decodes `bytes` as UTF-8.
///
/// Calls `std::str::from_utf8`, which returns a string exactly when the bytes
/// are valid UTF-8; the contract claims that this validity is vstd's
/// `valid_utf8` and that the string's characters are vstd's `decode_utf8` of
/// the bytes.
#[verifier::external_body]
fn str_from_utf8(bytes: &[u8]) -> (s: Option<&str>)
    ensures
        s is Some <==> valid_utf8(bytes@),
        s matches Some(s) ==> s@ == decode_utf8(bytes@),
{
    std::str::from_utf8(bytes).ok()
}

/// A handle to one node of a well-formed [`SyntaxTree`].
#[derive(Clone, Copy)]
pub struct Node<'tree> {
    tree: &'tree SyntaxTree,
    id: usize,
}

impl<'tree> Node<'tree> {
    /// The arena of the tree that the node belongs to.
    pub closed spec fn tree_view(self) -> Seq<NodeView> {
        self.tree@
    }

    /// The node's index in its arena.
    pub closed spec fn spec_id(self) -> nat {
        self.id as nat
    }

    /// The node of the same tree with index `i`.
    pub closed spec fn spec_at(self, i: nat) -> Node<'tree> {
        Node { tree: self.tree, id: i as usize }
    }

    /// Every handle points at a node of a well-formed tree.
    #[verifier::type_invariant]
    pub open spec fn valid(self) -> bool {
        &&& tree_wf(self.tree_view())
        &&& self.spec_id() < self.tree_view().len()
    }

    /// The view of this node.
    pub open spec fn data(self) -> NodeView {
        self.tree_view()[self.spec_id() as int]
    }

    /// The node's kind.
    pub open spec fn spec_kind(self) -> Seq<char> {
        self.data().kind
    }

    /// The node's parent, `None` for the root.
    pub open spec fn spec_parent(self) -> Option<Node<'tree>> {
        match self.data().parent {
            Some(p) => Some(self.spec_at(p as nat)),
            None => None,
        }
    }

    /// All children of the node, named and anonymous, in order.
    pub open spec fn spec_children(self) -> Seq<Node<'tree>> {
        self.data().children.map_values(|c: usize| self.spec_at(c as nat))
    }

    /// The named children of the node, in order.
    pub open spec fn spec_named_children(self) -> Seq<Node<'tree>> {
        self.spec_children().filter(|c: Node<'tree>| c.data().named)
    }

    /// Facts about [`Node::spec_at`]: it keeps the tree and sets the index.
    pub broadcast proof fn lemma_at(self, i: nat)
        ensures
            i < self.tree_view().len() ==> (#[trigger] self.spec_at(i)).spec_id() == i,
            self.spec_at(i).tree_view() == self.tree_view(),
    {
        broadcast use vstd::std_specs::vec::axiom_spec_len;

        assert(self.tree.nodes.len() == self.tree.nodes@.len());
    }

    /// A tree has at most `usize::MAX` nodes.
    pub proof fn lemma_len_bound(self)
        ensures
            self.tree_view().len() <= usize::MAX,
    {
        broadcast use vstd::std_specs::vec::axiom_spec_len;

        assert(self.tree.nodes.len() == self.tree.nodes@.len());
    }

    /// Looking up a node of the same tree from another node of it.
    pub broadcast proof fn lemma_at_at(self, i: nat, j: nat)
        ensures
            #[trigger] self.spec_at(i).spec_at(j) == self.spec_at(j),
    {
    }

    /// A node is the node of its tree at its own index.
    pub broadcast proof fn lemma_at_self(self)
        ensures
            #[trigger] self.spec_at(self.spec_id()) == self,
    {
    }

    /// The parent of a valid node is a valid node of the same tree, with a
    /// smaller index, that lists the node among its children.
    pub proof fn lemma_parent(self)
        requires
            self.valid(),
        ensures
            self.spec_parent() matches Some(p) ==> {
                &&& p.valid()
                &&& p.spec_id() < self.spec_id()
                &&& p.tree_view() == self.tree_view()
                &&& p.spec_children().contains(self)
            },
    {
        broadcast use Node::lemma_at, Node::lemma_at_at, Node::lemma_at_self;

        assert(node_view_ok(self.tree_view(), self.spec_id() as int));
        if let Some(p) = self.spec_parent() {
            let pid = self.data().parent.unwrap();
            assert(node_view_ok(self.tree_view(), pid as int));
            let t = self.tree_view();
            assert(t[pid as int].children.contains(self.spec_id() as usize));
            let j = choose|j: int|
                0 <= j < t[pid as int].children.len() && t[pid as int].children[j]
                    == self.spec_id() as usize;
            assert(p.spec_children()[j] == self);
        }
    }

    /// The children of a valid node are valid nodes of the same tree, with
    /// larger indices, whose parent is the node.
    pub proof fn lemma_children(self)
        requires
            self.valid(),
        ensures
            forall|k: int|
                0 <= k < self.spec_children().len() ==> {
                    let c = #[trigger] self.spec_children()[k];
                    &&& c.valid()
                    &&& self.spec_id() < c.spec_id()
                    &&& c.tree_view() == self.tree_view()
                    &&& c.spec_parent() == Some(self)
                },
    {
        broadcast use Node::lemma_at, Node::lemma_at_at, Node::lemma_at_self;

        assert(node_view_ok(self.tree_view(), self.spec_id() as int));
    }

    /// What [`Node::lemma_children`] states holds of the named children too;
    /// each of them is named and is one of the node's children.
    pub proof fn lemma_named_children(self)
        requires
            self.valid(),
        ensures
            forall|k: int|
                0 <= k < self.spec_named_children().len() ==> {
                    let c = #[trigger] self.spec_named_children()[k];
                    &&& c.valid()
                    &&& self.spec_id() < c.spec_id()
                    &&& c.tree_view() == self.tree_view()
                    &&& c.spec_parent() == Some(self)
                    &&& c.data().named
                    &&& self.spec_children().contains(c)
                },
    {
        broadcast use vstd::seq_lib::group_filter_ensures;

        self.lemma_children();
        let pred = |c: Node<'tree>| c.data().named;
        assert forall|k: int| 0 <= k < self.spec_named_children().len() implies {
            let c = #[trigger] self.spec_named_children()[k];
            &&& c.valid()
            &&& self.spec_id() < c.spec_id()
            &&& c.tree_view() == self.tree_view()
            &&& c.spec_parent() == Some(self)
            &&& c.data().named
            &&& self.spec_children().contains(c)
        } by {
            let c = self.spec_named_children()[k];
            assert(self.spec_children().filter(pred).contains(c));
            self.spec_children().lemma_filter_contains_rev(pred, c);
            let j = choose|j: int| 0 <= j < self.spec_children().len() && self.spec_children()[j] == c;
            assert(self.spec_children()[j] == c);
        }
    }

    /// The node's kind, e.g. `identifier`.
    pub fn kind(&self) -> (k: &'tree str)
        ensures
            k@ == self.spec_kind(),
    {
        proof {
            use_type_invariant(self);
        }
        self.tree.nodes[self.id].kind.as_str()
    }

    /// The node's index in its tree.
    pub fn id(&self) -> (i: usize)
        ensures
            i == self.spec_id(),
    {
        self.id
    }

    /// Whether the node is named.
    pub fn is_named(&self) -> (b: bool)
        ensures
            b == self.data().named,
    {
        proof {
            use_type_invariant(self);
        }
        self.tree.nodes[self.id].named
    }

    /// First byte of the node's span.
    pub fn start_byte(&self) -> (b: usize)
        ensures
            b == self.data().start_byte,
    {
        proof {
            use_type_invariant(self);
        }
        self.tree.nodes[self.id].start_byte
    }

    /// One past the last byte of the node's span.
    pub fn end_byte(&self) -> (b: usize)
        ensures
            b == self.data().end_byte,
    {
        proof {
            use_type_invariant(self);
        }
        self.tree.nodes[self.id].end_byte
    }

    /// The node's span cut out of `source`.
    pub open spec fn span_bytes(self, source: Seq<u8>) -> Seq<u8> {
        source.subrange(self.data().start_byte as int, self.data().end_byte as int)
    }

    /// The source text of the node: its span of `source` decoded as UTF-8, or
    /// `None` when those bytes are not valid UTF-8.
    pub fn utf8_text<'a>(&self, source: &'a [u8]) -> (t: Option<&'a str>)
        requires
            self.data().start_byte <= self.data().end_byte <= source@.len(),
        ensures
            t is Some <==> valid_utf8(self.span_bytes(source@)),
            t matches Some(s) ==> s@ == decode_utf8(self.span_bytes(source@)),
    {
        let bytes = vstd::slice::slice_subrange(source, self.start_byte(), self.end_byte());
        str_from_utf8(bytes)
    }

    /// The node's parent, `None` for the root.
    pub fn parent(&self) -> (p: Option<Node<'tree>>)
        ensures
            p == self.spec_parent(),
            p matches Some(p) ==> p.spec_id() < self.spec_id(),
    {
        proof {
            use_type_invariant(self);
            assert(node_view_ok(self.tree_view(), self.spec_id() as int));
        }
        match self.tree.nodes[self.id].parent {
            Some(p) => Some(Node { tree: self.tree, id: p }),
            None => None,
        }
    }

    /// The number of children, named and anonymous.
    pub fn child_count(&self) -> (n: usize)
        ensures
            n == self.spec_children().len(),
    {
        proof {
            use_type_invariant(self);
        }
        self.tree.nodes[self.id].children.len()
    }

    /// The `i`-th child, named or anonymous, when there is one.
    pub fn child(&self, i: usize) -> (c: Option<Node<'tree>>)
        ensures
            c is Some <==> i < self.spec_children().len(),
            c matches Some(c) ==> c == self.spec_children()[i as int],
    {
        proof {
            use_type_invariant(self);
            assert(node_view_ok(self.tree_view(), self.spec_id() as int));
        }
        let children = &self.tree.nodes[self.id].children;
        if i < children.len() {
            Some(Node { tree: self.tree, id: children[i] })
        } else {
            None
        }
    }

    /// All children, named and anonymous, in order.
    pub fn children(&self) -> (cs: Vec<Node<'tree>>)
        ensures
            cs@ == self.spec_children(),
    {
        proof {
            use_type_invariant(self);
            assert(node_view_ok(self.tree_view(), self.spec_id() as int));
        }
        let ids = &self.tree.nodes[self.id].children;
        let mut cs: Vec<Node<'tree>> = Vec::new();
        let mut k: usize = 0;
        while k < ids.len()
            invariant
                self.valid(),
                node_view_ok(self.tree_view(), self.spec_id() as int),
                ids@ == self.data().children,
                k <= ids.len(),
                cs@ == self.spec_children().take(k as int),
            decreases ids.len() - k,
        {
            cs.push(Node { tree: self.tree, id: ids[k] });
            k += 1;
            assert(cs@ =~= self.spec_children().take(k as int));
        }
        assert(self.spec_children().take(k as int) =~= self.spec_children());
        cs
    }

    /// The named children, in order.
    pub fn named_children(&self) -> (cs: Vec<Node<'tree>>)
        ensures
            cs@ == self.spec_named_children(),
    {
        let all = self.children();
        let mut cs: Vec<Node<'tree>> = Vec::new();
        let mut k: usize = 0;
        let ghost pred = |c: Node<'tree>| c.data().named;
        while k < all.len()
            invariant
                all@ == self.spec_children(),
                pred == (|c: Node<'tree>| c.data().named),
                k <= all.len(),
                cs@ == all@.take(k as int).filter(pred),
            decreases all.len() - k,
        {
            let named = all[k].is_named();
            if named {
                cs.push(all[k]);
            }
            proof {
                reveal_with_fuel(Seq::<_>::filter, 1);
                assert(all@.take(k + 1).drop_last() =~= all@.take(k as int));
                assert(all@.take(k + 1).last() == all@[k as int]);
            }
            k += 1;
        }
        assert(all@.take(k as int) =~= all@);
        cs
    }
}

} // verus!
