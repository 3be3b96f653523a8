//! The [`NodePredicate`] trait and the built-in predicates.
use vstd::prelude::*;

use crate::input::Input;
use crate::kinds::{contains_kind, kind_in, str_eq};
use crate::traversal::{
    ancestor_of_kind,
    ancestor_of_kinds,
    depth,
    first_ancestor,
    lemma_depth_bound,
};
use crate::tree::Node;

verus! {

/// A predicate over an [`Input`]: `true` when the node matches.
///
/// `admits` says on which inputs `test` may be called and `answers` which
/// answers it may give there.
pub trait NodePredicate<Ctx>: Send + Sync {
    /// `test` may be called on `input`.
    spec fn admits(&self, input: Input<'_, Ctx>) -> bool;

    /// `result` is an answer that `test` may give on `input`.
    spec fn answers(&self, input: Input<'_, Ctx>, result: bool) -> bool;

    /// Tests whether the predicate holds for `input`.
    fn test<'tree>(&self, input: Input<'tree, Ctx>) -> (b: bool)
        requires
            self.admits(input),
        ensures
            self.answers(input, b),
    ;
}

/// Every `Fn(Input) -> bool` is a predicate.
impl<Ctx, F> NodePredicate<Ctx> for F where F: Fn(Input<'_, Ctx>) -> bool + Send + Sync {
    open spec fn admits(&self, input: Input<'_, Ctx>) -> bool {
        call_requires(*self, (input,))
    }

    open spec fn answers(&self, input: Input<'_, Ctx>, result: bool) -> bool {
        call_ensures(*self, (input,), result)
    }

    fn test<'tree>(&self, input: Input<'tree, Ctx>) -> (b: bool) {
        self(input)
    }
}

/// Predicate: `true` when the node's kind is one of the given kinds.
#[derive(Clone, Copy, Debug)]
pub struct KindIs(pub &'static [&'static str]);

impl<Ctx> NodePredicate<Ctx> for KindIs {
    open spec fn admits(&self, input: Input<'_, Ctx>) -> bool {
        true
    }

    open spec fn answers(&self, input: Input<'_, Ctx>, result: bool) -> bool {
        result == kind_in(self.0@, input.node.spec_kind())
    }

    fn test<'tree>(&self, input: Input<'tree, Ctx>) -> (b: bool) {
        contains_kind(self.0, input.node.kind())
    }
}

/// Predicate: `true` when the node's kind is **not** one of the given kinds.
#[derive(Clone, Copy, Debug)]
pub struct KindIsNot(pub &'static [&'static str]);

impl<Ctx> NodePredicate<Ctx> for KindIsNot {
    open spec fn admits(&self, input: Input<'_, Ctx>) -> bool {
        true
    }

    open spec fn answers(&self, input: Input<'_, Ctx>, result: bool) -> bool {
        result == !kind_in(self.0@, input.node.spec_kind())
    }

    fn test<'tree>(&self, input: Input<'tree, Ctx>) -> (b: bool) {
        !contains_kind(self.0, input.node.kind())
    }
}

/// Predicate: `true` when the node's parent has the given kind.
#[derive(Clone, Copy, Debug)]
pub struct HasParentKind(pub &'static str);

impl<Ctx> NodePredicate<Ctx> for HasParentKind {
    open spec fn admits(&self, input: Input<'_, Ctx>) -> bool {
        true
    }

    open spec fn answers(&self, input: Input<'_, Ctx>, result: bool) -> bool {
        result == (input.node.spec_parent() matches Some(p) && p.spec_kind() == self.0@)
    }

    fn test<'tree>(&self, input: Input<'tree, Ctx>) -> (b: bool) {
        match input.node.parent() {
            Some(p) => str_eq(p.kind(), self.0),
            None => false,
        }
    }
}

/// Predicate: `true` when the node's depth (root = 0) is at most the bound.
#[derive(Clone, Copy, Debug)]
pub struct NodeDepthLte(pub usize);

impl<Ctx> NodePredicate<Ctx> for NodeDepthLte {
    open spec fn admits(&self, input: Input<'_, Ctx>) -> bool {
        true
    }

    open spec fn answers(&self, input: Input<'_, Ctx>, result: bool) -> bool {
        result == (depth(input.node) <= self.0)
    }

    fn test<'tree>(&self, input: Input<'tree, Ctx>) -> (b: bool) {
        let max = self.0;
        let node = input.node;
        let mut d: usize = 0;
        let mut current = node;
        proof {
            lemma_depth_bound(node);
            use_type_invariant(&node);
            node.lemma_len_bound();
        }
        loop
            invariant
                max == self.0,
                node == input.node,
                d + depth(current) == depth(node),
                depth(node) <= node.spec_id(),
                node.spec_id() <= usize::MAX,
                d <= max,
            decreases current.spec_id(),
        {
            proof {
                use_type_invariant(&current);
            }
            match current.parent() {
                Some(parent) => {
                    d += 1;
                    if d > max {
                        return false;
                    }
                    current = parent;
                },
                None => {
                    return d <= max;
                },
            }
        }
    }
}

/// Predicate: `true` when some strict ancestor of the node has the given kind.
#[derive(Clone, Copy, Debug)]
pub struct HasAncestorKind(pub &'static str);

impl<Ctx> NodePredicate<Ctx> for HasAncestorKind {
    open spec fn admits(&self, input: Input<'_, Ctx>) -> bool {
        true
    }

    open spec fn answers(&self, input: Input<'_, Ctx>, result: bool) -> bool {
        result == first_ancestor(input.node, seq![self.0], Seq::empty()) is Some
    }

    fn test<'tree>(&self, input: Input<'tree, Ctx>) -> (b: bool) {
        ancestor_of_kind(input.node, self.0).is_some()
    }
}

/// Predicate: `true` when some strict ancestor of the node has one of the
/// given kinds.
#[derive(Clone, Copy, Debug)]
pub struct HasAncestorKinds(pub &'static [&'static str]);

impl<Ctx> NodePredicate<Ctx> for HasAncestorKinds {
    open spec fn admits(&self, input: Input<'_, Ctx>) -> bool {
        true
    }

    open spec fn answers(&self, input: Input<'_, Ctx>, result: bool) -> bool {
        result == first_ancestor(input.node, self.0@, Seq::empty()) is Some
    }

    fn test<'tree>(&self, input: Input<'tree, Ctx>) -> (b: bool) {
        ancestor_of_kinds(input.node, self.0).is_some()
    }
}

/// A predicate that is `true` when the node's kind is one of `kinds`.
pub fn kind_is(kinds: &'static [&'static str]) -> (p: KindIs)
    ensures
        p.0 == kinds,
{
    KindIs(kinds)
}

/// A predicate that is `true` when the node's kind is **not** one of `kinds`.
pub fn kind_is_not(kinds: &'static [&'static str]) -> (p: KindIsNot)
    ensures
        p.0 == kinds,
{
    KindIsNot(kinds)
}

/// A predicate that is `true` when the node's parent has kind `kind`.
pub fn has_parent_kind(kind: &'static str) -> (p: HasParentKind)
    ensures
        p.0 == kind,
{
    HasParentKind(kind)
}

/// A predicate that is `true` when the node's depth is at most `max`.
pub fn node_depth_lte(max: usize) -> (p: NodeDepthLte)
    ensures
        p.0 == max,
{
    NodeDepthLte(max)
}

/// A predicate that is `true` when some strict ancestor has kind `kind`.
pub fn has_ancestor_kind(kind: &'static str) -> (p: HasAncestorKind)
    ensures
        p.0 == kind,
{
    HasAncestorKind(kind)
}

/// A predicate that is `true` when some strict ancestor has one of `kinds`.
pub fn has_ancestor_kinds(kinds: &'static [&'static str]) -> (p: HasAncestorKinds)
    ensures
        p.0 == kinds,
{
    HasAncestorKinds(kinds)
}

} // verus!
