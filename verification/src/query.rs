//! Query-result helpers.
use vstd::prelude::*;
use vstd::utf8::{decode_utf8, valid_utf8};

use crate::tree::Node;

verus! {

/// The node of the first capture in `captures` whose index is `index`.
pub open spec fn first_capture<'t>(captures: Seq<(u32, Node<'t>)>, index: u32) -> Option<Node<'t>>
    decreases captures.len(),
{
    if captures.len() == 0 {
        None
    } else if captures[0].0 == index {
        Some(captures[0].1)
    } else {
        first_capture(captures.drop_first(), index)
    }
}

/// Looks up the text of a capture by its index within one match's capture
/// list: the source text of the first capture with that index. Returns
/// `None` when no capture has the index or when the node's bytes are not
/// valid UTF-8.
pub fn capture_text<'s>(captures: &[(u32, Node<'_>)], index: u32, source: &'s [u8]) -> (t: Option<
    &'s str,
>)
    requires
        first_capture(captures@, index) matches Some(n) ==> n.data().start_byte
            <= n.data().end_byte <= source@.len(),
    ensures
        match first_capture(captures@, index) {
            Some(n) => {
                &&& t is Some <==> valid_utf8(n.span_bytes(source@))
                &&& t matches Some(s) ==> s@ == decode_utf8(n.span_bytes(source@))
            },
            None => t is None,
        },
{
    let mut j: usize = 0;
    assert(captures@.skip(0) =~= captures@);
    while j < captures.len()
        invariant
            j <= captures@.len(),
            first_capture(captures@, index) matches Some(n) ==> n.data().start_byte
                <= n.data().end_byte <= source@.len(),
            first_capture(captures@, index) == first_capture(captures@.skip(j as int), index),
        decreases captures@.len() - j,
    {
        assert(captures@.skip(j as int).drop_first() =~= captures@.skip(j + 1));
        let (idx, node) = captures[j];
        if idx == index {
            return node.utf8_text(source);
        }
        j += 1;
    }
    None
}

} // verus!
