# tree_sitter_utils

Composable, parser-combinator-style handlers over syntax-tree nodes, verified
with Verus.

- `src/tree.rs`: the tree model. A `SyntaxTree` is an arena of nodes (kind,
  named flag, parent, children, byte span); a `Node` is a copyable handle
  into a well-formed tree.
- `src/handler.rs`, `src/input.rs`: the `Handler` trait and its `Input`. Each
  handler states which inputs it `admits` and which results it `yields`.
- `src/predicates.rs`: the `NodePredicate` trait and the built-in predicates.
- `src/combinators/`, `src/combinators.rs`: `or`, `when`, `map`,
  `map_input`, `and_then`, `climb`, `or_else_climb`, `find_ancestor`,
  `for_children`, `scan_children`, `boxed`, and the `HandlerExt` trait.
- `src/constructors.rs`: `handler_fn`, `never`, `always`, `dispatch_on_kind`,
  `first_of`.
- `src/traversal.rs`: ancestor search, wrapper peeling, child search, offset
  search, sibling lookup, descent test.
- `src/query.rs`: `capture_text` over query captures.
- `src/laws.rs`: properties that relate several functions.
- `app/lib.rs`: converts a parsed tree-sitter tree into a `SyntaxTree` and
  runs tree-sitter queries.
