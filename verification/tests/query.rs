//! Tests of `capture_text` on the captures of tree-sitter queries.

use tree_sitter::StreamingIterator;
use tree_sitter_utils::query::capture_text;
use tree_sitter_utils::{Node, SyntaxTree};

fn add_children(tree: &mut SyntaxTree, ts_ids: &mut Vec<usize>, node: tree_sitter::Node, index: usize) {
    let mut cursor = node.walk();
    for child in node.children(&mut cursor) {
        let c = tree
            .add_child(index, child.kind(), child.is_named(), child.start_byte(), child.end_byte())
            .unwrap();
        ts_ids.push(child.id());
        add_children(tree, ts_ids, child, c);
    }
}

/// Converts a tree-sitter tree; nodes are numbered in pre-order. Also returns
/// the tree-sitter id of each node, by index.
fn convert(ts: &tree_sitter::Tree) -> (SyntaxTree, Vec<usize>) {
    let root = ts.root_node();
    let mut tree = SyntaxTree::new(root.kind(), root.is_named(), root.start_byte(), root.end_byte());
    let mut ts_ids = vec![root.id()];
    add_children(&mut tree, &mut ts_ids, root, 0);
    (tree, ts_ids)
}

/// Parses `src`, runs `query` on it with tree-sitter and returns the tree and
/// the captures of each match as (capture index, node index) pairs.
fn query_python(src: &str, query: &str) -> (SyntaxTree, Vec<Vec<(u32, usize)>>) {
    let language: tree_sitter::Language = tree_sitter_python::LANGUAGE.into();
    let mut parser = tree_sitter::Parser::new();
    parser.set_language(&language).unwrap();
    let ts = parser.parse(src, None).unwrap();
    let (tree, ts_ids) = convert(&ts);
    let q = tree_sitter::Query::new(&language, query).unwrap();
    let mut cursor = tree_sitter::QueryCursor::new();
    let mut matches = cursor.matches(&q, ts.root_node(), src.as_bytes());
    let mut results = Vec::new();
    while let Some(m) = matches.next() {
        let captures: Vec<(u32, usize)> = m
            .captures()
            .iter()
            .map(|c| (c.index, ts_ids.iter().position(|id| *id == c.node.id()).unwrap()))
            .collect();
        results.push(captures);
    }
    (tree, results)
}

fn to_nodes<'t>(tree: &'t SyntaxTree, captures: &[(u32, usize)]) -> Vec<(u32, Node<'t>)> {
    captures.iter().map(|(i, n)| (*i, tree.node(*n).unwrap())).collect()
}

#[test]
fn capture_text_returns_text_for_known_index() {
    let src = b"hello = 1\n";
    let (tree, matches) = query_python(std::str::from_utf8(src).unwrap(), "(identifier) @name");
    assert!(!matches.is_empty());
    let text = capture_text(&to_nodes(&tree, &matches[0]), 0, src);
    assert_eq!(text, Some("hello"));
}

#[test]
fn capture_text_returns_none_for_unknown_index() {
    let src = b"hello = 1\n";
    let (tree, matches) = query_python(std::str::from_utf8(src).unwrap(), "(identifier) @name");
    assert!(capture_text(&to_nodes(&tree, &matches[0]), 99, src).is_none());
}
