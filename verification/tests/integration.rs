//! End-to-end tests of combinator chains on parsed Python.

use tree_sitter_utils::{handler_fn, never, Handler, HandlerExt, Input, Node, SyntaxTree};

fn add_children(tree: &mut SyntaxTree, ts_ids: &mut Vec<usize>, node: tree_sitter::Node, index: usize) {
    let mut cursor = node.walk();
    for child in node.children(&mut cursor) {
        let c = tree
            .add_child(index, child.kind(), child.is_named(), child.start_byte(), child.end_byte())
            .unwrap();
        ts_ids.push(child.id());
        add_children(tree, ts_ids, child, c);
    }
}

/// Converts a tree-sitter tree; nodes are numbered in pre-order. Also returns
/// the tree-sitter id of each node, by index.
fn convert(ts: &tree_sitter::Tree) -> (SyntaxTree, Vec<usize>) {
    let root = ts.root_node();
    let mut tree = SyntaxTree::new(root.kind(), root.is_named(), root.start_byte(), root.end_byte());
    let mut ts_ids = vec![root.id()];
    add_children(&mut tree, &mut ts_ids, root, 0);
    (tree, ts_ids)
}

fn parse_python(src: &str) -> SyntaxTree {
    let language: tree_sitter::Language = tree_sitter_python::LANGUAGE.into();
    let mut parser = tree_sitter::Parser::new();
    parser.set_language(&language).unwrap();
    let ts = parser.parse(src, None).unwrap();
    convert(&ts).0
}

/// The first node in pre-order for which `pred` holds.
fn find_node<'t, F: Fn(Node<'t>) -> bool>(tree: &'t SyntaxTree, pred: F) -> Option<Node<'t>> {
    (0..tree.len()).map(|i| tree.node(i).unwrap()).find(|n| pred(*n))
}


#[test]
fn for_kinds_dispatches_to_correct_handler() {
    let tree = parse_python("def foo(): pass\n");
    let ident_node = find_node(&tree, |n| n.kind() == "identifier").unwrap();
    let input = Input::new(ident_node, (), None);
    let h = handler_fn(|_: Input<()>| "got identifier".to_owned())
        .for_kinds(&["identifier", "type_identifier"]);
    assert_eq!(h.handle(input), Some("got identifier".to_owned()));
}

#[test]
fn for_kinds_returns_none_for_non_matching_kind() {
    let tree = parse_python("def foo(): pass\n");
    let input = Input::new(tree.root(), (), None);
    let h = handler_fn(|_: Input<()>| "hit".to_owned()).for_kinds(&["identifier"]);
    assert_eq!(h.handle(input), None);
}

#[test]
fn or_falls_through_when_first_returns_none() {
    let tree = parse_python("x = 1\n");
    let input = Input::new(tree.root(), (), None);
    let h = (|inp: Input<()>| -> Option<String> {
        if inp.node.kind() == "identifier" {
            Some("identifier hit".to_owned())
        } else {
            None
        }
    })
    .or(|inp: Input<()>| -> Option<String> {
        if inp.node.kind() == "module" {
            Some("module hit".to_owned())
        } else {
            None
        }
    });
    assert_eq!(h.handle(input), Some("module hit".to_owned()));
}

#[test]
fn climb_ascends_and_matches_parent() {
    let tree = parse_python("x = 1\n");
    let ident_node = find_node(&tree, |n| n.kind() == "identifier").unwrap();
    let input = Input::new(ident_node, (), None);
    let h = (|inp: Input<()>| -> Option<String> {
        if inp.node.kind() == "module" {
            Some("reached module".to_owned())
        } else {
            None
        }
    })
    .climb(&[]);
    assert_eq!(h.handle(input), Some("reached module".to_owned()));
}

#[test]
fn when_with_custom_predicate_returns_none_when_false() {
    let tree = parse_python("x = 1\n");
    let root = tree.root();
    let input = Input::new(root, (), None);
    let h = handler_fn(|_: Input<()>| "triggered".to_owned())
        .when(|inp: Input<()>| inp.trigger_char == Some('.'));
    assert_eq!(h.handle(input), None);
    let input_dot = Input::new(root, (), Some('.'));
    assert_eq!(h.handle(input_dot), Some("triggered".to_owned()));
}

#[test]
fn three_combinator_chain() {
    let tree = parse_python("x = 1\n");
    let ident_node = find_node(&tree, |n| n.kind() == "identifier").unwrap();
    let input = Input::new(ident_node, (), None);
    let h = handler_fn(|inp: Input<()>| inp.node.kind().to_owned())
        .for_kinds(&["identifier"])
        .or(never::<(), String>())
        .map(|s: String| s.to_uppercase());
    assert_eq!(h.handle(input), Some("IDENTIFIER".to_owned()));
}

#[test]
fn five_combinator_chain_with_and_then_and_or() {
    let tree = parse_python("def foo(): pass\n");
    let ident_node = find_node(&tree, |n| n.kind() == "identifier").unwrap();
    let input = Input::new(ident_node, (), None);
    let h = handler_fn(|inp: Input<()>| inp.node.kind().to_owned())
        .for_kinds(&["identifier"])
        .map(|s: String| s.len())
        .and_then(|_: Input<()>, len: usize| {
            if len > 0 {
                Some(format!("len={len}"))
            } else {
                None
            }
        })
        .or(never::<(), String>())
        .map(|s: String| s.to_uppercase());
    assert_eq!(h.handle(input), Some("LEN=10".to_owned()));
}
