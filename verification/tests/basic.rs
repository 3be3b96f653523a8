//! Unit tests for the individual combinators and predicates.

use tree_sitter_utils::{
    always, handler_fn, has_parent_kind, kind_is, kind_is_not, never, node_depth_lte, Handler,
    HandlerExt, Input, Node, SyntaxTree,
};

fn add_children(tree: &mut SyntaxTree, ts_ids: &mut Vec<usize>, node: tree_sitter::Node, index: usize) {
    let mut cursor = node.walk();
    for child in node.children(&mut cursor) {
        let c = tree
            .add_child(index, child.kind(), child.is_named(), child.start_byte(), child.end_byte())
            .unwrap();
        ts_ids.push(child.id());
        add_children(tree, ts_ids, child, c);
    }
}

/// Converts a tree-sitter tree; nodes are numbered in pre-order. Also returns
/// the tree-sitter id of each node, by index.
fn convert(ts: &tree_sitter::Tree) -> (SyntaxTree, Vec<usize>) {
    let root = ts.root_node();
    let mut tree = SyntaxTree::new(root.kind(), root.is_named(), root.start_byte(), root.end_byte());
    let mut ts_ids = vec![root.id()];
    add_children(&mut tree, &mut ts_ids, root, 0);
    (tree, ts_ids)
}

fn parse_python(src: &str) -> SyntaxTree {
    let language: tree_sitter::Language = tree_sitter_python::LANGUAGE.into();
    let mut parser = tree_sitter::Parser::new();
    parser.set_language(&language).unwrap();
    let ts = parser.parse(src, None).unwrap();
    convert(&ts).0
}

/// The first node in pre-order for which `pred` holds.
fn find_node<'t, F: Fn(Node<'t>) -> bool>(tree: &'t SyntaxTree, pred: F) -> Option<Node<'t>> {
    (0..tree.len()).map(|i| tree.node(i).unwrap()).find(|n| pred(*n))
}


fn root_input(tree: &SyntaxTree) -> Input<'_, ()> {
    Input::new(tree.root(), (), None)
}

#[test]
fn handler_fn_always_returns_some() {
    let (tree, h) = (parse_python("x = 1"), handler_fn(|_: Input<()>| 42u32));
    assert_eq!(h.handle(root_input(&tree)), Some(42));
}

#[test]
fn never_always_returns_none() {
    let (tree, h) = (parse_python("x = 1"), never::<(), u32>());
    assert_eq!(h.handle(root_input(&tree)), None);
}

#[test]
fn always_returns_cloned_value() {
    let (tree, h) = (parse_python("x = 1"), always::<(), String>("hello".to_owned()));
    assert_eq!(h.handle(root_input(&tree)), Some("hello".to_owned()));
}

#[test]
fn or_returns_first_when_some() {
    let tree = parse_python("x = 1");
    let h = handler_fn(|_: Input<()>| 1u32).or(handler_fn(|_: Input<()>| 2u32));
    assert_eq!(h.handle(root_input(&tree)), Some(1));
}

#[test]
fn or_falls_through_to_second() {
    let tree = parse_python("x = 1");
    let h = never::<(), u32>().or(handler_fn(|_: Input<()>| 99u32));
    assert_eq!(h.handle(root_input(&tree)), Some(99));
}

#[test]
fn or_returns_none_when_both_fail() {
    let tree = parse_python("x = 1");
    let h = never::<(), u32>().or(never::<(), u32>());
    assert_eq!(h.handle(root_input(&tree)), None);
}

#[test]
fn when_passes_on_true_predicate() {
    let tree = parse_python("x = 1");
    let h = handler_fn(|_: Input<()>| 7u32).when(kind_is(&["module"]));
    assert_eq!(h.handle(root_input(&tree)), Some(7));
}

#[test]
fn when_blocks_on_false_predicate() {
    let tree = parse_python("x = 1");
    let h = handler_fn(|_: Input<()>| 7u32).when(kind_is(&["identifier"]));
    assert_eq!(h.handle(root_input(&tree)), None);
}

#[test]
fn for_kinds_matches_correct_kind() {
    let tree = parse_python("x = 1");
    let h = handler_fn(|input: Input<()>| input.node.kind().to_owned()).for_kinds(&["module"]);
    assert_eq!(h.handle(root_input(&tree)), Some("module".to_owned()));
}

#[test]
fn for_kinds_rejects_wrong_kind() {
    let tree = parse_python("x = 1");
    let h = handler_fn(|_: Input<()>| 1u32).for_kinds(&["identifier"]);
    assert_eq!(h.handle(root_input(&tree)), None);
}

#[test]
fn map_transforms_output() {
    let tree = parse_python("x = 1");
    let h = handler_fn(|_: Input<()>| 5u32).map(|n| n * 2);
    assert_eq!(h.handle(root_input(&tree)), Some(10));
}

#[test]
fn map_propagates_none() {
    let tree = parse_python("x = 1");
    let h = never::<(), u32>().map(|n| n * 2);
    assert_eq!(h.handle(root_input(&tree)), None);
}

#[test]
fn and_then_chains_on_success() {
    let tree = parse_python("x = 1");
    let h = handler_fn(|_: Input<()>| 3u32).and_then(|_: Input<()>, n: u32| Some(n.to_string()));
    assert_eq!(h.handle(root_input(&tree)), Some("3".to_owned()));
}

#[test]
fn and_then_can_fail() {
    let tree = parse_python("x = 1");
    let h = handler_fn(|_: Input<()>| 0u32)
        .and_then(|_: Input<()>, n: u32| if n > 0 { Some(n) } else { None });
    assert_eq!(h.handle(root_input(&tree)), None);
}

#[test]
fn map_input_transforms_trigger_char() {
    let tree = parse_python("x = 1");
    let h = handler_fn(|input: Input<()>| input.trigger_char).map_input(|mut i: Input<()>| {
        i.trigger_char = Some('.');
        i
    });
    assert_eq!(h.handle(root_input(&tree)), Some(Some('.')));
}

#[test]
fn climb_finds_ancestor() {
    let tree = parse_python("x = 1\n");
    let ident = find_node(&tree, |n| n.kind() == "identifier").unwrap();
    let input = Input::new(ident, (), None);
    let h = (|inp: Input<()>| -> Option<String> {
        if inp.node.kind() == "module" {
            Some("found module".to_owned())
        } else {
            None
        }
    })
    .climb(&[]);
    assert_eq!(h.handle(input), Some("found module".to_owned()));
}

#[test]
fn climb_stops_at_stop_kind() {
    let tree = parse_python("x = 1\n");
    let expr_stmt = tree.root().child(0).unwrap();
    let input = Input::new(expr_stmt, (), None);
    let h = (|inp: Input<()>| -> Option<String> {
        if inp.node.kind() == "module" {
            Some("module".to_owned())
        } else {
            None
        }
    })
    .climb(&["expression_statement"]);
    assert_eq!(h.handle(input), None);
}

#[test]
fn kind_is_not_predicate() {
    let tree = parse_python("x = 1");
    let h = handler_fn(|_: Input<()>| 1u32).when(kind_is_not(&["identifier"]));
    assert_eq!(h.handle(root_input(&tree)), Some(1));
}

#[test]
fn has_parent_kind_predicate() {
    let tree = parse_python("x = 1\n");
    let expr_stmt = tree.root().child(0).unwrap();
    let input = Input::new(expr_stmt, (), None);
    let h = handler_fn(|_: Input<()>| 1u32).when(has_parent_kind("module"));
    assert_eq!(h.handle(input), Some(1));
}

#[test]
fn node_depth_lte_predicate() {
    let tree = parse_python("x = 1");
    let h = handler_fn(|_: Input<()>| 1u32).when(node_depth_lte(0));
    assert_eq!(h.handle(root_input(&tree)), Some(1));
}

#[test]
fn node_depth_lte_rejects_deep_node() {
    let tree = parse_python("x = 1\n");
    let expr_stmt = tree.root().child(0).unwrap();
    let input = Input::new(expr_stmt, (), None);
    let h = handler_fn(|_: Input<()>| 1u32).when(node_depth_lte(0));
    assert_eq!(h.handle(input), None);
}
