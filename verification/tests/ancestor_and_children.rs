//! Tests of `has_ancestor_kind`, `.find_ancestor`, `.for_children` and
//! `.scan_children`.

use tree_sitter_utils::{
    handler_fn, has_ancestor_kind, never, Handler, HandlerExt, Input, Node, NodePredicate,
    SyntaxTree,
};

fn add_children(tree: &mut SyntaxTree, ts_ids: &mut Vec<usize>, node: tree_sitter::Node, index: usize) {
    let mut cursor = node.walk();
    for child in node.children(&mut cursor) {
        let c = tree
            .add_child(index, child.kind(), child.is_named(), child.start_byte(), child.end_byte())
            .unwrap();
        ts_ids.push(child.id());
        add_children(tree, ts_ids, child, c);
    }
}

/// Converts a tree-sitter tree; nodes are numbered in pre-order. Also returns
/// the tree-sitter id of each node, by index.
fn convert(ts: &tree_sitter::Tree) -> (SyntaxTree, Vec<usize>) {
    let root = ts.root_node();
    let mut tree = SyntaxTree::new(root.kind(), root.is_named(), root.start_byte(), root.end_byte());
    let mut ts_ids = vec![root.id()];
    add_children(&mut tree, &mut ts_ids, root, 0);
    (tree, ts_ids)
}

fn parse_python(src: &str) -> SyntaxTree {
    let language: tree_sitter::Language = tree_sitter_python::LANGUAGE.into();
    let mut parser = tree_sitter::Parser::new();
    parser.set_language(&language).unwrap();
    let ts = parser.parse(src, None).unwrap();
    convert(&ts).0
}

/// The first node in pre-order for which `pred` holds.
fn find_node<'t, F: Fn(Node<'t>) -> bool>(tree: &'t SyntaxTree, pred: F) -> Option<Node<'t>> {
    (0..tree.len()).map(|i| tree.node(i).unwrap()).find(|n| pred(*n))
}


#[test]
fn has_ancestor_kind_finds_distant_ancestor() {
    let tree = parse_python("x = 1\n");
    let ident = find_node(&tree, |n| n.kind() == "identifier").unwrap();
    let input = Input::new(ident, (), None);
    let pred = has_ancestor_kind("module");
    assert!(pred.test(input), "identifier should have a 'module' ancestor");
}

#[test]
fn has_ancestor_kind_does_not_match_self() {
    let tree = parse_python("x = 1\n");
    let root = tree.root();
    assert_eq!(root.kind(), "module");
    let input = Input::new(root, (), None);
    let pred = has_ancestor_kind("module");
    assert!(!pred.test(input), "the node itself should not satisfy has_ancestor_kind");
}

#[test]
fn has_ancestor_kind_returns_false_when_absent() {
    let tree = parse_python("x = 1\n");
    let ident = find_node(&tree, |n| n.kind() == "identifier").unwrap();
    let input = Input::new(ident, (), None);
    let pred = has_ancestor_kind("function_definition");
    assert!(!pred.test(input), "identifier has no function_definition ancestor in 'x = 1'");
}

#[test]
fn has_ancestor_kind_as_when_guard() {
    let src = "def foo(): pass\n";
    let tree = parse_python(src);
    let h = handler_fn(|inp: Input<()>| inp.node.kind().to_owned())
        .for_kinds(&["identifier"])
        .when(has_ancestor_kind("function_definition"));
    let foo = find_node(&tree, |n| {
        n.kind() == "identifier" && n.utf8_text(src.as_bytes()) == Some("foo")
    })
    .unwrap();
    assert_eq!(h.handle(Input::new(foo, (), None)), Some("identifier".to_owned()));
    let root_input = Input::new(tree.root(), (), None);
    assert_eq!(h.handle(root_input), None);
}

#[test]
fn find_ancestor_climbs_to_target_kind() {
    let tree = parse_python("x = 1\n");
    let ident = find_node(&tree, |n| n.kind() == "identifier").unwrap();
    let input = Input::new(ident, (), None);
    let h = handler_fn(|inp: Input<()>| inp.node.kind().to_owned()).find_ancestor(&["assignment"], &[]);
    assert_eq!(h.handle(input), Some("assignment".to_owned()));
}

#[test]
fn find_ancestor_returns_none_when_kind_absent() {
    let tree = parse_python("x = 1\n");
    let ident = find_node(&tree, |n| n.kind() == "identifier").unwrap();
    let input = Input::new(ident, (), None);
    let h = handler_fn(|inp: Input<()>| inp.node.kind().to_owned())
        .find_ancestor(&["function_definition"], &[]);
    assert_eq!(h.handle(input), None);
}

#[test]
fn find_ancestor_stops_at_stop_kind() {
    let tree = parse_python("x = 1\n");
    let ident = find_node(&tree, |n| n.kind() == "identifier").unwrap();
    let input = Input::new(ident, (), None);
    let h = handler_fn(|inp: Input<()>| inp.node.kind().to_owned())
        .find_ancestor(&["module"], &["assignment"]);
    assert_eq!(
        h.handle(input),
        None,
        "should have stopped at 'assignment' before reaching 'module'"
    );
}

#[test]
fn find_ancestor_does_not_match_self() {
    let tree = parse_python("x = 1\n");
    let module = tree.root();
    assert_eq!(module.kind(), "module");
    let input = Input::new(module, (), None);
    let h = handler_fn(|inp: Input<()>| inp.node.kind().to_owned()).find_ancestor(&["module"], &[]);
    assert_eq!(h.handle(input), None);
}

#[test]
fn find_ancestor_invokes_handler_on_ancestor_not_original() {
    let tree = parse_python("def foo(): pass\n");
    let pass_node = find_node(&tree, |n| n.kind() == "pass_statement").unwrap();
    let input = Input::new(pass_node, (), None);
    let h = handler_fn(|inp: Input<()>| inp.node.kind().to_owned())
        .find_ancestor(&["function_definition"], &[]);
    assert_eq!(h.handle(input), Some("function_definition".to_owned()));
}

#[test]
fn for_children_collects_all_matching_named_children() {
    let tree = parse_python("x = 1\n");
    let assignment = find_node(&tree, |n| n.kind() == "assignment").unwrap();
    let input = Input::new(assignment, (), None);
    let h = handler_fn(|inp: Input<()>| inp.node.kind().to_owned()).for_children();
    let result = h.handle(input).unwrap();
    assert!(
        result.contains(&"identifier".to_owned()),
        "expected 'identifier' in children, got {:?}",
        result
    );
    assert!(
        result.contains(&"integer".to_owned()),
        "expected 'integer' in children, got {:?}",
        result
    );
}

#[test]
fn for_children_returns_empty_vec_for_leaf_node() {
    let tree = parse_python("x = 1\n");
    let ident = find_node(&tree, |n| n.kind() == "identifier").unwrap();
    let input = Input::new(ident, (), None);
    let h = handler_fn(|inp: Input<()>| inp.node.kind().to_owned()).for_children();
    assert_eq!(h.handle(input), Some(vec![]));
}

#[test]
fn for_children_with_guard_collects_only_matching() {
    let tree = parse_python("x = 1\n");
    let assignment = find_node(&tree, |n| n.kind() == "assignment").unwrap();
    let input = Input::new(assignment, (), None);
    let h = handler_fn(|inp: Input<()>| inp.node.kind().to_owned())
        .for_kinds(&["identifier"])
        .for_children();
    let result = h.handle(input).unwrap();
    assert_eq!(result, vec!["identifier".to_owned()]);
}

#[test]
fn scan_children_returns_first_match() {
    let tree = parse_python("x = 1\n");
    let assignment = find_node(&tree, |n| n.kind() == "assignment").unwrap();
    let input = Input::new(assignment, (), None);
    let h = handler_fn(|inp: Input<()>| inp.node.kind().to_owned()).scan_children();
    let result = h.handle(input);
    assert_eq!(result, Some("identifier".to_owned()));
}

#[test]
fn scan_children_returns_none_when_no_match() {
    let tree = parse_python("x = 1\n");
    let assignment = find_node(&tree, |n| n.kind() == "assignment").unwrap();
    let input = Input::new(assignment, (), None);
    let h = (|inp: Input<()>| -> Option<String> {
        if inp.node.kind() == "function_definition" {
            Some(inp.node.kind().to_owned())
        } else {
            None
        }
    })
    .scan_children();
    assert_eq!(h.handle(input), None);
}

#[test]
fn scan_children_returns_none_for_leaf() {
    let tree = parse_python("x = 1\n");
    let ident = find_node(&tree, |n| n.kind() == "identifier").unwrap();
    let input = Input::new(ident, (), None);
    let h = never::<(), String>().scan_children();
    assert_eq!(h.handle(input), None);
}
