//! The boundary to the tree-sitter parsing library.
//!
//! The outside types are declared opaque; a small set of trusted wrappers
//! exposes the calls the crate needs, and the verified [`cst_from_tree`]
//! walk converts a parsed tree into the crate's own [`Cst`] arena, whose
//! well-formedness is established by construction.

use vstd::prelude::*;

use crate::cst::Cst;
use crate::cst::CstNode;

verus! {

#[verifier::external_type_specification]
#[verifier::external_body]
pub struct ExTsParser(tree_sitter::Parser);

#[verifier::external_type_specification]
#[verifier::external_body]
pub struct ExTsTree(tree_sitter::Tree);

#[verifier::external_type_specification]
#[verifier::external_body]
pub struct ExTsNode<'tree>(tree_sitter::Node<'tree>);

/// Relies on `tree_sitter::Parser::new` and `Parser::set_language` with
/// `tree_sitter_python::LANGUAGE`: a parser loaded with the Python grammar,
/// or `None` if the grammar is incompatible with the parsing library.
#[verifier::external_body]
fn ts_parser_python() -> Option<tree_sitter::Parser> {
    let mut p = tree_sitter::Parser::new();
    match p.set_language(&tree_sitter_python::LANGUAGE.into()) {
        Ok(()) => Some(p),
        Err(_) => None,
    }
}

/// Relies on `tree_sitter::Parser::new` and `Parser::set_language` with
/// `tree_sitter_javascript::LANGUAGE`: a parser loaded with the JavaScript
/// grammar, or `None` if the grammar is incompatible with the parsing
/// library.
#[verifier::external_body]
fn ts_parser_javascript() -> Option<tree_sitter::Parser> {
    let mut p = tree_sitter::Parser::new();
    match p.set_language(&tree_sitter_javascript::LANGUAGE.into()) {
        Ok(()) => Some(p),
        Err(_) => None,
    }
}

/// Relies on `tree_sitter::Parser::new` and `Parser::set_language` with
/// `tree_sitter_java::LANGUAGE`: a parser loaded with the Java grammar, or
/// `None` if the grammar is incompatible with the parsing library.
#[verifier::external_body]
fn ts_parser_java() -> Option<tree_sitter::Parser> {
    let mut p = tree_sitter::Parser::new();
    match p.set_language(&tree_sitter_java::LANGUAGE.into()) {
        Ok(()) => Some(p),
        Err(_) => None,
    }
}

/// Relies on `tree_sitter::Parser::parse`: parses the text with the loaded
/// grammar, or returns `None` if no grammar was loaded or parsing was
/// cancelled.
#[verifier::external_body]
fn ts_parser_parse(p: &mut tree_sitter::Parser, text: &str) -> Option<tree_sitter::Tree> {
    p.parse(text.as_bytes(), None)
}

/// Relies on `tree_sitter::Tree::root_node`: the root node of the tree.
#[verifier::external_body]
fn ts_tree_root<'t>(t: &'t tree_sitter::Tree) -> tree_sitter::Node<'t> {
    t.root_node()
}

/// Relies on `tree_sitter::Node::kind`: the grammar's name for the node.
#[verifier::external_body]
fn ts_node_kind(n: &tree_sitter::Node<'_>) -> String {
    n.kind().to_owned()
}

/// Relies on `tree_sitter::Node::utf8_text`: the slice of the source text
/// covered by the node; empty if the node's byte range does not fit this
/// source (`utf8_text` would panic on such a range) or is not valid
/// UTF-8.
#[verifier::external_body]
fn ts_node_text(n: &tree_sitter::Node<'_>, source: &str) -> String {
    let range = n.byte_range();
    if range.start > range.end || range.end > source.len() {
        return String::new();
    }
    match n.utf8_text(source.as_bytes()) {
        Ok(t) => t.to_owned(),
        Err(_) => String::new(),
    }
}

/// Relies on `tree_sitter::Node::start_byte`: first byte of the node.
#[verifier::external_body]
fn ts_node_start(n: &tree_sitter::Node<'_>) -> usize {
    n.start_byte()
}

/// Relies on `tree_sitter::Node::end_byte`: one past the last byte of the
/// node.
#[verifier::external_body]
fn ts_node_end(n: &tree_sitter::Node<'_>) -> usize {
    n.end_byte()
}

/// Relies on `tree_sitter::Node::child_count`: how many children the node
/// has.
#[verifier::external_body]
fn ts_node_child_count(n: &tree_sitter::Node<'_>) -> u32 {
    n.child_count()
}

/// Relies on `tree_sitter::Node::child`: the `i`-th child of the node, if
/// any.
#[verifier::external_body]
fn ts_node_child<'t>(n: &tree_sitter::Node<'t>, i: u32) -> Option<tree_sitter::Node<'t>> {
    n.child(i)
}

/// Converts a parsed tree-sitter tree into the crate's own arena
/// representation, visiting nodes in pre-order.
///
/// Returns `None` only if the walk could not be completed; any returned
/// arena is well-formed by construction.
pub(crate) fn cst_from_tree(tree: &tree_sitter::Tree, source: &str) -> (r: Option<Cst>)
    ensures
        r matches Some(c) ==> c.wf(),
{
    let root = ts_tree_root(tree);
    let mut nodes: Vec<CstNode> = Vec::new();
    nodes.push(
        CstNode {
            kind: ts_node_kind(&root),
            text: ts_node_text(&root, source),
            start: ts_node_start(&root),
            end: ts_node_end(&root),
            children: Vec::new(),
            parent: None,
        },
    );
    // pending nodes, each paired with the arena index of its parent; popped
    // in document order
    let mut stack: Vec<(tree_sitter::Node, usize)> = Vec::new();
    if !push_children(&mut stack, &root, 0, 1) {
        return None;
    }
    let mut fuel: usize = usize::MAX;
    while stack.len() != 0
        invariant
            nodes@.len() >= 1,
            forall|s: int|
                0 <= s < stack@.len() ==> (#[trigger] stack@[s].1) < nodes@.len(),
            crate::cst::arena_wf(nodes@),
        decreases fuel,
    {
        if fuel == 0 {
            return None;
        }
        fuel = fuel - 1;
        let ghost pre = nodes@;
        let (node, p) = stack.pop().unwrap();
        let idx = nodes.len();
        nodes.push(
            CstNode {
                kind: ts_node_kind(&node),
                text: ts_node_text(&node, source),
                start: ts_node_start(&node),
                end: ts_node_end(&node),
                children: Vec::new(),
                parent: Some(p),
            },
        );
        nodes[p].children.push(idx);
        proof {
            let cur = nodes@;
            assert(cur.len() == pre.len() + 1);
            assert(cur[p as int].children@ == pre[p as int].children@.push(idx));
            assert(forall|i: int|
                0 <= i < cur.len() && i != p && i != idx ==> cur[i] == pre[i]);
            assert forall|j: int|
                1 <= j < cur.len() implies #[trigger] crate::cst::listed_under(
                cur,
                cur[j].parent->0 as int,
                j,
            ) by {
                if j == idx {
                    assert(cur[p as int].children@[pre[p as int].children@.len() as int] == idx);
                } else {
                    let q = pre[j].parent->0 as int;
                    assert(crate::cst::listed_under(pre, q, j));
                    let k = choose|k: int|
                        0 <= k < pre[q].children@.len() && #[trigger] pre[q].children@[k] == j
                            as usize;
                    assert(cur[q].children@[k] == j as usize);
                }
            };
        }
        if !push_children(&mut stack, &node, idx, nodes.len()) {
            return None;
        }
    }
    let c = Cst { nodes };
    Some(c)
}

/// Pushes the children of `node` onto the pending stack in reverse order,
/// so that they are popped in document order; their parent will be the
/// arena node `parent_idx`. Reports failure if the outside tree disagrees
/// with itself about its child count.
fn push_children<'t>(
    stack: &mut Vec<(tree_sitter::Node<'t>, usize)>,
    node: &tree_sitter::Node<'t>,
    parent_idx: usize,
    arena_len: usize,
) -> (ok: bool)
    requires
        parent_idx < arena_len,
        forall|s: int|
            0 <= s < old(stack)@.len() ==> (#[trigger] old(stack)@[s].1) < arena_len,
    ensures
        forall|s: int|
            0 <= s < final(stack)@.len() ==> (#[trigger] final(stack)@[s].1) < arena_len,
{
    let count = ts_node_child_count(node);
    let mut i: u32 = count;
    while i > 0
        invariant
            parent_idx < arena_len,
            forall|s: int|
                0 <= s < stack@.len() ==> (#[trigger] stack@[s].1) < arena_len,
        decreases i,
    {
        i = i - 1;
        match ts_node_child(node, i) {
            Some(c) => stack.push((c, parent_idx)),
            None => {
                return false;
            },
        }
    }
    true
}

/// Parses `code` as `language` and converts the result into the crate's
/// own arena representation. `None` reports a parse failure.
pub fn parse_text(code: &str, language: &crate::Language) -> (r: Option<Cst>)
    ensures
        r matches Some(c) ==> c.wf(),
{
    let parser = match language {
        crate::Language::Python => ts_parser_python(),
        crate::Language::JavaScript => ts_parser_javascript(),
        crate::Language::Java => ts_parser_java(),
    };
    match parser {
        None => None,
        Some(mut parser) => match ts_parser_parse(&mut parser, code) {
            Some(tree) => cst_from_tree(&tree, code),
            None => None,
        },
    }
}

} // verus!
