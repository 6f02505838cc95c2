//! Rust syntax trees from tree-sitter, read into plain values.
use vstd::prelude::*;

verus! {

/// One node of a syntax tree, as plain values. A tree is the sequence of its visible
/// nodes in pre-order: the root first, at depth 0, and each node's descendants right
/// after it, one level deeper than their parent.
#[derive(Debug, Clone, PartialEq, Eq)]
pub struct SyntaxNode {
    /// The node's grammar kind, such as `function_item`.
    pub kind: String,
    /// Whether the kind is a named rule rather than a literal token.
    pub named: bool,
    /// The field of its parent that the node stands in, such as `name` or `body`.
    pub field: Option<String>,
    pub depth: usize,
    /// The byte range of the node in the source.
    pub start: usize,
    pub end: usize,
}

/// The visible nodes, in pre-order, of the tree that tree-sitter, with the grammar of
/// `tree_sitter_rust`, gives for a text; `None` where it gives no tree.
pub uninterp spec fn rust_syntax(source: Seq<char>) -> Option<Seq<SyntaxNode>>;

/// Parses a text with `tree_sitter::Parser` (new parser, `set_language` with
/// `tree_sitter_rust::LANGUAGE`, `parse` with no earlier tree) and reads every
/// descendant of the root, in pre-order, with a `tree_sitter::TreeCursor`
/// (`goto_descendant`, `node`, `depth`, `field_name`) and the node's `kind`,
/// `is_named`, `start_byte` and `end_byte`. The result is `rust_syntax` of the text;
/// a tree has at least its root (`descendant_count` counts the node itself).
#[verifier::external_body]
fn read_rust_syntax(source: &str) -> (r: Option<Vec<SyntaxNode>>)
    ensures
        match r {
            Some(v) => rust_syntax(source@) == Some(v@) && v@.len() > 0,
            None => rust_syntax(source@) is None,
        },
{
    let mut parser = tree_sitter::Parser::new();
    parser.set_language(&tree_sitter_rust::LANGUAGE.into()).ok()?;
    let tree = parser.parse(source, None)?;
    let mut c = tree.walk();
    let mut nodes = Vec::new();
    for i in 0..tree.root_node().descendant_count() {
        c.goto_descendant(i);
        let (n, field) = (c.node(), c.field_name().map(str::to_string));
        nodes.push(SyntaxNode { kind: n.kind().to_string(), named: n.is_named(), field,
            depth: c.depth() as usize, start: n.start_byte(), end: n.end_byte() });
    }
    Some(nodes)
}

/// Parses Rust source with tree-sitter and lists the tree's visible nodes in
/// pre-order; `None` where the parser refuses the grammar or gives no tree.
pub fn parse_rust(source: &str) -> (r: Option<Vec<SyntaxNode>>)
    ensures
        match r {
            Some(nodes) => rust_syntax(source@) == Some(nodes@) && nodes@.len() > 0,
            None => rust_syntax(source@) is None,
        },
{
    read_rust_syntax(source)
}

} // verus!
