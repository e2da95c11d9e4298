//! The grammar adapter: turns source text into a syntax tree with the
//! tree-sitter grammar of a language.

use vstd::prelude::*;
use crate::selector::{Language, TreeSitterConfig};
use crate::tree::{
    assembled,
    describes_tree,
    raw_views,
    NodeView,
    RawNode,
    RawNodeView,
    SyntaxTree,
};

verus! {

/// A tree as tree-sitter hands it out. The engine never walks it: its nodes
/// are read out one by one into a `SyntaxTree`.
#[verifier::external_type_specification]
#[verifier::external_body]
pub struct ExTree(tree_sitter::Tree);

/// What the grammar of `language` reports for `source`: the visible nodes of
/// the tree in document order, each with the position of its parent in that
/// order, or nothing where tree-sitter cannot use the grammar.
pub uninterp spec fn grammar_nodes(language: Language, source: Seq<char>) -> Option<
    Seq<RawNodeView>,
>;

/// The visible nodes that a tree of tree-sitter holds, in document order.
pub uninterp spec fn tree_nodes(tree: tree_sitter::Tree) -> Seq<RawNodeView>;

/// `Parser::new`, `Parser::set_language` and `Parser::parse` of tree-sitter,
/// on a fresh parser, with the grammar that the crate of the language
/// exports. Parsing is a function of the grammar and the text, and the
/// contract gives its result that name: the nodes of the tree that comes
/// back are the nodes that the grammar reports for the source. No tree comes
/// back where `set_language` refuses the grammar.
#[verifier::external_body]
fn parse_with_grammar(source: &str, language: Language) -> (tree: Option<tree_sitter::Tree>)
    ensures
        tree is Some <==> grammar_nodes(language, source@) is Some,
        tree is Some ==> tree_nodes(tree.unwrap()) == grammar_nodes(language, source@).unwrap(),
{
    let grammar = match language {
        Language::Go => tree_sitter_go::LANGUAGE,
        Language::Hcl => tree_sitter_hcl::LANGUAGE,
        Language::Java => tree_sitter_java::LANGUAGE,
        Language::Python => tree_sitter_python::LANGUAGE,
        Language::Rust => tree_sitter_rust::LANGUAGE,
    };
    let mut parser = tree_sitter::Parser::new();
    parser.set_language(&tree_sitter::Language::new(grammar)).ok()?;
    parser.parse(source, None)
}

/// `Node::descendant_count` of tree-sitter on the root of the tree: the
/// number of visible nodes, the root included.
#[verifier::external_body]
fn tree_len(tree: &tree_sitter::Tree) -> (count: usize)
    ensures
        count == tree_nodes(*tree).len(),
{
    tree.root_node().descendant_count()
}

/// The node at position `index` in document order, read with a cursor of
/// tree-sitter: `TreeCursor::goto_descendant` moves there, `Node::kind`,
/// `Node::start_byte` and `Node::end_byte` describe the node, and after
/// `TreeCursor::goto_parent` the cursor's `descendant_index` is the position
/// of the parent (for the root, which has none, its own).
#[verifier::external_body]
fn tree_node(tree: &tree_sitter::Tree, index: usize) -> (node: RawNode)
    requires
        index < tree_nodes(*tree).len(),
    ensures
        node@ == tree_nodes(*tree)[index as int],
{
    let mut cursor = tree.walk();
    cursor.goto_descendant(index);
    let node = cursor.node();
    cursor.goto_parent();
    RawNode {
        kind: node.kind().to_string(),
        start_byte: node.start_byte(),
        end_byte: node.end_byte(),
        parent: cursor.descendant_index(),
    }
}

/// The model of what a grammar reported.
pub open spec fn reported(nodes: Option<Vec<RawNode>>) -> Option<Seq<RawNodeView>> {
    match nodes {
        Some(nodes) => Some(raw_views(nodes@)),
        None => None,
    }
}

/// The tree that reported nodes describe, where any are reported and they
/// describe a tree.
pub open spec fn described_tree(nodes: Option<Seq<RawNodeView>>) -> Option<Seq<NodeView>> {
    match nodes {
        Some(raw) => if describes_tree(raw) {
            Some(assembled(raw))
        } else {
            None
        },
        None => None,
    }
}

/// The syntax tree of a source in a language.
pub open spec fn syntax_tree(language: Language, source: Seq<char>) -> Option<Seq<NodeView>> {
    described_tree(grammar_nodes(language, source))
}

/// Asks the grammar of `language` for the nodes of `src`.
pub fn report(src: &str, language: Language) -> (nodes: Option<Vec<RawNode>>)
    ensures
        reported(nodes) == grammar_nodes(language, src@),
{
    let parsed = match parse_with_grammar(src, language) {
        Some(parsed) => parsed,
        None => {
            return None;
        },
    };
    let count = tree_len(&parsed);
    let mut raw: Vec<RawNode> = Vec::new();
    let mut index: usize = 0;
    while index < count
        invariant
            count == tree_nodes(parsed).len(),
            0 <= index <= count,
            raw.len() == index,
            forall|i: int| 0 <= i < index ==> (#[trigger] raw[i])@ == tree_nodes(parsed)[i],
        decreases count - index,
    {
        raw.push(tree_node(&parsed, index));
        index += 1;
    }
    assert(raw_views(raw@) =~= tree_nodes(parsed));
    Some(raw)
}

/// Parses `src` with the grammar of the configuration.
pub fn to_tree(src: &str, config: &TreeSitterConfig) -> (tree: Option<SyntaxTree>)
    ensures
        tree is Some <==> syntax_tree(config.language, src@) is Some,
        tree is Some ==> tree.unwrap()@ == syntax_tree(config.language, src@).unwrap(),
{
    match report(src, config.language) {
        Some(raw) => SyntaxTree::from_nodes(&raw),
        None => None,
    }
}

} // verus!
