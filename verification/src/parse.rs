//! The digest of one source text: the text is parsed with the grammar of
//! its language, and the fragments are extracted from the tree.

use vstd::prelude::*;
use crate::engine::{extract, extraction, extraction_result, is_extraction};
use crate::grammar::{described_tree, report, reported, syntax_tree};
use crate::selector::{
    has_models,
    ConfigView,
    ParseConfig,
    ParseError,
    ParseErrorView,
};
use crate::state::KeyContent;
use crate::tree::{fits, NodeView, RawNode, SyntaxTree};

verus! {

/// The fragments of a source whose grammar reported `tree`. Where the
/// grammar reported no tree, or one whose nodes do not lie on whole
/// characters of the source, there is no digest.
pub open spec fn digest(tree: Option<Seq<NodeView>>, source: Seq<char>, config: ConfigView) -> Result<
    Seq<Seq<char>>,
    ParseErrorView,
> {
    match tree {
        Some(tree) => if fits(tree, source) {
            extraction(tree, source, config)
        } else {
            Err(ParseErrorView::TreeSitterParseError)
        },
        None => Err(ParseErrorView::TreeSitterParseError),
    }
}

/// Whether the grammar reported a tree whose nodes lie on whole characters of
/// the source.
pub open spec fn covers(tree: Option<Seq<NodeView>>, source: Seq<char>) -> bool {
    tree matches Some(tree) && fits(tree, source)
}

/// Whether `result` is a digest of a source whose grammar reported `tree`:
/// what a walk of the tree ends with, for some answers of the custom rules;
/// the error that says that there is no tree where the grammar reported
/// none over the source.
pub open spec fn is_digest(
    tree: Option<Seq<NodeView>>,
    source: Seq<char>,
    config: ConfigView,
    result: Result<Seq<Seq<char>>, ParseErrorView>,
) -> bool {
    match tree {
        Some(tree) => if fits(tree, source) {
            is_extraction(tree, source, config, result)
        } else {
            result == Err::<Seq<Seq<char>>, ParseErrorView>(ParseErrorView::TreeSitterParseError)
        },
        None => result == Err::<Seq<Seq<char>>, ParseErrorView>(
            ParseErrorView::TreeSitterParseError,
        ),
    }
}

/// Extracts the fragments of `source_code` from the nodes that a grammar
/// reported for it. Nodes that describe no tree, or a tree that does not lie
/// on whole characters of the source, give no digest, and neither does a
/// grammar that reported nothing. The fragments are what the walk of the
/// tree ends with under the answers that the rules gave; where every rule
/// has a model, they are the digest that the models give.
pub fn parse_nodes(nodes: Option<Vec<RawNode>>, source_code: &str, config: &ParseConfig) -> (r:
    Result<Vec<KeyContent>, ParseError>)
    ensures
        is_digest(described_tree(reported(nodes)), source_code@, config@, extraction_result(r)),
        has_models(config@.registry) ==> extraction_result(r) == digest(
            described_tree(reported(nodes)),
            source_code@,
            config@,
        ),
        !covers(described_tree(reported(nodes)), source_code@) ==> extraction_result(r) == Err::<
            Seq<Seq<char>>,
            ParseErrorView,
        >(ParseErrorView::TreeSitterParseError),
{
    let nodes = match nodes {
        Some(nodes) => nodes,
        None => {
            return Err(ParseError::TreeSitterParseError);
        },
    };
    let tree = match SyntaxTree::from_nodes(&nodes) {
        Some(tree) => tree,
        None => {
            return Err(ParseError::TreeSitterParseError);
        },
    };
    if !tree.fits(source_code) {
        return Err(ParseError::TreeSitterParseError);
    }
    extract(&tree, source_code, config)
}

/// Extracts the fragments of `source_code` under `config`: the source is
/// parsed with the grammar of the language of the configuration, and the
/// tree is walked.
pub fn parse(source_code: &str, config: &ParseConfig) -> (r: Result<Vec<KeyContent>, ParseError>)
    ensures
        is_digest(
            syntax_tree(config@.language, source_code@),
            source_code@,
            config@,
            extraction_result(r),
        ),
        has_models(config@.registry) ==> extraction_result(r) == digest(
            syntax_tree(config@.language, source_code@),
            source_code@,
            config@,
        ),
        !covers(syntax_tree(config@.language, source_code@), source_code@) ==> extraction_result(r)
            == Err::<Seq<Seq<char>>, ParseErrorView>(ParseErrorView::TreeSitterParseError),
{
    parse_nodes(report(source_code, config.language()), source_code, config)
}

/// Two digests of the same source under the same configuration are the
/// same: nothing of one call is left for the next.
pub proof fn lemma_parse_is_repeatable(
    source: Seq<char>,
    config: ConfigView,
    first: Result<Vec<KeyContent>, ParseError>,
    second: Result<Vec<KeyContent>, ParseError>,
)
    requires
        extraction_result(first) == digest(syntax_tree(config.language, source), source, config),
        extraction_result(second) == digest(syntax_tree(config.language, source), source, config),
    ensures
        extraction_result(first) == extraction_result(second),
{
}

} // verus!
