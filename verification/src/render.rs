//! The elision renderer: the text of a node with its body replaced by a
//! placeholder.

use vstd::prelude::*;
use vstd::string::*;
use crate::selector::ParseConfig;
use crate::text::{ends_with, lemma_trimmed_keeps_ending, str_eq, trim, trimmed};
use crate::tree::{fits, node_text, NodeView, SyntaxTree};

verus! {

/// Whether a node of this kind is a body.
pub open spec fn is_block_kind(kind: Seq<char>) -> bool {
    kind == "block"@
}

/// Whether the text of a node of this kind follows what stands before it
/// without a space between them.
pub open spec fn joins_tightly(kind: Seq<char>) -> bool {
    ||| kind == "parameter_list"@
    ||| kind == "func"@
    ||| kind == "type_parameters"@
    ||| kind == "parameters"@
}

/// What stands in place of a body: an opening brace, on the next line one
/// unit of indentation and a comment that shows the omission, and on the
/// line after that the closing brace.
pub open spec fn placeholder(indent: Seq<char>) -> Seq<char> {
    "{\n"@ + indent + "// ...\n}"@
}

/// What one child contributes to the rendering of its parent.
pub open spec fn child_piece(
    tree: Seq<NodeView>,
    child: int,
    source: Seq<char>,
    indent: Seq<char>,
) -> Seq<char> {
    let kind = tree[child].kind;
    let gap = if joins_tightly(kind) {
        Seq::<char>::empty()
    } else {
        seq![' ']
    };
    if is_block_kind(kind) {
        gap + placeholder(indent)
    } else {
        gap + node_text(tree, child, source)
    }
}

/// What the first `upto` children of `node` contribute, one after another.
pub open spec fn child_pieces(
    tree: Seq<NodeView>,
    node: int,
    source: Seq<char>,
    indent: Seq<char>,
    upto: nat,
) -> Seq<char>
    decreases upto,
{
    if upto == 0 {
        Seq::empty()
    } else {
        child_pieces(tree, node, source, indent, (upto - 1) as nat) + child_piece(
            tree,
            tree[node].children[upto - 1] as int,
            source,
            indent,
        )
    }
}

/// Whether one of the first `upto` children of `node` is a body.
pub open spec fn has_block_among(tree: Seq<NodeView>, node: int, upto: int) -> bool {
    exists|k: int| 0 <= k < upto && is_block_kind(#[trigger] tree[tree[node].children[k] as int].kind)
}

/// Whether one of the children of `node` is a body.
pub open spec fn has_block_child(tree: Seq<NodeView>, node: int) -> bool {
    has_block_among(tree, node, tree[node].children.len() as int)
}

/// The rendering of `node` with its body elided. A node without a body is
/// rendered as its own text, unchanged.
pub open spec fn elided(tree: Seq<NodeView>, node: int, source: Seq<char>, indent: Seq<char>) -> Seq<
    char,
> {
    if has_block_child(tree, node) {
        trimmed(child_pieces(tree, node, source, indent, tree[node].children.len()))
    } else {
        node_text(tree, node, source)
    }
}

/// The rendering of a node whose last child is a body ends with the
/// placeholder.
pub proof fn lemma_elided_ends_with_placeholder(
    tree: Seq<NodeView>,
    node: int,
    source: Seq<char>,
    indent: Seq<char>,
)
    requires
        tree[node].children.len() > 0,
        is_block_kind(tree[tree[node].children.last() as int].kind),
    ensures
        ends_with(elided(tree, node, source, indent), placeholder(indent)),
{
    let count = tree[node].children.len();
    let whole = child_pieces(tree, node, source, indent, count);
    let mark = placeholder(indent);
    reveal_strlit("{\n");
    reveal_strlit("// ...\n}");
    assert(has_block_among(tree, node, count as int)) by {
        assert(is_block_kind(tree[tree[node].children[count - 1] as int].kind));
    }
    assert(mark.len() > 0);
    assert(mark.first() == '{');
    assert(mark.last() == '}');
    assert(whole.subrange(whole.len() - mark.len(), whole.len() as int) =~= mark);
    lemma_trimmed_keeps_ending(whole, mark);
}

/// Renders `node` with its body replaced by the placeholder.
pub fn block_like_to_string(tree: &SyntaxTree, node: usize, source: &str, config: &ParseConfig) -> (text:
    String)
    requires
        node < tree@.len(),
        fits(tree@, source@),
    ensures
        text@ == elided(tree@, node as int, source@, config@.indent),
{
    proof {
        use_type_invariant(tree);
        reveal_strlit(" ");
    }
    let count = tree.child_count(node);
    let indent = config.indent();
    let mut result = String::new();
    let mut found_block = false;
    let mut k: usize = 0;
    while k < count
        invariant
            node < tree@.len(),
            fits(tree@, source@),
            crate::tree::well_formed(tree@),
            count == tree@[node as int].children.len(),
            indent@ == config@.indent,
            " "@ == seq![' '],
            0 <= k <= count,
            result@ == child_pieces(tree@, node as int, source@, config@.indent, k as nat),
            found_block == has_block_among(tree@, node as int, k as int),
        decreases count - k,
    {
        let child = tree.child(node, k).unwrap();
        let kind = tree.kind(child);
        let tight = str_eq(kind, "parameter_list") || str_eq(kind, "func") || str_eq(
            kind,
            "type_parameters",
        ) || str_eq(kind, "parameters");
        if !tight {
            result.append(" ");
        }
        if str_eq(kind, "block") {
            result.append("{\n");
            result.append(indent);
            result.append("// ...\n}");
            found_block = true;
        } else {
            result.append(tree.text(child, source));
        }
        proof {
            if has_block_among(tree@, node as int, k + 1) {
                let w = choose|w: int|
                    0 <= w < k + 1 && is_block_kind(
                        #[trigger] tree@[tree@[node as int].children[w] as int].kind,
                    );
                assert(w < k ==> has_block_among(tree@, node as int, k as int));
            }
        }
        k += 1;
    }
    if found_block {
        trim(result.as_str()).to_owned()
    } else {
        tree.text(node, source).to_owned()
    }
}

} // verus!
