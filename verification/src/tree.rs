//! The syntax tree that the extraction engine walks: an arena of nodes, each
//! with a kind, a byte range of the source, and the indices of its children.
//!
//! Node 0 is the root, and a child always has a larger index than its parent,
//! so every walk that only descends comes to an end.

use vstd::prelude::*;
use crate::text::{byte_slice, is_byte_range, is_range_of, slice_of};

verus! {

/// One node of a syntax tree.
pub struct SyntaxNode {
    pub kind: String,
    pub start_byte: usize,
    pub end_byte: usize,
    pub children: Vec<usize>,
}

/// The model of a node.
pub struct NodeView {
    pub kind: Seq<char>,
    pub start_byte: usize,
    pub end_byte: usize,
    pub children: Seq<usize>,
}

impl View for SyntaxNode {
    type V = NodeView;

    open spec fn view(&self) -> NodeView {
        NodeView {
            kind: self.kind@,
            start_byte: self.start_byte,
            end_byte: self.end_byte,
            children: self.children@,
        }
    }
}

/// A node as a grammar reports it, in document order: the parent is given by
/// its position in that order. The parent of the first node is not read.
pub struct RawNode {
    pub kind: String,
    pub start_byte: usize,
    pub end_byte: usize,
    pub parent: usize,
}

/// The model of a reported node.
pub struct RawNodeView {
    pub kind: Seq<char>,
    pub start_byte: usize,
    pub end_byte: usize,
    pub parent: usize,
}

impl View for RawNode {
    type V = RawNodeView;

    open spec fn view(&self) -> RawNodeView {
        RawNodeView {
            kind: self.kind@,
            start_byte: self.start_byte,
            end_byte: self.end_byte,
            parent: self.parent,
        }
    }
}

/// The models of a list of nodes.
pub open spec fn node_views(nodes: Seq<SyntaxNode>) -> Seq<NodeView> {
    nodes.map_values(|n: SyntaxNode| n@)
}

/// The models of a list of reported nodes.
pub open spec fn raw_views(nodes: Seq<RawNode>) -> Seq<RawNodeView> {
    nodes.map_values(|n: RawNode| n@)
}

/// In a tree every child is a node that comes after its parent.
pub open spec fn well_formed(tree: Seq<NodeView>) -> bool {
    forall|i: int, k: int|
        0 <= i < tree.len() && 0 <= k < tree[i].children.len() ==> i < (
        #[trigger] tree[i].children[k]) < tree.len()
}

/// Every node of the tree addresses whole characters of the source.
pub open spec fn fits(tree: Seq<NodeView>, source: Seq<char>) -> bool {
    forall|i: int|
        0 <= i < tree.len() ==> is_byte_range(
            source,
            (#[trigger] tree[i]).start_byte as int,
            tree[i].end_byte as int,
        )
}

/// The source text that node `node` spans.
pub open spec fn node_text(tree: Seq<NodeView>, node: int, source: Seq<char>) -> Seq<char> {
    byte_slice(source, tree[node].start_byte as int, tree[node].end_byte as int)
}

/// A list of reported nodes describes a tree when it is not empty and every
/// node but the first names an earlier node as its parent.
pub open spec fn describes_tree(raw: Seq<RawNodeView>) -> bool {
    &&& 0 < raw.len() <= usize::MAX
    &&& forall|j: int| 1 <= j < raw.len() ==> (#[trigger] raw[j]).parent < j
}

/// The nodes among the first `upto` that name `parent` as their parent, in order.
pub open spec fn children_among(raw: Seq<RawNodeView>, parent: int, upto: int) -> Seq<usize>
    decreases upto,
{
    if upto <= 1 {
        Seq::empty()
    } else if raw[upto - 1].parent == parent {
        children_among(raw, parent, upto - 1).push((upto - 1) as usize)
    } else {
        children_among(raw, parent, upto - 1)
    }
}

/// The tree that a list of reported nodes describes.
pub open spec fn assembled(raw: Seq<RawNodeView>) -> Seq<NodeView> {
    Seq::new(
        raw.len(),
        |i: int|
            NodeView {
                kind: raw[i].kind,
                start_byte: raw[i].start_byte,
                end_byte: raw[i].end_byte,
                children: children_among(raw, i, raw.len() as int),
            },
    )
}

/// Every child that `children_among` lists lies between its parent and `upto`.
pub proof fn lemma_children_among_bounds(raw: Seq<RawNodeView>, parent: int, upto: int)
    requires
        describes_tree(raw),
        0 <= upto <= raw.len(),
    ensures
        forall|k: int|
            0 <= k < children_among(raw, parent, upto).len() ==> parent < (
            #[trigger] children_among(raw, parent, upto)[k]) < upto,
    decreases upto,
{
    if upto > 1 {
        lemma_children_among_bounds(raw, parent, upto - 1);
        let last = raw[upto - 1];
        let before = children_among(raw, parent, upto - 1);
        let all = children_among(raw, parent, upto);
        assert forall|k: int| 0 <= k < all.len() implies parent < (#[trigger] all[k]) < upto by {
            if k < before.len() {
                assert(all[k] == before[k]);
            } else {
                assert(last.parent < upto - 1);
            }
        }
    }
}

/// A node has no child among the nodes up to and including itself.
proof fn lemma_children_among_bounds_prefix(raw: Seq<RawNodeView>, parent: int, upto: int)
    requires
        0 <= upto <= raw.len() <= usize::MAX,
        upto <= parent + 1,
        forall|j: int| 1 <= j < upto ==> (#[trigger] raw[j]).parent < j,
    ensures
        children_among(raw, parent, upto) == Seq::<usize>::empty(),
    decreases upto,
{
    if upto > 1 {
        lemma_children_among_bounds_prefix(raw, parent, upto - 1);
    }
}

/// What a list of reported nodes assembles to is a well-formed tree.
pub proof fn lemma_assembled_is_well_formed(raw: Seq<RawNodeView>)
    requires
        describes_tree(raw),
    ensures
        well_formed(assembled(raw)),
{
    let tree = assembled(raw);
    assert forall|i: int, k: int|
        0 <= i < tree.len() && 0 <= k < tree[i].children.len() implies i < (
        #[trigger] tree[i].children[k]) < tree.len() by {
        lemma_children_among_bounds(raw, i, raw.len() as int);
    }
}

/// A syntax tree: an arena of nodes whose first node is the root.
pub struct SyntaxTree {
    nodes: Vec<SyntaxNode>,
}

impl View for SyntaxTree {
    type V = Seq<NodeView>;

    closed spec fn view(&self) -> Seq<NodeView> {
        node_views(self.nodes@)
    }
}

impl SyntaxTree {
    /// Every tree that exists is well formed.
    #[verifier::type_invariant]
    pub open spec fn is_well_formed(self) -> bool {
        well_formed(self@)
    }

    /// A tree that consists of its root alone.
    pub fn new(kind: &str, start_byte: usize, end_byte: usize) -> (tree: SyntaxTree)
        ensures
            tree@ == seq![
                NodeView { kind: kind@, start_byte, end_byte, children: Seq::<usize>::empty() },
            ],
    {
        let mut nodes: Vec<SyntaxNode> = Vec::new();
        nodes.push(
            SyntaxNode { kind: kind.to_owned(), start_byte, end_byte, children: Vec::new() },
        );
        SyntaxTree { nodes }
    }

    /// The number of nodes.
    pub fn len(&self) -> (n: usize)
        ensures
            n == self@.len(),
    {
        self.nodes.len()
    }

    /// The kind of a node.
    pub fn kind(&self, node: usize) -> (kind: &str)
        requires
            node < self@.len(),
        ensures
            kind@ == self@[node as int].kind,
    {
        self.nodes[node].kind.as_str()
    }

    /// The byte at which a node starts.
    pub fn start_byte(&self, node: usize) -> (at: usize)
        requires
            node < self@.len(),
        ensures
            at == self@[node as int].start_byte,
    {
        self.nodes[node].start_byte
    }

    /// The byte before which a node ends.
    pub fn end_byte(&self, node: usize) -> (at: usize)
        requires
            node < self@.len(),
        ensures
            at == self@[node as int].end_byte,
    {
        self.nodes[node].end_byte
    }

    /// The number of children of a node.
    pub fn child_count(&self, node: usize) -> (n: usize)
        requires
            node < self@.len(),
        ensures
            n == self@[node as int].children.len(),
    {
        self.nodes[node].children.len()
    }

    /// The `index`-th child of a node, where there is one.
    pub fn child(&self, node: usize, index: usize) -> (child: Option<usize>)
        ensures
            child == if node < self@.len() && index < self@[node as int].children.len() {
                Some(self@[node as int].children[index as int])
            } else {
                None
            },
            child is Some ==> node < child.unwrap() < self@.len(),
    {
        proof {
            use_type_invariant(self);
        }
        if node < self.nodes.len() && index < self.nodes[node].children.len() {
            let child = self.nodes[node].children[index];
            Some(child)
        } else {
            None
        }
    }

    /// Adds a node as the last child of `parent` and returns its index; where
    /// `parent` is no node of the tree, the tree is left as it is.
    pub fn add_child(&mut self, parent: usize, kind: &str, start_byte: usize, end_byte: usize) -> (id:
        Option<usize>)
        ensures
            id is Some <==> parent < old(self)@.len(),
            id is None ==> final(self)@ == old(self)@,
            id is Some ==> {
                let before = old(self)@;
                let p = before[parent as int];
                &&& id.unwrap() == before.len()
                &&& final(self)@ == before.update(
                    parent as int,
                    NodeView { children: p.children.push(id.unwrap()), ..p },
                ).push(
                    NodeView { kind: kind@, start_byte, end_byte, children: Seq::<usize>::empty() },
                )
            },
    {
        proof {
            use_type_invariant(&*self);
        }
        let n = self.nodes.len();
        if parent >= n {
            return None;
        }
        let ghost before = self@;
        let mut nodes: Vec<SyntaxNode> = Vec::new();
        core::mem::swap(&mut nodes, &mut self.nodes);
        nodes[parent].children.push(n);
        nodes.push(
            SyntaxNode { kind: kind.to_owned(), start_byte, end_byte, children: Vec::new() },
        );
        proof {
            let p = before[parent as int];
            let after = before.update(
                parent as int,
                NodeView { children: p.children.push(n), ..p },
            ).push(
                NodeView { kind: kind@, start_byte, end_byte, children: Seq::<usize>::empty() },
            );
            assert(node_views(nodes@) =~= after);
            assert forall|i: int, k: int|
                0 <= i < after.len() && 0 <= k < after[i].children.len() implies i < (
                #[trigger] after[i].children[k]) < after.len() by {
                if i < n && !(i == parent && k == p.children.len()) {
                    assert(after[i].children[k] == before[i].children[k]);
                }
            }
        }
        core::mem::swap(&mut nodes, &mut self.nodes);
        Some(n)
    }

    /// Tests whether every node addresses whole characters of `source`.
    pub fn fits(&self, source: &str) -> (r: bool)
        ensures
            r == fits(self@, source@),
    {
        let mut i: usize = 0;
        while i < self.nodes.len()
            invariant
                0 <= i <= self.nodes.len(),
                forall|j: int|
                    0 <= j < i ==> is_byte_range(
                        source@,
                        (#[trigger] self@[j]).start_byte as int,
                        self@[j].end_byte as int,
                    ),
            decreases self.nodes.len() - i,
        {
            if !is_range_of(source, self.nodes[i].start_byte, self.nodes[i].end_byte) {
                assert(self@[i as int].start_byte == self.nodes[i as int].start_byte);
                return false;
            }
            i += 1;
        }
        true
    }

    /// The source text that a node spans.
    pub fn text<'a>(&self, node: usize, source: &'a str) -> (text: &'a str)
        requires
            node < self@.len(),
            fits(self@, source@),
        ensures
            text@ == node_text(self@, node as int, source@),
    {
        assert(self@[node as int] == self.nodes[node as int]@);
        slice_of(source, self.nodes[node].start_byte, self.nodes[node].end_byte)
    }

    /// Builds the tree that a list of reported nodes describes, where it
    /// describes one.
    pub fn from_nodes(raw: &Vec<RawNode>) -> (tree: Option<SyntaxTree>)
        ensures
            tree is Some <==> describes_tree(raw_views(raw@)),
            tree is Some ==> tree.unwrap()@ == assembled(raw_views(raw@)),
    {
        let n = raw.len();
        if n == 0 {
            return None;
        }
        let mut nodes: Vec<SyntaxNode> = Vec::new();
        let mut j: usize = 0;
        while j < n
            invariant
                n == raw.len(),
                0 <= j <= n,
                nodes.len() == j,
                forall|i: int| 1 <= i < j ==> (#[trigger] raw_views(raw@)[i]).parent < i,
                forall|i: int|
                    0 <= i < j ==> (#[trigger] nodes[i])@ == (NodeView {
                        kind: raw[i].kind@,
                        start_byte: raw[i].start_byte,
                        end_byte: raw[i].end_byte,
                        children: children_among(raw_views(raw@), i, j as int),
                    }),
            decreases n - j,
        {
            let ghost views = raw_views(raw@);
            let parent = raw[j].parent;
            assert(views[j as int].parent == parent);
            if j > 0 {
                if parent >= j {
                    return None;
                }
                nodes[parent].children.push(j);
            }
            nodes.push(
                SyntaxNode {
                    kind: raw[j].kind.clone(),
                    start_byte: raw[j].start_byte,
                    end_byte: raw[j].end_byte,
                    children: Vec::new(),
                },
            );
            proof {
                assert forall|i: int| 0 <= i < j + 1 implies (#[trigger] nodes[i])@ == (NodeView {
                    kind: raw[i].kind@,
                    start_byte: raw[i].start_byte,
                    end_byte: raw[i].end_byte,
                    children: children_among(views, i, j + 1),
                }) by {
                    if i == j {
                        lemma_children_among_bounds_prefix(views, i, j + 1);
                    }
                }
            }
            j += 1;
        }
        proof {
            let views = raw_views(raw@);
            assert(node_views(nodes@) =~= assembled(views));
            lemma_assembled_is_well_formed(views);
        }
        Some(SyntaxTree { nodes })
    }
}

} // verus!
