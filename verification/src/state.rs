//! The state of one extraction: the work queue, the fragment that is being
//! accumulated, and the fragments that are finished.

use std::collections::VecDeque;
use vstd::prelude::*;
use crate::text::{join, joined, texts};
use crate::tree::NodeView;

verus! {

/// One finished unit of extracted text.
#[derive(Clone, Debug)]
pub struct KeyContent {
    pub content: String,
}

/// The texts of a list of fragments.
pub open spec fn fragment_texts(fragments: Seq<KeyContent>) -> Seq<Seq<char>> {
    fragments.map_values(|k: KeyContent| k.content@)
}

/// The pieces of a fragment that is still being put together.
#[derive(Clone, Debug)]
pub struct Accumulator {
    content: Vec<String>,
}

impl View for Accumulator {
    type V = Seq<Seq<char>>;

    closed spec fn view(&self) -> Seq<Seq<char>> {
        texts(self.content@)
    }
}

impl Accumulator {
    /// An accumulator that holds no piece.
    pub fn new() -> (acc: Accumulator)
        ensures
            acc@ == Seq::<Seq<char>>::empty(),
    {
        let acc = Accumulator { content: Vec::new() };
        acc
    }

    /// Adds a piece behind the pieces that are there.
    pub fn add_content(&mut self, content: String)
        ensures
            final(self)@ == old(self)@.push(content@),
    {
        self.content.push(content);
    }

    /// The fragment made of the pieces, one per line.
    pub fn finalize(&self) -> (fragment: KeyContent)
        ensures
            fragment.content@ == joined(self@, seq!['\n']),
    {
        proof {
            reveal_strlit("\n");
            assert("\n"@ =~= seq!['\n']);
        }
        KeyContent { content: join(&self.content, "\n") }
    }
}

/// One item of the work queue: a node to visit, with the flag that says
/// whether what it yields is accumulated, or the marker that closes the
/// fragment being accumulated.
#[derive(Clone, Copy, Debug, PartialEq, Eq, Structural)]
pub enum QueueItem {
    Node(usize, bool),
    Sentinel,
}

/// The model of the state of an extraction.
pub struct StateView {
    pub queue: Seq<QueueItem>,
    pub accumulator: Seq<Seq<char>>,
    pub result: Seq<Seq<char>>,
    pub is_accumulating: bool,
}

/// The state before the first step on a tree with `nodes` nodes: the root
/// waits in the queue, where there is one, and nothing has been produced.
pub open spec fn initial_state(nodes: nat) -> StateView {
    StateView {
        queue: if nodes > 0 {
            seq![QueueItem::Node(0, false)]
        } else {
            Seq::empty()
        },
        accumulator: Seq::empty(),
        result: Seq::empty(),
        is_accumulating: false,
    }
}

/// What emitting `text` does to a state: the text joins the accumulator
/// while the state accumulates, and is a fragment of its own otherwise.
pub open spec fn emit(state: StateView, text: Seq<char>) -> StateView {
    if state.is_accumulating {
        StateView { accumulator: state.accumulator.push(text), ..state }
    } else {
        StateView { result: state.result.push(text), ..state }
    }
}

/// What a sentinel does to a state: the accumulator becomes one fragment,
/// even when it is empty, and starts anew.
pub open spec fn close_fragment(state: StateView) -> StateView {
    StateView {
        result: state.result.push(joined(state.accumulator, seq!['\n'])),
        accumulator: Seq::empty(),
        ..state
    }
}

/// The size of the subtree below and including `node`: what a visit of the
/// node can at most add to the queue, plus one for the visit itself.
pub open spec fn node_weight(tree: Seq<NodeView>, node: int) -> nat
    decreases tree.len() - node, 1nat, 0nat,
{
    if 0 <= node < tree.len() {
        1 + children_weight(tree, node, tree[node].children.len())
    } else {
        0
    }
}

/// The sizes of the subtrees of the first `upto` children of `node`, added up.
pub open spec fn children_weight(tree: Seq<NodeView>, node: int, upto: nat) -> nat
    decreases tree.len() - node, 0nat, upto,
{
    if !(0 <= node < tree.len()) || upto == 0 || upto > tree[node].children.len() {
        0
    } else {
        let child = tree[node].children[upto - 1] as int;
        children_weight(tree, node, (upto - 1) as nat) + if node < child < tree.len() {
            node_weight(tree, child)
        } else {
            0
        }
    }
}

/// The work that one queue item stands for.
pub open spec fn item_weight(tree: Seq<NodeView>, item: QueueItem) -> nat {
    match item {
        QueueItem::Node(node, _) => node_weight(tree, node as int),
        QueueItem::Sentinel => 1,
    }
}

/// The work that a queue stands for.
pub open spec fn queue_weight(tree: Seq<NodeView>, queue: Seq<QueueItem>) -> nat
    decreases queue.len(),
{
    if queue.len() == 0 {
        0
    } else {
        item_weight(tree, queue[0]) + queue_weight(tree, queue.drop_first())
    }
}

/// Every node that waits in the queue is a node of the tree.
pub open spec fn queue_within(tree: Seq<NodeView>, queue: Seq<QueueItem>) -> bool {
    forall|i: int|
        0 <= i < queue.len() ==> ((#[trigger] queue[i]) matches QueueItem::Node(node, _)
            ==> node < tree.len())
}

/// The queue items for the first `upto` children of `node`, none accumulating
/// unless `accumulating` says so.
pub open spec fn child_items(tree: Seq<NodeView>, node: int, upto: int, accumulating: bool) -> Seq<
    QueueItem,
> {
    Seq::new(upto as nat, |k: int| QueueItem::Node(tree[node].children[k], accumulating))
}

/// The weight of a queue is the sum of the weights of its two parts.
pub proof fn lemma_queue_weight_concat(
    tree: Seq<NodeView>,
    front: Seq<QueueItem>,
    back: Seq<QueueItem>,
)
    ensures
        queue_weight(tree, front + back) == queue_weight(tree, front) + queue_weight(tree, back),
    decreases front.len(),
{
    if front.len() == 0 {
        assert(front + back =~= back);
    } else {
        assert((front + back).drop_first() =~= front.drop_first() + back);
        lemma_queue_weight_concat(tree, front.drop_first(), back);
    }
}

/// A queue of one item weighs what the item weighs.
pub proof fn lemma_queue_weight_single(tree: Seq<NodeView>, item: QueueItem)
    ensures
        queue_weight(tree, seq![item]) == item_weight(tree, item),
{
    assert(queue_weight(tree, seq![item].drop_first()) == 0);
}

/// The items for the children of a node weigh what the children weigh.
pub proof fn lemma_child_items_weight(
    tree: Seq<NodeView>,
    node: int,
    upto: int,
    accumulating: bool,
)
    requires
        crate::tree::well_formed(tree),
        0 <= node < tree.len(),
        0 <= upto <= tree[node].children.len(),
    ensures
        queue_weight(tree, child_items(tree, node, upto, accumulating)) == children_weight(
            tree,
            node,
            upto as nat,
        ),
        queue_within(tree, child_items(tree, node, upto, accumulating)),
    decreases upto,
{
    let items = child_items(tree, node, upto, accumulating);
    if upto > 0 {
        let before = child_items(tree, node, upto - 1, accumulating);
        let last = QueueItem::Node(tree[node].children[upto - 1], accumulating);
        lemma_child_items_weight(tree, node, upto - 1, accumulating);
        assert(items =~= before + seq![last]);
        lemma_queue_weight_concat(tree, before, seq![last]);
        lemma_queue_weight_single(tree, last);
    }
}

/// A node of the tree weighs at least one.
pub proof fn lemma_node_weight_positive(tree: Seq<NodeView>, node: int)
    requires
        0 <= node < tree.len(),
    ensures
        node_weight(tree, node) >= 1,
{
}

/// The state of one extraction.
pub struct ParseState {
    queue: VecDeque<QueueItem>,
    accumulator: Accumulator,
    result: Vec<KeyContent>,
    is_accumulating: bool,
}

impl View for ParseState {
    type V = StateView;

    closed spec fn view(&self) -> StateView {
        StateView {
            queue: self.queue@,
            accumulator: self.accumulator@,
            result: fragment_texts(self.result@),
            is_accumulating: self.is_accumulating,
        }
    }
}

impl ParseState {
    /// The state in which nothing waits and nothing has been produced.
    pub fn new() -> (state: ParseState)
        ensures
            state@ == initial_state(0),
    {
        let state = ParseState {
            queue: VecDeque::new(),
            accumulator: Accumulator::new(),
            result: Vec::new(),
            is_accumulating: false,
        };
        assert(state@.result =~= Seq::<Seq<char>>::empty());
        state
    }

    /// Whether what is emitted now joins the accumulator.
    pub fn is_accumulating(&self) -> (flag: bool)
        ensures
            flag == self@.is_accumulating,
    {
        self.is_accumulating
    }

    /// Says whether what is emitted from now on joins the accumulator.
    pub fn set_accumulating(&mut self, flag: bool)
        ensures
            final(self)@ == (StateView { is_accumulating: flag, ..old(self)@ }),
    {
        self.is_accumulating = flag;
    }

    /// Whether any item waits in the queue.
    pub fn has_work(&self) -> (more: bool)
        ensures
            more == (self@.queue.len() > 0),
    {
        self.queue.len() > 0
    }

    /// Puts an item behind those that wait: it is taken after them.
    pub fn push_back(&mut self, item: QueueItem)
        ensures
            final(self)@ == (StateView { queue: old(self)@.queue.push(item), ..old(self)@ }),
    {
        self.queue.push_back(item);
    }

    /// Puts an item before those that wait: it is taken next.
    pub fn push_front(&mut self, item: QueueItem)
        ensures
            final(self)@ == (StateView { queue: seq![item] + old(self)@.queue, ..old(self)@ }),
    {
        self.queue.push_front(item);
    }

    /// Takes the item that waits first, where one waits.
    pub fn pop_front(&mut self) -> (item: Option<QueueItem>)
        ensures
            item is Some <==> old(self)@.queue.len() > 0,
            item is Some ==> item.unwrap() == old(self)@.queue[0] && final(self)@ == (StateView {
                queue: old(self)@.queue.drop_first(),
                ..old(self)@
            }),
            item is None ==> final(self)@ == old(self)@,
    {
        self.queue.pop_front()
    }

    /// Adds a piece to the fragment that is being accumulated, whatever the
    /// accumulating flag says.
    pub fn accumulate(&mut self, content: String)
        ensures
            final(self)@ == (StateView {
                accumulator: old(self)@.accumulator.push(content@),
                ..old(self)@
            }),
    {
        self.accumulator.add_content(content);
    }

    /// Emits a text: it joins the accumulator while the state accumulates,
    /// and is a fragment of its own otherwise.
    pub fn update_content(&mut self, content: String)
        ensures
            final(self)@ == emit(old(self)@, content@),
    {
        if self.is_accumulating {
            self.accumulator.add_content(content);
        } else {
            self.result.push(KeyContent { content });
            assert(self@.result =~= old(self)@.result.push(content@));
        }
    }

    /// Closes the fragment that is being accumulated: it becomes one
    /// fragment, and the accumulator starts anew.
    pub fn finalize_accumulator(&mut self)
        ensures
            final(self)@ == close_fragment(old(self)@),
    {
        let content = self.accumulator.finalize();
        self.result.push(content);
        self.accumulator = Accumulator::new();
        assert(self@.result =~= old(self)@.result.push(joined(old(self)@.accumulator, seq!['\n'])));
    }

    /// Ends the extraction and hands out the fragments in the order in which
    /// they were finished.
    pub fn into_result(self) -> (fragments: Vec<KeyContent>)
        ensures
            fragment_texts(fragments@) == self@.result,
    {
        self.result
    }
}

} // verus!
