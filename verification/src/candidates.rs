//! Solution candidates: the activated nodes that are solution nodes with an
//! answer text, and their ranking.

use vstd::prelude::*;

use crate::engine::Engine;
use crate::model::{Node, NodeKind, Solution};
use crate::ranking::{ids_increasing, is_ranking, rank, Candidate};

verus! {

/// The accumulated activation of one node after propagation.
///
/// `score_key` orders activations as their scores do: for the non-negative
/// scores that propagation produces, the 32-bit IEEE pattern of the score is
/// such a key.
#[derive(Debug, Clone, Copy, PartialEq, Eq, Structural)]
pub struct Activation {
    /// The activated node.
    pub node_id: u32,
    /// Order key of its accumulated activation score.
    pub score_key: u32,
}

/// Activations listed by strictly increasing node id, one per node, as an
/// ordered map from node id to score yields them.
pub open spec fn ids_ascending(a: Seq<Activation>) -> bool {
    forall|i: int, j: int| 0 <= i < j < a.len() ==> #[trigger] a[i].node_id < #[trigger] a[j].node_id
}

/// Whether the node is a solution node with the given id.
pub open spec fn is_solution_node(n: Node, id: u32) -> bool {
    n.id == id && n.kind == NodeKind::Solution
}

/// Position of the first solution node with the given id, if any.
pub open spec fn first_solution_node(nodes: Seq<Node>, id: u32) -> Option<int>
    decreases nodes.len(),
{
    if nodes.len() == 0 {
        None
    } else {
        match first_solution_node(nodes.drop_last(), id) {
            Some(k) => Some(k),
            None => if is_solution_node(nodes.last(), id) {
                Some(nodes.len() - 1)
            } else {
                None
            },
        }
    }
}

/// Position of the first answer text for the given node id, if any.
pub open spec fn first_solution_text(sols: Seq<Solution>, id: u32) -> Option<int>
    decreases sols.len(),
{
    if sols.len() == 0 {
        None
    } else {
        match first_solution_text(sols.drop_last(), id) {
            Some(k) => Some(k),
            None => if sols.last().node_id == id {
                Some(sols.len() - 1)
            } else {
                None
            },
        }
    }
}

/// The solution candidates among the activations, in the activations'
/// order: each activated node for which there is a solution node with its id
/// and an answer text, with the first such node and the first such text.
pub open spec fn spec_candidates(nodes: Seq<Node>, sols: Seq<Solution>, acts: Seq<Activation>) -> Seq<
    Candidate,
>
    decreases acts.len(),
{
    if acts.len() == 0 {
        Seq::empty()
    } else {
        let prev = spec_candidates(nodes, sols, acts.drop_last());
        let a = acts.last();
        match (first_solution_node(nodes, a.node_id), first_solution_text(sols, a.node_id)) {
            (Some(ni), Some(si)) => prev.push(
                Candidate {
                    score_key: a.score_key,
                    node_id: a.node_id,
                    node_index: ni as usize,
                    solution_index: si as usize,
                },
            ),
            _ => prev,
        }
    }
}

/// A found position holds a matching entry, and no earlier one matches.
proof fn lemma_first_solution_node(nodes: Seq<Node>, id: u32)
    ensures
        first_solution_node(nodes, id) matches Some(k) ==> 0 <= k < nodes.len() && is_solution_node(
            nodes[k],
            id,
        ),
        first_solution_node(nodes, id) is None ==> forall|k: int|
            0 <= k < nodes.len() ==> !is_solution_node(#[trigger] nodes[k], id),
    decreases nodes.len(),
{
    if nodes.len() > 0 {
        let rest = nodes.drop_last();
        lemma_first_solution_node(rest, id);
        if first_solution_node(nodes, id) is None {
            assert forall|k: int| 0 <= k < nodes.len() implies !is_solution_node(
                #[trigger] nodes[k],
                id,
            ) by {
                if k < nodes.len() - 1 {
                    assert(nodes[k] == rest[k]);
                }
            }
        }
    }
}

/// A found position holds a matching entry, and no earlier one matches.
proof fn lemma_first_solution_text(sols: Seq<Solution>, id: u32)
    ensures
        first_solution_text(sols, id) matches Some(k) ==> 0 <= k < sols.len() && sols[k].node_id
            == id,
        first_solution_text(sols, id) is None ==> forall|k: int|
            0 <= k < sols.len() ==> (#[trigger] sols[k]).node_id != id,
    decreases sols.len(),
{
    if sols.len() > 0 {
        let rest = sols.drop_last();
        lemma_first_solution_text(rest, id);
        if first_solution_text(sols, id) is None {
            assert forall|k: int| 0 <= k < sols.len() implies (#[trigger] sols[k]).node_id != id by {
                if k < sols.len() - 1 {
                    assert(sols[k] == rest[k]);
                }
            }
        }
    }
}

/// Candidates taken from activations with increasing ids have increasing ids,
/// none above the last activation's.
proof fn lemma_candidates_increasing(nodes: Seq<Node>, sols: Seq<Solution>, acts: Seq<Activation>)
    requires
        ids_ascending(acts),
    ensures
        ids_increasing(spec_candidates(nodes, sols, acts)),
        acts.len() > 0 ==> forall|k: int|
            0 <= k < spec_candidates(nodes, sols, acts).len() ==> (#[trigger] spec_candidates(
                nodes,
                sols,
                acts,
            )[k]).node_id <= acts.last().node_id,
    decreases acts.len(),
{
    if acts.len() > 0 {
        let rest = acts.drop_last();
        assert(ids_ascending(rest));
        lemma_candidates_increasing(nodes, sols, rest);
        if rest.len() > 0 {
            assert(rest.last().node_id < acts.last().node_id);
        }
    }
}

/// Every candidate names a solution node with its id and an answer text for it.
pub open spec fn candidates_valid(nodes: Seq<Node>, sols: Seq<Solution>, c: Seq<Candidate>) -> bool {
    forall|k: int|
        0 <= k < c.len() ==> {
            &&& (#[trigger] c[k]).node_index < nodes.len()
            &&& is_solution_node(nodes[c[k].node_index as int], c[k].node_id)
            &&& c[k].solution_index < sols.len()
            &&& sols[c[k].solution_index as int].node_id == c[k].node_id
        }
}

proof fn lemma_candidates_valid(nodes: Seq<Node>, sols: Seq<Solution>, acts: Seq<Activation>)
    requires
        nodes.len() <= usize::MAX,
        sols.len() <= usize::MAX,
    ensures
        candidates_valid(nodes, sols, spec_candidates(nodes, sols, acts)),
    decreases acts.len(),
{
    if acts.len() > 0 {
        let prev = spec_candidates(nodes, sols, acts.drop_last());
        let c = spec_candidates(nodes, sols, acts);
        lemma_candidates_valid(nodes, sols, acts.drop_last());
        lemma_first_solution_node(nodes, acts.last().node_id);
        lemma_first_solution_text(sols, acts.last().node_id);
        assert forall|k: int| 0 <= k < prev.len() implies #[trigger] c[k] == prev[k] by {}
        assert(candidates_valid(nodes, sols, prev));
        assert forall|k: int| 0 <= k < c.len() implies {
            &&& (#[trigger] c[k]).node_index < nodes.len()
            &&& is_solution_node(nodes[c[k].node_index as int], c[k].node_id)
            &&& c[k].solution_index < sols.len()
            &&& sols[c[k].solution_index as int].node_id == c[k].node_id
        } by {
            if k < prev.len() {
                assert(c[k] == prev[k]);
            }
        }
    }
}

/// The candidates are exactly the activated solution nodes that have an
/// answer text: every such activation yields a candidate with its id and
/// score, and every candidate comes from such an activation.
pub proof fn lemma_candidates_are_activated_solutions(
    nodes: Seq<Node>,
    sols: Seq<Solution>,
    acts: Seq<Activation>,
)
    ensures
        forall|i: int|
            0 <= i < acts.len() && first_solution_node(nodes, #[trigger] acts[i].node_id) is Some
                && first_solution_text(sols, acts[i].node_id) is Some ==> exists|k: int|
                0 <= k < spec_candidates(nodes, sols, acts).len() && #[trigger] spec_candidates(
                    nodes,
                    sols,
                    acts,
                )[k].node_id == acts[i].node_id && spec_candidates(nodes, sols, acts)[k].score_key
                    == acts[i].score_key,
        forall|k: int|
            0 <= k < spec_candidates(nodes, sols, acts).len() ==> exists|i: int|
                0 <= i < acts.len() && (#[trigger] spec_candidates(nodes, sols, acts)[k]).node_id
                    == acts[i].node_id && spec_candidates(nodes, sols, acts)[k].score_key
                    == acts[i].score_key && first_solution_node(nodes, acts[i].node_id) is Some
                    && first_solution_text(sols, acts[i].node_id) is Some,
    decreases acts.len(),
{
    if acts.len() > 0 {
        let rest = acts.drop_last();
        let prev = spec_candidates(nodes, sols, rest);
        let c = spec_candidates(nodes, sols, acts);
        lemma_candidates_are_activated_solutions(nodes, sols, rest);
        assert forall|k: int| 0 <= k < prev.len() implies #[trigger] c[k] == prev[k] by {}
        assert forall|i: int|
            0 <= i < acts.len() && first_solution_node(nodes, #[trigger] acts[i].node_id) is Some
                && first_solution_text(sols, acts[i].node_id) is Some implies exists|k: int|
            0 <= k < c.len() && #[trigger] c[k].node_id == acts[i].node_id && c[k].score_key
                == acts[i].score_key by {
            if i < rest.len() {
                assert(acts[i] == rest[i]);
                assert(first_solution_node(nodes, rest[i].node_id) is Some);
                let k = choose|k: int|
                    0 <= k < prev.len() && #[trigger] prev[k].node_id == rest[i].node_id
                        && prev[k].score_key == rest[i].score_key;
                assert(c[k] == prev[k]);
            } else {
                assert(c[c.len() - 1].node_id == acts[i].node_id);
            }
        }
        assert forall|k: int| 0 <= k < c.len() implies exists|i: int|
            0 <= i < acts.len() && (#[trigger] c[k]).node_id == acts[i].node_id && c[k].score_key
                == acts[i].score_key && first_solution_node(nodes, acts[i].node_id) is Some
                && first_solution_text(sols, acts[i].node_id) is Some by {
            if k < prev.len() {
                let i = choose|i: int|
                    0 <= i < rest.len() && (#[trigger] prev[k]).node_id == rest[i].node_id
                        && prev[k].score_key == rest[i].score_key && first_solution_node(
                        nodes,
                        rest[i].node_id,
                    ) is Some && first_solution_text(sols, rest[i].node_id) is Some;
                assert(acts[i] == rest[i]);
            } else {
                let i = acts.len() - 1;
                assert(acts[i] == acts.last());
            }
        }
    }
}


impl<'a> Engine<'a> {
    /// Position of the first solution node with the given id.
    fn find_solution_node(&self, id: u32) -> (r: Option<usize>)
        ensures
            r == (match first_solution_node(self.knowledge().nodes@, id) {
                Some(k) => Some(k as usize),
                None => None::<usize>,
            }),
    {
        let nodes = &self.knowledge_base().nodes;
        let mut i: usize = 0;
        while i < nodes.len()
            invariant
                nodes == &self.knowledge().nodes,
                0 <= i <= nodes@.len(),
                first_solution_node(nodes@.take(i as int), id) is None,
            decreases nodes@.len() - i,
        {
            assert(nodes@.take(i + 1).drop_last() =~= nodes@.take(i as int));
            if nodes[i].id == id && nodes[i].kind == NodeKind::Solution {
                proof {
                    lemma_first_prefix_node(nodes@, i as int, id);
                }
                return Some(i);
            }
            i += 1;
        }
        assert(nodes@.take(nodes@.len() as int) =~= nodes@);
        None
    }

    /// Position of the first answer text for the given node id.
    fn find_solution_text(&self, id: u32) -> (r: Option<usize>)
        ensures
            r == (match first_solution_text(self.knowledge().solutions@, id) {
                Some(k) => Some(k as usize),
                None => None::<usize>,
            }),
    {
        let sols = &self.knowledge_base().solutions;
        let mut i: usize = 0;
        while i < sols.len()
            invariant
                sols == &self.knowledge().solutions,
                0 <= i <= sols@.len(),
                first_solution_text(sols@.take(i as int), id) is None,
            decreases sols@.len() - i,
        {
            assert(sols@.take(i + 1).drop_last() =~= sols@.take(i as int));
            if sols[i].node_id == id {
                proof {
                    lemma_first_prefix_text(sols@, i as int, id);
                }
                return Some(i);
            }
            i += 1;
        }
        assert(sols@.take(sols@.len() as int) =~= sols@);
        None
    }

    /// The solution candidates among the activations, in the activations'
    /// order: every activated node that is a solution node with an answer
    /// text, paired with the first such node and the first such text.
    pub fn solution_candidates(&self, acts: &Vec<Activation>) -> (r: Vec<Candidate>)
        ensures
            r@ == spec_candidates(self.knowledge().nodes@, self.knowledge().solutions@, acts@),
            candidates_valid(self.knowledge().nodes@, self.knowledge().solutions@, r@),
    {
        let ghost nodes = self.knowledge().nodes@;
        let ghost sols = self.knowledge().solutions@;
        let mut out: Vec<Candidate> = Vec::new();
        let mut i: usize = 0;
        assert(acts@.take(0) =~= Seq::<Activation>::empty());
        while i < acts.len()
            invariant
                nodes == self.knowledge().nodes@,
                sols == self.knowledge().solutions@,
                0 <= i <= acts@.len(),
                out@ == spec_candidates(nodes, sols, acts@.take(i as int)),
            decreases acts@.len() - i,
        {
            let a = acts[i];
            assert(acts@.take(i + 1).drop_last() =~= acts@.take(i as int));
            let ni = self.find_solution_node(a.node_id);
            let si = self.find_solution_text(a.node_id);
            match (ni, si) {
                (Some(ni), Some(si)) => {
                    out.push(
                        Candidate {
                            score_key: a.score_key,
                            node_id: a.node_id,
                            node_index: ni,
                            solution_index: si,
                        },
                    );
                },
                _ => {},
            }
            i += 1;
        }
        assert(acts@.take(acts@.len() as int) =~= acts@);
        let node_count = self.knowledge_base().nodes.len();
        let solution_count = self.knowledge_base().solutions.len();
        proof {
            assert(nodes.len() == node_count && sols.len() == solution_count);
            lemma_candidates_valid(nodes, sols, acts@);
        }
        out
    }

    /// The ranked solution candidates among the activations: highest score
    /// first, equal scores by node id, highest first.
    pub fn rank_solutions(&self, acts: &Vec<Activation>) -> (r: Vec<Candidate>)
        requires
            ids_ascending(acts@),
        ensures
            is_ranking(
                spec_candidates(self.knowledge().nodes@, self.knowledge().solutions@, acts@),
                r@,
            ),
    {
        let cands = self.solution_candidates(acts);
        proof {
            lemma_candidates_increasing(
                self.knowledge().nodes@,
                self.knowledge().solutions@,
                acts@,
            );
        }
        rank(&cands)
    }
}

/// The first match in a prefix that had none before its last entry is that entry.
proof fn lemma_first_prefix_node(nodes: Seq<Node>, i: int, id: u32)
    requires
        0 <= i < nodes.len(),
        first_solution_node(nodes.take(i), id) is None,
        is_solution_node(nodes[i], id),
    ensures
        first_solution_node(nodes, id) == Some(i),
{
    lemma_first_extends_node(nodes, i + 1, id);
    assert(nodes.take(i + 1).drop_last() =~= nodes.take(i));
}

/// Searching a longer sequence finds what a prefix finds.
proof fn lemma_first_extends_node(nodes: Seq<Node>, m: int, id: u32)
    requires
        0 <= m <= nodes.len(),
        first_solution_node(nodes.take(m), id) is Some,
    ensures
        first_solution_node(nodes, id) == first_solution_node(nodes.take(m), id),
    decreases nodes.len() - m,
{
    if m < nodes.len() {
        assert(nodes.take(m + 1).drop_last() =~= nodes.take(m));
        lemma_first_extends_node(nodes, m + 1, id);
    } else {
        assert(nodes.take(m) =~= nodes);
    }
}

/// The first match in a prefix that had none before its last entry is that entry.
proof fn lemma_first_prefix_text(sols: Seq<Solution>, i: int, id: u32)
    requires
        0 <= i < sols.len(),
        first_solution_text(sols.take(i), id) is None,
        sols[i].node_id == id,
    ensures
        first_solution_text(sols, id) == Some(i),
{
    lemma_first_extends_text(sols, i + 1, id);
    assert(sols.take(i + 1).drop_last() =~= sols.take(i));
}

/// Searching a longer sequence finds what a prefix finds.
proof fn lemma_first_extends_text(sols: Seq<Solution>, m: int, id: u32)
    requires
        0 <= m <= sols.len(),
        first_solution_text(sols.take(m), id) is Some,
    ensures
        first_solution_text(sols, id) == first_solution_text(sols.take(m), id),
    decreases sols.len() - m,
{
    if m < sols.len() {
        assert(sols.take(m + 1).drop_last() =~= sols.take(m));
        lemma_first_extends_text(sols, m + 1, id);
    } else {
        assert(sols.take(m) =~= sols);
    }
}

} // verus!
