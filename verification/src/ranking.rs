//! Ranking of solution candidates: by activation score, highest first, with
//! ties broken by node id, highest first. The ranking of a set of candidates
//! is unique, which is what makes query output reproducible.

use vstd::prelude::*;

verus! {

/// A solution candidate: an activated solution node together with the
/// positions of its node and of its answer text in the knowledge base.
///
/// `score_key` orders candidates as their activation scores do: for the
/// non-negative scores that activation produces, the 32-bit IEEE pattern of a
/// score is such a key.
#[derive(Debug, Clone, Copy, PartialEq, Eq, Structural)]
pub struct Candidate {
    /// Order key of the candidate's activation score.
    pub score_key: u32,
    /// Id of the solution node.
    pub node_id: u32,
    /// Position of the node in the knowledge base's node list.
    pub node_index: usize,
    /// Position of the answer text in the knowledge base's solution list.
    pub solution_index: usize,
}

/// Whether `a` ranks before `b`: a higher score first, and among equal
/// scores the higher node id first.
pub open spec fn precedes(a: Candidate, b: Candidate) -> bool {
    a.score_key > b.score_key || (a.score_key == b.score_key && a.node_id > b.node_id)
}

/// Every candidate ranks strictly before every later one.
pub open spec fn strictly_ranked(r: Seq<Candidate>) -> bool {
    forall|i: int, j: int| 0 <= i < j < r.len() ==> precedes(#[trigger] r[i], #[trigger] r[j])
}

/// `r` is the ranking of the candidates `c`: the same candidates, each one
/// before every candidate it precedes.
pub open spec fn is_ranking(c: Seq<Candidate>, r: Seq<Candidate>) -> bool {
    &&& r.len() == c.len()
    &&& forall|k: int| 0 <= k < r.len() ==> c.contains(#[trigger] r[k])
    &&& forall|k: int| 0 <= k < c.len() ==> r.contains(#[trigger] c[k])
    &&& strictly_ranked(r)
}

/// The candidates' node ids increase strictly along the sequence, as they do
/// when the candidates are taken from activations ordered by node id.
pub open spec fn ids_increasing(c: Seq<Candidate>) -> bool {
    forall|i: int, j: int| 0 <= i < j < c.len() ==> #[trigger] c[i].node_id < #[trigger] c[j].node_id
}

/// Whether `a` ranks before `b`.
pub fn ranks_before(a: &Candidate, b: &Candidate) -> (r: bool)
    ensures
        r == precedes(*a, *b),
{
    a.score_key > b.score_key || (a.score_key == b.score_key && a.node_id > b.node_id)
}

/// Inserting `x` at `p` into a strictly ranked sequence keeps it strictly
/// ranked when everything before `p` precedes `x` and `x` precedes
/// everything from `p` on.
proof fn lemma_insert_ranked(s: Seq<Candidate>, p: int, x: Candidate)
    requires
        0 <= p <= s.len(),
        strictly_ranked(s),
        forall|k: int| 0 <= k < p ==> precedes(#[trigger] s[k], x),
        forall|k: int| p <= k < s.len() ==> precedes(x, #[trigger] s[k]),
    ensures
        strictly_ranked(s.insert(p, x)),
{
    let t = s.insert(p, x);
    assert forall|i: int, j: int| 0 <= i < j < t.len() implies precedes(
        #[trigger] t[i],
        #[trigger] t[j],
    ) by {
        if i < p {
            assert(t[i] == s[i]);
            if j < p {
                assert(t[j] == s[j]);
            } else if j == p {
            } else {
                assert(t[j] == s[j - 1]);
            }
        } else if i == p {
            assert(t[j] == s[j - 1]);
        } else {
            assert(t[i] == s[i - 1]);
            assert(t[j] == s[j - 1]);
        }
    }
}

/// Rank the candidates: highest score first, equal scores by node id,
/// highest first.
pub fn rank(cands: &Vec<Candidate>) -> (r: Vec<Candidate>)
    requires
        ids_increasing(cands@),
    ensures
        is_ranking(cands@, r@),
{
    let ghost c = cands@;
    let n = cands.len();
    let mut out: Vec<Candidate> = Vec::new();
    let mut i: usize = 0;
    while i < n
        invariant
            n == c.len(),
            c == cands@,
            ids_increasing(c),
            0 <= i <= n,
            out@.len() == i,
            forall|k: int| 0 <= k < out@.len() ==> exists|j: int| 0 <= j < i && #[trigger] out@[k] == c[j],
            forall|j: int| 0 <= j < i ==> out@.contains(#[trigger] c[j]),
            strictly_ranked(out@),
        decreases n - i,
    {
        let x = cands[i];
        assert forall|k: int| 0 <= k < out@.len() implies #[trigger] out@[k].node_id < x.node_id by {
            let j = choose|j: int| 0 <= j < i && out@[k] == c[j];
        }
        let mut p: usize = 0;
        while p < out.len() && ranks_before(&out[p], &x)
            invariant
                0 <= p <= out@.len(),
                forall|k: int| 0 <= k < p ==> precedes(#[trigger] out@[k], x),
            decreases out@.len() - p,
        {
            p += 1;
        }
        let ghost old_out = out@;
        proof {
            assert forall|k: int| p <= k < old_out.len() implies precedes(x, #[trigger] old_out[k]) by {
                assert(precedes(x, old_out[p as int]));
                if k > p {
                    assert(precedes(old_out[p as int], old_out[k]));
                }
            }
            lemma_insert_ranked(old_out, p as int, x);
        }
        out.insert(p, x);
        proof {
            assert forall|k: int| 0 <= k < out@.len() implies exists|j: int|
                0 <= j < i + 1 && #[trigger] out@[k] == c[j] by {
                if k < p {
                    assert(out@[k] == old_out[k]);
                    let j = choose|j: int| 0 <= j < i && old_out[k] == c[j];
                    assert(0 <= j < i + 1 && out@[k] == c[j]);
                } else if k == p {
                    assert(out@[k] == c[i as int]);
                } else {
                    assert(out@[k] == old_out[k - 1]);
                    let j = choose|j: int| 0 <= j < i && old_out[k - 1] == c[j];
                    assert(0 <= j < i + 1 && out@[k] == c[j]);
                }
            }
            assert forall|j: int| 0 <= j < i + 1 implies out@.contains(#[trigger] c[j]) by {
                if j < i {
                    assert(old_out.contains(c[j]));
                    let k = choose|k: int| 0 <= k < old_out.len() && old_out[k] == c[j];
                    if k < p {
                        assert(out@[k] == c[j]);
                    } else {
                        assert(out@[k + 1] == c[j]);
                    }
                } else {
                    assert(out@[p as int] == c[j]);
                }
            }
        }
        i += 1;
    }
    proof {
        assert forall|k: int| 0 <= k < out@.len() implies c.contains(#[trigger] out@[k]) by {
            let j = choose|j: int| 0 <= j < n && out@[k] == c[j];
        }
    }
    out
}


/// Two strictly ranked sequences with the same length and the same members
/// are equal.
proof fn lemma_ranked_members_determine(r1: Seq<Candidate>, r2: Seq<Candidate>)
    requires
        strictly_ranked(r1),
        strictly_ranked(r2),
        r1.len() == r2.len(),
        forall|x: Candidate| r1.contains(x) <==> r2.contains(x),
    ensures
        r1 == r2,
    decreases r1.len(),
{
    if r1.len() == 0 {
        assert(r1 =~= r2);
    } else {
        assert(r1.contains(r1[0]));
        assert(r2.contains(r2[0]));
        let m = choose|m: int| 0 <= m < r2.len() && r2[m] == r1[0];
        let m2 = choose|m: int| 0 <= m < r1.len() && r1[m] == r2[0];
        if m > 0 {
            assert(precedes(r2[0], r2[m]));
            if m2 > 0 {
                assert(precedes(r1[0], r1[m2]));
            }
        }
        assert(r1[0] == r2[0]);
        let t1 = r1.drop_first();
        let t2 = r2.drop_first();
        assert forall|x: Candidate| t1.contains(x) <==> t2.contains(x) by {
            if t1.contains(x) {
                let k = choose|k: int| 0 <= k < t1.len() && t1[k] == x;
                assert(r1[k + 1] == x);
                assert(precedes(r1[0], r1[k + 1]));
                assert(r2.contains(x));
                let k2 = choose|k: int| 0 <= k < r2.len() && r2[k] == x;
                assert(k2 != 0);
                assert(t2[k2 - 1] == x);
            }
            if t2.contains(x) {
                let k = choose|k: int| 0 <= k < t2.len() && t2[k] == x;
                assert(r2[k + 1] == x);
                assert(precedes(r2[0], r2[k + 1]));
                assert(r1.contains(x));
                let k1 = choose|k: int| 0 <= k < r1.len() && r1[k] == x;
                assert(k1 != 0);
                assert(t1[k1 - 1] == x);
            }
        }
        assert forall|i: int, j: int| 0 <= i < j < t1.len() implies precedes(
            #[trigger] t1[i],
            #[trigger] t1[j],
        ) by {
            assert(precedes(r1[i + 1], r1[j + 1]));
        }
        assert forall|i: int, j: int| 0 <= i < j < t2.len() implies precedes(
            #[trigger] t2[i],
            #[trigger] t2[j],
        ) by {
            assert(precedes(r2[i + 1], r2[j + 1]));
        }
        lemma_ranked_members_determine(t1, t2);
        assert(r1 =~= r2) by {
            assert forall|k: int| 0 <= k < r1.len() implies r1[k] == r2[k] by {
                if k > 0 {
                    assert(r1[k] == t1[k - 1]);
                    assert(r2[k] == t2[k - 1]);
                }
            }
        }
    }
}

/// The ranking of a set of candidates is unique: two rankings of the same
/// candidates are the same sequence, so equal scores never leave the order
/// of the result open.
pub proof fn lemma_ranking_unique(c: Seq<Candidate>, r1: Seq<Candidate>, r2: Seq<Candidate>)
    requires
        is_ranking(c, r1),
        is_ranking(c, r2),
    ensures
        r1 == r2,
{
    assert forall|x: Candidate| r1.contains(x) <==> r2.contains(x) by {
        if r1.contains(x) {
            let k = choose|k: int| 0 <= k < r1.len() && r1[k] == x;
            assert(c.contains(r1[k]));
            let j = choose|j: int| 0 <= j < c.len() && c[j] == x;
            assert(r2.contains(c[j]));
        }
        if r2.contains(x) {
            let k = choose|k: int| 0 <= k < r2.len() && r2[k] == x;
            assert(c.contains(r2[k]));
            let j = choose|j: int| 0 <= j < c.len() && c[j] == x;
            assert(r1.contains(c[j]));
        }
    }
    lemma_ranked_members_determine(r1, r2);
}

} // verus!
