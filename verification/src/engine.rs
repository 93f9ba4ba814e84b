//! The reasoning engine's exact parts: tokenising a query, the nodes it
//! seeds, the edges along which activation spreads, and the confidence
//! classification of the result. Seeding tiers and the ranking of solution
//! candidates have modules of their own.

use vstd::prelude::*;
use vstd::string::StrSliceExecFns;

use crate::knowledge::KnowledgeBase;
use crate::model::{views, ConfidenceLevel, Edge, Node};
use crate::format::{joined, lemma_joined_chars, lemma_pieces_of_joined};
use crate::seeding::{seed_tier, spec_seeds, MatchTier, Seed};
use crate::text::{
    is_alphanumeric, is_stop_word, lemma_pieces_avoid_separators, lemma_pieces_nonempty,
    lemma_pieces_step, ascii_lower, ascii_text, ascii_upper, lemma_filter_all, lemma_pieces_chars,
    lemma_pieces_concat, lower_text, pieces, push_char, stop_words, to_lowercase, word_char,
};

verus! {

/// The characters at which a query is split into words.
pub open spec fn word_separator() -> spec_fn(char) -> bool {
    |c: char| !word_char(c)
}

/// A word that the tokeniser keeps: non-empty and not a stop word.
pub open spec fn is_keyword(w: Seq<char>) -> bool {
    w.len() > 0 && !stop_words().contains(w)
}

/// The keyword predicate as a value, for filtering.
pub open spec fn keyword_filter() -> spec_fn(Seq<char>) -> bool {
    |w: Seq<char>| is_keyword(w)
}

/// The tokens of a query: its lower-cased text split at every
/// non-alphanumeric character, keeping the non-empty pieces that are not stop
/// words, in order.
pub open spec fn spec_tokenise(input: Seq<char>) -> Seq<Seq<char>> {
    pieces(lower_text(input), word_separator()).filter(keyword_filter())
}

/// Every token is a keyword made of alphanumeric characters only: no token
/// is empty, none is a stop word, and none holds a separator.
pub proof fn lemma_tokens_are_keywords(input: Seq<char>)
    ensures
        forall|i: int|
            0 <= i < spec_tokenise(input).len() ==> is_keyword(#[trigger] spec_tokenise(input)[i]),
        forall|i: int, j: int|
            0 <= i < spec_tokenise(input).len() && 0 <= j < spec_tokenise(input)[i].len()
                ==> word_char(#[trigger] spec_tokenise(input)[i][j]),
{
    let ps = pieces(lower_text(input), word_separator());
    let toks = spec_tokenise(input);
    lemma_pieces_avoid_separators(lower_text(input), word_separator());
    assert forall|i: int| 0 <= i < toks.len() implies is_keyword(#[trigger] toks[i]) by {
        ps.lemma_filter_pred(keyword_filter(), i);
    }
    assert forall|i: int, j: int| 0 <= i < toks.len() && 0 <= j < toks[i].len() implies word_char(
        #[trigger] toks[i][j],
    ) by {
        assert(toks.contains(toks[i]));
        ps.lemma_filter_contains_rev(keyword_filter(), toks[i]);
        let k = choose|k: int| 0 <= k < ps.len() && ps[k] == toks[i];
        assert(!(word_separator())(ps[k][j]));
    }
}

/// Every token of ASCII text is made of ASCII small letters and digits: no
/// capital letter survives tokenising.
pub proof fn lemma_ascii_tokens_lowercase(input: Seq<char>)
    requires
        ascii_text(input),
    ensures
        forall|i: int, j: int|
            0 <= i < spec_tokenise(input).len() && 0 <= j < spec_tokenise(input)[i].len() ==> {
                let c = #[trigger] spec_tokenise(input)[i][j];
                &&& (c as u32) < 128
                &&& !ascii_upper(c)
                &&& word_char(c)
            },
{
    let low = lower_text(input);
    let ps = pieces(low, word_separator());
    let toks = spec_tokenise(input);
    lemma_tokens_are_keywords(input);
    lemma_pieces_chars(low, word_separator());
    assert(low =~= input.map_values(|c: char| ascii_lower(c)));
    assert forall|i: int, j: int| 0 <= i < toks.len() && 0 <= j < toks[i].len() implies {
        let c = #[trigger] toks[i][j];
        &&& (c as u32) < 128
        &&& !ascii_upper(c)
        &&& word_char(c)
    } by {
        assert(toks.contains(toks[i]));
        ps.lemma_filter_contains_rev(keyword_filter(), toks[i]);
        let k = choose|k: int| 0 <= k < ps.len() && ps[k] == toks[i];
        assert(low.contains(ps[k][j]));
        let m = choose|m: int| 0 <= m < low.len() && low[m] == ps[k][j];
        assert(low[m] == ascii_lower(input[m]));
        assert((input[m] as u32) < 128);
    }
}

/// On ASCII text, letter case does not matter: texts that agree up to ASCII
/// case have the same tokens.
pub proof fn lemma_tokenise_ignores_ascii_case(a: Seq<char>, b: Seq<char>)
    requires
        ascii_text(a),
        ascii_text(b),
        a.len() == b.len(),
        forall|i: int| 0 <= i < a.len() ==> ascii_lower(#[trigger] a[i]) == ascii_lower(b[i]),
    ensures
        spec_tokenise(a) == spec_tokenise(b),
{
    assert(lower_text(a) =~= lower_text(b));
}

/// Tokenising the tokens of ASCII text, joined by single spaces, gives the
/// same tokens back.
pub proof fn lemma_tokenise_idempotent(input: Seq<char>)
    requires
        ascii_text(input),
    ensures
        spec_tokenise(joined(spec_tokenise(input), seq![' '])) == spec_tokenise(input),
{
    let t = spec_tokenise(input);
    let jt = joined(t, seq![' ']);
    lemma_ascii_tokens_lowercase(input);
    lemma_tokens_are_keywords(input);
    let p = |c: char| (c as u32) < 128 && !ascii_upper(c);
    assert forall|i: int, j: int| 0 <= i < t.len() && 0 <= j < t[i].len() implies p(
        #[trigger] t[i][j],
    ) by {}
    assert forall|j: int| 0 <= j < seq![' '].len() implies p(#[trigger] seq![' '][j]) by {}
    lemma_joined_chars(t, seq![' '], p);
    assert(ascii_text(jt)) by {
        assert forall|i: int| 0 <= i < jt.len() implies (#[trigger] jt[i] as u32) < 128 by {
            assert(p(jt[i]));
        }
    }
    assert(lower_text(jt) =~= jt) by {
        assert forall|i: int| 0 <= i < jt.len() implies ascii_lower(#[trigger] jt[i]) == jt[i] by {
            assert(p(jt[i]));
        }
    }
    if t.len() == 0 {
        assert(jt =~= Seq::<char>::empty());
        reveal_with_fuel(Seq::filter, 2);
        assert(pieces(jt, word_separator()) =~= seq![Seq::<char>::empty()]);
        assert(!is_keyword(Seq::<char>::empty()));
        assert(seq![Seq::<char>::empty()].filter(keyword_filter()) =~= Seq::<Seq<char>>::empty());
    } else {
        assert((word_separator())(' '));
        assert forall|i: int, j: int| 0 <= i < t.len() && 0 <= j < t[i].len() implies !(
        word_separator())(#[trigger] t[i][j]) by {}
        lemma_pieces_of_joined(t, ' ', word_separator());
        assert forall|i: int| 0 <= i < t.len() implies (keyword_filter())(#[trigger] t[i]) by {}
        lemma_filter_all(t, keyword_filter());
    }
}

/// Tokenising two ASCII texts joined by a space gives the tokens of the first
/// followed by the tokens of the second.
pub proof fn lemma_tokenise_concat(a: Seq<char>, b: Seq<char>)
    requires
        ascii_text(a),
        ascii_text(b),
    ensures
        spec_tokenise(a + seq![' '] + b) == spec_tokenise(a) + spec_tokenise(b),
{
    let s = a + seq![' '] + b;
    assert(ascii_text(s)) by {
        assert forall|i: int| 0 <= i < s.len() implies (#[trigger] s[i] as u32) < 128 by {
            if i < a.len() {
                assert(s[i] == a[i]);
            } else if i > a.len() {
                assert(s[i] == b[i - a.len() - 1]);
            }
        }
    }
    assert(lower_text(s) =~= lower_text(a) + seq![' '] + lower_text(b));
    assert((word_separator())(' '));
    lemma_pieces_concat(lower_text(a), ' ', lower_text(b), word_separator());
    Seq::filter_distributes_over_add(
        pieces(lower_text(a), word_separator()),
        pieces(lower_text(b), word_separator()),
        keyword_filter(),
    );
}

/// The query engine: pure computation over an immutable knowledge base.
pub struct Engine<'a> {
    kb: &'a KnowledgeBase,
}

impl<'a> Engine<'a> {
    /// The knowledge base the engine reads.
    pub closed spec fn knowledge(&self) -> &'a KnowledgeBase {
        self.kb
    }

    /// Create an engine over the given knowledge base.
    pub fn new(kb: &'a KnowledgeBase) -> (e: Self)
        ensures
            e.knowledge() == kb,
    {
        Engine { kb }
    }

    /// The knowledge base the engine reads.
    pub fn knowledge_base(&self) -> (kb: &'a KnowledgeBase)
        ensures
            kb == self.knowledge(),
    {
        self.kb
    }

    /// Tokenise a query into lowercase keyword tokens: split on
    /// non-alphanumerics and drop empty pieces and stop words.
    pub fn tokenise(&self, input: &str) -> (r: Vec<String>)
        ensures
            views(r@) == spec_tokenise(input@),
    {
        tokenise(input)
    }
}

/// Whether a piece is kept as a token.
fn keeps(w: &String) -> (r: bool)
    ensures
        r == is_keyword(w@),
{
    if w.as_str().is_empty() {
        false
    } else {
        !is_stop_word(w)
    }
}

/// Tokenise a query into lowercase keyword tokens.
fn tokenise(input: &str) -> (r: Vec<String>)
    ensures
        views(r@) == spec_tokenise(input@),
{
    let lowered = to_lowercase(input);
    let text = lowered.as_str();
    let ghost low = lowered@;
    let ghost sep = word_separator();
    let ghost keep = keyword_filter();
    let n = text.unicode_len();
    let mut out: Vec<String> = Vec::new();
    let mut cur = String::new();
    let mut i: usize = 0;
    assert(low.take(0) =~= Seq::<char>::empty());
    assert(pieces(low.take(0), sep).drop_last() =~= Seq::<Seq<char>>::empty());
    while i < n
        invariant
            n == low.len(),
            text@ == low,
            low == lower_text(input@),
            sep == word_separator(),
            keep == keyword_filter(),
            0 <= i <= n,
            views(out@) == pieces(low.take(i as int), sep).drop_last().filter(keep),
            cur@ == pieces(low.take(i as int), sep).last(),
        decreases n - i,
    {
        let c = text.get_char(i);
        proof {
            lemma_pieces_step(low, i as int, sep);
        }
        let ghost prev = pieces(low.take(i as int), sep);
        if !is_alphanumeric(c) {
            proof {
                reveal_with_fuel(Seq::filter, 1);
                assert(prev.len() > 0);
                assert(prev.filter(keep) == (if keep(prev.last()) {
                    prev.drop_last().filter(keep).push(prev.last())
                } else {
                    prev.drop_last().filter(keep)
                }));
                assert(pieces(low.take(i + 1), sep).drop_last() =~= prev);
            }
            if keeps(&cur) {
                let ghost before = out@;
                out.push(cur);
                assert(views(out@) =~= views(before).push(prev.last()));
            }
            cur = String::new();
        } else {
            push_char(&mut cur, c);
        }
        i += 1;
    }
    let ghost all = pieces(low.take(n as int), sep);
    assert(low.take(n as int) =~= low);
    proof {
        lemma_pieces_nonempty(low, sep);
        reveal_with_fuel(Seq::filter, 1);
        assert(all.filter(keep) == (if keep(all.last()) {
            all.drop_last().filter(keep).push(all.last())
        } else {
            all.drop_last().filter(keep)
        }));
    }
    if keeps(&cur) {
        let ghost before = out@;
        out.push(cur);
        assert(views(out@) =~= views(before).push(all.last()));
    }
    out
}

/// The classification of a query's result from the number of ranked
/// candidates, whether the top score reaches the answer threshold, and
/// whether its gap to the second score reaches the disambiguation threshold.
pub open spec fn spec_confidence(candidates: nat, top_reaches_answer: bool, gap_reaches_disambiguation: bool) -> ConfidenceLevel {
    if candidates == 0 {
        ConfidenceLevel::Unknown
    } else if !top_reaches_answer {
        ConfidenceLevel::Low
    } else if candidates == 1 || gap_reaches_disambiguation {
        ConfidenceLevel::High
    } else {
        ConfidenceLevel::Medium
    }
}

/// Classify a query's result: `Unknown` without candidates; `Low` when the
/// top score is below the answer threshold; `High` when it reaches it and
/// either stands alone or leads the second by at least the disambiguation
/// threshold; `Medium` when it reaches it but the lead is smaller.
pub fn classify_confidence(candidates: usize, top_reaches_answer: bool, gap_reaches_disambiguation: bool) -> (c: ConfidenceLevel)
    ensures
        c == spec_confidence(candidates as nat, top_reaches_answer, gap_reaches_disambiguation),
        c == ConfidenceLevel::Unknown <==> candidates == 0,
        c == ConfidenceLevel::Low <==> candidates > 0 && !top_reaches_answer,
        c == ConfidenceLevel::High <==> candidates > 0 && top_reaches_answer && (candidates == 1
            || gap_reaches_disambiguation),
        c == ConfidenceLevel::Medium <==> candidates > 1 && top_reaches_answer
            && !gap_reaches_disambiguation,
{
    if candidates == 0 {
        ConfidenceLevel::Unknown
    } else if top_reaches_answer {
        if candidates > 1 {
            if gap_reaches_disambiguation {
                ConfidenceLevel::High
            } else {
                ConfidenceLevel::Medium
            }
        } else {
            ConfidenceLevel::High
        }
    } else {
        ConfidenceLevel::Low
    }
}

/// The positions of the edges leaving an active node, in edge order.
pub open spec fn spec_frontier(edges: Seq<Edge>, active: Seq<u32>) -> Seq<usize>
    decreases edges.len(),
{
    if edges.len() == 0 {
        Seq::empty()
    } else {
        let prev = spec_frontier(edges.drop_last(), active);
        if active.contains(edges.last().src) {
            prev.push((edges.len() - 1) as usize)
        } else {
            prev
        }
    }
}

/// Position of the last node with the given id, if any: the node an id
/// resolves to when later entries replace earlier ones.
pub open spec fn last_node_with_id(nodes: Seq<Node>, id: u32) -> Option<int>
    decreases nodes.len(),
{
    if nodes.len() == 0 {
        None
    } else if nodes.last().id == id {
        Some(nodes.len() - 1)
    } else {
        last_node_with_id(nodes.drop_last(), id)
    }
}

/// Whether the number is one of the given ones.
fn contains_id(v: &Vec<u32>, x: u32) -> (r: bool)
    ensures
        r == v@.contains(x),
{
    let mut i: usize = 0;
    while i < v.len()
        invariant
            0 <= i <= v@.len(),
            forall|j: int| 0 <= j < i ==> v@[j] != x,
        decreases v@.len() - i,
    {
        if v[i] == x {
            return true;
        }
        i += 1;
    }
    false
}

impl<'a> Engine<'a> {
    /// The nodes the query's tokens seed, in node order, each with the
    /// strongest tier by which a token matches it.
    pub fn seeds(&self, tokens: &Vec<String>) -> (r: Vec<Seed>)
        ensures
            r@ == spec_seeds(self.knowledge().nodes@, views(tokens@)),
    {
        let nodes = &self.kb.nodes;
        let mut out: Vec<Seed> = Vec::new();
        let mut i: usize = 0;
        while i < nodes.len()
            invariant
                nodes == &self.knowledge().nodes,
                0 <= i <= nodes@.len(),
                out@ == spec_seeds(nodes@.take(i as int), views(tokens@)),
            decreases nodes@.len() - i,
        {
            assert(nodes@.take(i + 1).drop_last() =~= nodes@.take(i as int));
            assert(nodes@.take(i + 1).last() == nodes@[i as int]);
            let t = seed_tier(&nodes[i], tokens);
            if t != MatchTier::NoMatch {
                out.push(Seed { node_index: i, tier: t });
            }
            i += 1;
        }
        assert(nodes@.take(nodes@.len() as int) =~= nodes@);
        out
    }

    /// The positions of the edges whose source node is active, in edge order:
    /// the edges along which one propagation hop carries activation.
    pub fn frontier_edges(&self, active: &Vec<u32>) -> (r: Vec<usize>)
        ensures
            r@ == spec_frontier(self.knowledge().edges@, active@),
    {
        let edges = &self.kb.edges;
        let mut out: Vec<usize> = Vec::new();
        let mut i: usize = 0;
        while i < edges.len()
            invariant
                edges == &self.knowledge().edges,
                0 <= i <= edges@.len(),
                out@ == spec_frontier(edges@.take(i as int), active@),
            decreases edges@.len() - i,
        {
            assert(edges@.take(i + 1).drop_last() =~= edges@.take(i as int));
            assert(edges@.take(i + 1).last() == edges@[i as int]);
            if contains_id(active, edges[i].src) {
                out.push(i);
            }
            i += 1;
        }
        assert(edges@.take(edges@.len() as int) =~= edges@);
        out
    }

    /// Position of the last node with the given id, if any.
    pub fn node_with_id(&self, id: u32) -> (r: Option<usize>)
        ensures
            r == (match last_node_with_id(self.knowledge().nodes@, id) {
                Some(k) => Some(k as usize),
                None => None::<usize>,
            }),
    {
        let nodes = &self.kb.nodes;
        let mut i: usize = nodes.len();
        assert(nodes@.take(i as int) =~= nodes@);
        while i > 0
            invariant
                nodes == &self.knowledge().nodes,
                0 <= i <= nodes@.len(),
                last_node_with_id(nodes@, id) == last_node_with_id(nodes@.take(i as int), id),
            decreases i,
        {
            assert(nodes@.take(i as int).drop_last() =~= nodes@.take(i - 1));
            assert(nodes@.take(i as int).last() == nodes@[i - 1]);
            if nodes[i - 1].id == id {
                return Some(i - 1);
            }
            i -= 1;
        }
        None
    }
}


/// The most propagation hops a query makes.
pub const MAX_HOPS: u8 = 4;

/// What happens after a propagation hop.
#[derive(Debug, Clone, Copy, PartialEq, Eq, Structural)]
pub enum HopOutcome {
    /// Nothing fired: the hop adds nothing and propagation ends.
    Stop,
    /// Something fired: the hop's new activation is added to the totals and
    /// becomes the only activation that spreads in the next hop, if any.
    Accumulate {
        /// The number of the next hop, `None` when the hop limit is reached.
        next_hop: Option<u8>,
    },
}

/// The outcome of hop `hop` given whether any edge fired in it.
pub open spec fn spec_after_hop(hop: u8, fired: bool) -> HopOutcome {
    if !fired {
        HopOutcome::Stop
    } else if hop < MAX_HOPS {
        HopOutcome::Accumulate { next_hop: Some((hop + 1) as u8) }
    } else {
        HopOutcome::Accumulate { next_hop: None }
    }
}

/// Propagation runs four hops unless a hop fires nothing: every hop below
/// the fourth that fires leads on to the next, a hop that fires nothing ends
/// propagation without adding anything, and the fourth hop is the last.
pub proof fn lemma_hop_schedule(hop: u8)
    ensures
        MAX_HOPS == 4,
        1 <= hop < 4 ==> spec_after_hop(hop, true) == (HopOutcome::Accumulate {
            next_hop: Some((hop + 1) as u8),
        }),
        hop == 4 ==> spec_after_hop(hop, true) == (HopOutcome::Accumulate { next_hop: None }),
        spec_after_hop(hop, false) == HopOutcome::Stop,
{
}

/// The propagation schedule: after hop `hop`, stop if nothing fired;
/// otherwise accumulate its activation and go on to the next hop until
/// `MAX_HOPS` hops have run. Hops are numbered from 1, so no hop after the
/// last one is ever numbered above `MAX_HOPS`.
pub fn after_hop(hop: u8, fired: bool) -> (r: HopOutcome)
    ensures
        r == spec_after_hop(hop, fired),
        r matches HopOutcome::Accumulate { next_hop: Some(n) } ==> n == hop + 1 && n <= MAX_HOPS,
{
    if !fired {
        HopOutcome::Stop
    } else if hop < MAX_HOPS {
        HopOutcome::Accumulate { next_hop: Some(hop + 1) }
    } else {
        HopOutcome::Accumulate { next_hop: None }
    }
}

} // verus!
