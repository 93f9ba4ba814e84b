//! Seeding: the tiers by which a node matches a query's tokens, from a tag
//! match up to a whole-label match.

use vstd::prelude::*;
use vstd::string::StrSliceExecFns;

use crate::model::{views, Node};
use crate::text::{contains_string, lemma_pieces_nonempty, lemma_pieces_step, pieces, push_char};

verus! {

/// How strongly a node matches the query's tokens, from weakest to strongest.
/// The engine seeds a node's activation from its tier.
#[derive(Debug, Clone, Copy, PartialEq, Eq, Structural)]
pub enum MatchTier {
    /// No token matches the node.
    NoMatch,
    /// A token equals one of the node's tags.
    Tag,
    /// A token equals one of the `_`-separated parts of the node's label.
    LabelPart,
    /// A token equals the node's whole label.
    Label,
}

impl MatchTier {
    /// The strength of the tier: 0 for no match up to 3 for a whole-label match.
    pub open spec fn strength(self) -> int {
        match self {
            MatchTier::NoMatch => 0,
            MatchTier::Tag => 1,
            MatchTier::LabelPart => 2,
            MatchTier::Label => 3,
        }
    }
}

/// The characters at which a label is split into its parts.
pub open spec fn label_separator() -> spec_fn(char) -> bool {
    |c: char| c == '_'
}

/// The tier by which one token matches a node with the given label and tags.
pub open spec fn spec_token_tier(label: Seq<char>, tags: Seq<Seq<char>>, token: Seq<char>) -> MatchTier {
    if label == token {
        MatchTier::Label
    } else if pieces(label, label_separator()).contains(token) {
        MatchTier::LabelPart
    } else if tags.contains(token) {
        MatchTier::Tag
    } else {
        MatchTier::NoMatch
    }
}

/// How one token matches a node: a token equal to the whole label is a
/// whole-label match whatever the tags are; a token equal to an
/// underscore-separated part of the label (but not the whole label) is a
/// label-part match whatever the tags are; a tag match counts only when the
/// token matches neither the label nor any of its parts. The tiers rank
/// whole label over label part over tag over no match.
pub proof fn lemma_token_tier_priority(label: Seq<char>, tags: Seq<Seq<char>>, token: Seq<char>)
    ensures
        label == token ==> spec_token_tier(label, tags, token) == MatchTier::Label,
        label != token && pieces(label, |c: char| c == '_').contains(token) ==> spec_token_tier(
            label,
            tags,
            token,
        ) == MatchTier::LabelPart,
        label != token && !pieces(label, |c: char| c == '_').contains(token) && tags.contains(token)
            ==> spec_token_tier(label, tags, token) == MatchTier::Tag,
        label != token && !pieces(label, |c: char| c == '_').contains(token) && !tags.contains(
            token,
        ) ==> spec_token_tier(label, tags, token) == MatchTier::NoMatch,
        MatchTier::Label.strength() > MatchTier::LabelPart.strength(),
        MatchTier::LabelPart.strength() > MatchTier::Tag.strength(),
        MatchTier::Tag.strength() > MatchTier::NoMatch.strength(),
{
    assert(label_separator() =~= (|c: char| c == '_'));
}

/// The stronger of two tiers.
pub open spec fn stronger(a: MatchTier, b: MatchTier) -> MatchTier {
    if b.strength() > a.strength() {
        b
    } else {
        a
    }
}

/// The strongest tier by which any of the tokens matches a node.
pub open spec fn spec_seed_tier(label: Seq<char>, tags: Seq<Seq<char>>, tokens: Seq<Seq<char>>) -> MatchTier
    decreases tokens.len(),
{
    if tokens.len() == 0 {
        MatchTier::NoMatch
    } else {
        stronger(
            spec_seed_tier(label, tags, tokens.drop_last()),
            spec_token_tier(label, tags, tokens.last()),
        )
    }
}

/// A node's seed tier is the strongest tier of any single token: no token
/// matches more strongly, and unless nothing matches, some token matches
/// exactly that strongly.
pub proof fn lemma_seed_tier_is_strongest(label: Seq<char>, tags: Seq<Seq<char>>, tokens: Seq<Seq<char>>)
    ensures
        forall|i: int|
            0 <= i < tokens.len() ==> (#[trigger] spec_token_tier(label, tags, tokens[i])).strength()
                <= spec_seed_tier(label, tags, tokens).strength(),
        spec_seed_tier(label, tags, tokens) == MatchTier::NoMatch || exists|i: int|
            0 <= i < tokens.len() && spec_seed_tier(label, tags, tokens) == #[trigger] spec_token_tier(
                label,
                tags,
                tokens[i],
            ),
    decreases tokens.len(),
{
    if tokens.len() > 0 {
        let rest = tokens.drop_last();
        lemma_seed_tier_is_strongest(label, tags, rest);
        assert forall|i: int| 0 <= i < tokens.len() implies (#[trigger] spec_token_tier(
            label,
            tags,
            tokens[i],
        )).strength() <= spec_seed_tier(label, tags, tokens).strength() by {
            if i < rest.len() {
                assert(tokens[i] == rest[i]);
            }
        }
        let t = spec_seed_tier(label, tags, tokens);
        if t != MatchTier::NoMatch {
            if t == spec_token_tier(label, tags, tokens.last()) {
                assert(t == spec_token_tier(label, tags, tokens[tokens.len() - 1]));
            } else {
                let i = choose|i: int|
                    0 <= i < rest.len() && spec_seed_tier(label, tags, rest) == #[trigger] spec_token_tier(
                        label,
                        tags,
                        rest[i],
                    );
                assert(tokens[i] == rest[i]);
            }
        }
    }
}

/// Whether the token equals one of the `_`-separated parts of the label.
pub fn label_has_part(label: &String, token: &String) -> (r: bool)
    ensures
        r == pieces(label@, label_separator()).contains(token@),
{
    let text = label.as_str();
    let ghost s = label@;
    let ghost sep = label_separator();
    let n = text.unicode_len();
    let mut found = false;
    let mut cur = String::new();
    let mut i: usize = 0;
    assert(s.take(0) =~= Seq::<char>::empty());
    assert(pieces(s.take(0), sep).drop_last() =~= Seq::<Seq<char>>::empty());
    while i < n
        invariant
            n == s.len(),
            text@ == s,
            sep == label_separator(),
            0 <= i <= n,
            found == pieces(s.take(i as int), sep).drop_last().contains(token@),
            cur@ == pieces(s.take(i as int), sep).last(),
        decreases n - i,
    {
        let c = text.get_char(i);
        proof {
            lemma_pieces_step(s, i as int, sep);
        }
        let ghost prev = pieces(s.take(i as int), sep);
        if c == '_' {
            if cur == *token {
                found = true;
            }
            cur = String::new();
            proof {
                assert(prev.drop_last().push(prev.last()) =~= prev);
                assert(pieces(s.take(i + 1), sep).drop_last() =~= prev);
                assert(prev.contains(token@) == (prev.drop_last().contains(token@) || prev.last()
                    == token@)) by {
                    if prev.contains(token@) {
                        let k = choose|k: int| 0 <= k < prev.len() && prev[k] == token@;
                        if k < prev.len() - 1 {
                            assert(prev.drop_last()[k] == token@);
                        }
                    }
                    if prev.drop_last().contains(token@) {
                        let k = choose|k: int|
                            0 <= k < prev.drop_last().len() && prev.drop_last()[k] == token@;
                        assert(prev[k] == token@);
                    }
                    if prev.last() == token@ {
                        assert(prev[prev.len() - 1] == token@);
                    }
                }
            }
        } else {
            push_char(&mut cur, c);
        }
        i += 1;
    }
    let ghost all = pieces(s.take(n as int), sep);
    assert(s.take(n as int) =~= s);
    proof {
        lemma_pieces_nonempty(s, sep);
        assert(all.contains(token@) == (all.drop_last().contains(token@) || all.last() == token@))
            by {
            if all.contains(token@) {
                let k = choose|k: int| 0 <= k < all.len() && all[k] == token@;
                if k < all.len() - 1 {
                    assert(all.drop_last()[k] == token@);
                }
            }
            if all.drop_last().contains(token@) {
                let k = choose|k: int| 0 <= k < all.drop_last().len() && all.drop_last()[k] == token@;
                assert(all[k] == token@);
            }
            if all.last() == token@ {
                assert(all[all.len() - 1] == token@);
            }
        }
    }
    found || cur == *token
}

/// The tier by which one token matches the node.
pub fn token_tier(node: &Node, token: &String) -> (t: MatchTier)
    ensures
        t == spec_token_tier(node.label@, views(node.tags@), token@),
{
    if node.label == *token {
        MatchTier::Label
    } else if label_has_part(&node.label, token) {
        MatchTier::LabelPart
    } else if contains_string(&node.tags, token) {
        MatchTier::Tag
    } else {
        MatchTier::NoMatch
    }
}

/// The strongest tier by which any of the query's tokens matches the node:
/// a whole-label match beats a label-part match, which beats a tag match.
pub fn seed_tier(node: &Node, tokens: &Vec<String>) -> (t: MatchTier)
    ensures
        t == spec_seed_tier(node.label@, views(node.tags@), views(tokens@)),
{
    let ghost label = node.label@;
    let ghost tags = views(node.tags@);
    let ghost toks = views(tokens@);
    let mut best = MatchTier::NoMatch;
    let mut i: usize = 0;
    assert(toks.take(0) =~= Seq::<Seq<char>>::empty());
    while i < tokens.len()
        invariant
            0 <= i <= tokens@.len(),
            toks == views(tokens@),
            label == node.label@,
            tags == views(node.tags@),
            best == spec_seed_tier(label, tags, toks.take(i as int)),
        decreases tokens@.len() - i,
    {
        let t = token_tier(node, &tokens[i]);
        assert(toks.take(i + 1).drop_last() =~= toks.take(i as int));
        assert(toks.take(i + 1).last() == tokens@[i as int]@);
        if tier_strength(t) > tier_strength(best) {
            best = t;
        }
        i += 1;
    }
    assert(toks.take(tokens@.len() as int) =~= toks);
    best
}

/// The strength of a tier, as a number.
fn tier_strength(t: MatchTier) -> (r: u8)
    ensures
        r == t.strength(),
{
    match t {
        MatchTier::NoMatch => 0,
        MatchTier::Tag => 1,
        MatchTier::LabelPart => 2,
        MatchTier::Label => 3,
    }
}

/// A node seeded by the query: its position and the tier by which it matched.
#[derive(Debug, Clone, Copy, PartialEq, Eq, Structural)]
pub struct Seed {
    /// Position of the node in the knowledge base's node list.
    pub node_index: usize,
    /// The strongest tier by which a token matches the node (never `NoMatch`).
    pub tier: MatchTier,
}

/// The seeds of a query among the first nodes: every node that some token
/// matches, in node order, with its tier.
pub open spec fn spec_seeds(nodes: Seq<Node>, tokens: Seq<Seq<char>>) -> Seq<Seed>
    decreases nodes.len(),
{
    if nodes.len() == 0 {
        Seq::empty()
    } else {
        let prev = spec_seeds(nodes.drop_last(), tokens);
        let n = nodes.last();
        let t = spec_seed_tier(n.label@, views(n.tags@), tokens);
        if t != MatchTier::NoMatch {
            prev.push(Seed { node_index: (nodes.len() - 1) as usize, tier: t })
        } else {
            prev
        }
    }
}

} // verus!
