//! The listings behind the sub-commands: recent session history, weak
//! memory, latent nodes and provisional nodes, each entry as one line of text.

use vstd::prelude::*;
use vstd::string::StringExecFns;

use crate::text::contains_string;
use crate::format::{joined, number_list, push_joined, push_number_list};
use crate::knowledge::KnowledgeBase;
use crate::model::{views, Node, NodeKind, Session, WeakMemoryEntry, WeakMemoryStatus};

verus! {

/// One line of session history: id, path labels, outcome, and the ids of the
/// breaking questions asked.
pub open spec fn session_line(s: Session) -> Seq<char> {
    s.session_id@ + "  "@ + joined(views(s.path_labels@), ", "@) + "  "@ + s.outcome.spec_name()
        + "  questions: "@ + number_list(s.breaking_questions_asked@)
}

/// One line of weak memory: id, status, activated nodes, attempted path.
pub open spec fn weak_memory_line(e: WeakMemoryEntry) -> Seq<char> {
    e.id@ + "  ["@ + e.status.spec_name() + "]  nodes: "@ + number_list(e.activated_nodes@)
        + "  \u{2192}  attempted: "@ + e.attempted_path@
}

/// One line of a node listing: label, the listing's marker, and tags.
pub open spec fn node_line(n: Node, marker: Seq<char>) -> Seq<char> {
    n.label@ + "  ["@ + marker + "]  tags: ["@ + joined(views(n.tags@), ", "@) + "]"@
}

/// Whether a weak-memory entry is still unresolved: uncertain or rejected.
pub open spec fn is_unresolved(e: WeakMemoryEntry) -> bool {
    e.status != WeakMemoryStatus::Resolved
}

/// The lines of the unresolved weak-memory entries, in order.
pub open spec fn weak_memory_lines(entries: Seq<WeakMemoryEntry>) -> Seq<Seq<char>> {
    entries.filter(|e: WeakMemoryEntry| is_unresolved(e)).map_values(
        |e: WeakMemoryEntry| weak_memory_line(e),
    )
}

/// A listing, or the given message as its only line when it is empty.
pub open spec fn or_message(lines: Seq<Seq<char>>, message: Seq<char>) -> Seq<Seq<char>> {
    if lines.len() == 0 {
        seq![message]
    } else {
        lines
    }
}

/// Where the history of the last `n` of `count` sessions starts.
pub open spec fn history_start(count: nat, n: nat) -> nat {
    if count > n {
        (count - n) as nat
    } else {
        0
    }
}

/// The lines of the last `n` sessions, oldest first.
pub open spec fn history_lines(sessions: Seq<Session>, n: nat) -> Seq<Seq<char>> {
    sessions.subrange(history_start(sessions.len(), n) as int, sessions.len() as int).map_values(
        |s: Session| session_line(s),
    )
}

/// The nodes that satisfy `pred`, in order.
pub open spec fn nodes_where(nodes: Seq<Node>, pred: spec_fn(Node) -> bool) -> Seq<Node> {
    nodes.filter(pred)
}

/// Whether a node was discovered as a latent node.
pub open spec fn is_latent(n: Node) -> bool {
    n.kind == NodeKind::Latent
}

/// Whether a node is provisional: tagged `unconfirmed`.
pub open spec fn is_provisional(n: Node) -> bool {
    views(n.tags@).contains("unconfirmed"@)
}

/// The lines listing the nodes that satisfy `pred`, with the given marker.
pub open spec fn node_lines(nodes: Seq<Node>, pred: spec_fn(Node) -> bool, marker: Seq<char>) -> Seq<
    Seq<char>,
> {
    nodes.filter(pred).map_values(|n: Node| node_line(n, marker))
}

/// The latent listing holds one line for each node of kind `Latent`, in
/// node order, and no line for a node of any other kind.
pub proof fn lemma_latent_lines_are_latent_nodes(nodes: Seq<Node>)
    ensures
        node_lines(nodes, |n: Node| is_latent(n), "latent"@) == nodes.filter(
            |n: Node| n.kind == NodeKind::Latent,
        ).map_values(|n: Node| node_line(n, "latent"@)),
{
    assert((|n: Node| is_latent(n)) =~= (|n: Node| n.kind == NodeKind::Latent));
}

/// A node is listed as provisional exactly when one of its tags is
/// `unconfirmed`, whatever its kind; the listing keeps node order.
pub proof fn lemma_provisional_lines_are_unconfirmed_nodes(nodes: Seq<Node>)
    ensures
        node_lines(nodes, |n: Node| is_provisional(n), "provisional"@) == nodes.filter(
            |n: Node| exists|k: int| 0 <= k < n.tags@.len() && n.tags@[k]@ == "unconfirmed"@,
        ).map_values(|n: Node| node_line(n, "provisional"@)),
{
    assert forall|n: Node| #[trigger] is_provisional(n) == (exists|k: int|
        0 <= k < n.tags@.len() && n.tags@[k]@ == "unconfirmed"@) by {
        if is_provisional(n) {
            let k = choose|k: int| 0 <= k < views(n.tags@).len() && views(n.tags@)[k] == "unconfirmed"@;
            assert(n.tags@[k]@ == "unconfirmed"@);
        }
        if exists|k: int| 0 <= k < n.tags@.len() && n.tags@[k]@ == "unconfirmed"@ {
            let k = choose|k: int| 0 <= k < n.tags@.len() && n.tags@[k]@ == "unconfirmed"@;
            assert(views(n.tags@)[k] == "unconfirmed"@);
        }
    }
    assert((|n: Node| is_provisional(n)) =~= (|n: Node|
        exists|k: int| 0 <= k < n.tags@.len() && n.tags@[k]@ == "unconfirmed"@));
}

/// The line of one session.
pub fn format_session(s: &Session) -> (r: String)
    ensures
        r@ == session_line(*s),
{
    let mut line = String::new();
    line.append(s.session_id.as_str());
    line.append("  ");
    push_joined(&mut line, &s.path_labels, ", ");
    line.append("  ");
    line.append(s.outcome.name());
    line.append("  questions: ");
    push_number_list(&mut line, &s.breaking_questions_asked);
    assert(line@ =~= session_line(*s));
    line
}

/// The line of one weak-memory entry.
pub fn format_weak_memory(e: &WeakMemoryEntry) -> (r: String)
    ensures
        r@ == weak_memory_line(*e),
{
    let mut line = String::new();
    line.append(e.id.as_str());
    line.append("  [");
    line.append(e.status.name());
    line.append("]  nodes: ");
    push_number_list(&mut line, &e.activated_nodes);
    line.append("  \u{2192}  attempted: ");
    line.append(e.attempted_path.as_str());
    assert(line@ =~= weak_memory_line(*e));
    line
}

/// The line of one node in a listing with the given marker.
pub fn format_node(n: &Node, marker: &str) -> (r: String)
    ensures
        r@ == node_line(*n, marker@),
{
    let mut line = String::new();
    line.append(n.label.as_str());
    line.append("  [");
    line.append(marker);
    line.append("]  tags: [");
    push_joined(&mut line, &n.tags, ", ");
    line.append("]");
    assert(line@ =~= node_line(*n, marker@));
    line
}

impl KnowledgeBase {
    /// The history lines of the last `n` sessions, oldest first; all of them
    /// when there are no more than `n`.
    pub fn recent_history(&self, n: usize) -> (r: Vec<String>)
        ensures
            views(r@) == history_lines(self.sessions@, n as nat),
    {
        let count = self.sessions.len();
        let start = if count > n {
            count - n
        } else {
            0
        };
        let ghost picked = self.sessions@.subrange(start as int, count as int);
        let mut out: Vec<String> = Vec::new();
        let mut i: usize = start;
        while i < count
            invariant
                count == self.sessions@.len(),
                start <= i <= count,
                start == history_start(count as nat, n as nat),
                picked == self.sessions@.subrange(start as int, count as int),
                views(out@) == picked.take(i - start).map_values(|s: Session| session_line(s)),
            decreases count - i,
        {
            let line = format_session(&self.sessions[i]);
            let ghost before = out@;
            out.push(line);
            assert(views(out@) =~= picked.take(i + 1 - start).map_values(
                |s: Session| session_line(s),
            )) by {
                assert(views(out@) =~= views(before).push(line@));
                assert(picked.take(i + 1 - start) =~= picked.take(i - start).push(
                    self.sessions@[i as int],
                ));
            }
            i += 1;
        }
        assert(picked.take(count - start) =~= picked);
        out
    }

    /// The lines of the unresolved weak-memory entries (uncertain or
    /// rejected), in order; resolved entries are left out.
    pub fn weak_memory_listing(&self) -> (r: Vec<String>)
        ensures
            views(r@) == weak_memory_lines(self.weak_memory@),
    {
        let entries = &self.weak_memory;
        let ghost pred = |e: WeakMemoryEntry| is_unresolved(e);
        let mut out: Vec<String> = Vec::new();
        let mut i: usize = 0;
        while i < entries.len()
            invariant
                entries == &self.weak_memory,
                pred == (|e: WeakMemoryEntry| is_unresolved(e)),
                0 <= i <= entries@.len(),
                views(out@) == weak_memory_lines(entries@.take(i as int)),
            decreases entries@.len() - i,
        {
            let ghost before = out@;
            proof {
                reveal_with_fuel(Seq::filter, 1);
                assert(entries@.take(i + 1).drop_last() =~= entries@.take(i as int));
            }
            if entries[i].status != WeakMemoryStatus::Resolved {
                let line = format_weak_memory(&entries[i]);
                out.push(line);
                assert(views(out@) =~= views(before).push(line@));
            }
            assert(views(out@) =~= weak_memory_lines(entries@.take(i + 1)));
            i += 1;
        }
        assert(entries@.take(entries@.len() as int) =~= entries@);
        out
    }

    /// The lines of the latent nodes, in order.
    pub fn latent_listing(&self) -> (r: Vec<String>)
        ensures
            views(r@) == node_lines(self.nodes@, |n: Node| is_latent(n), "latent"@),
    {
        let nodes = &self.nodes;
        let ghost pred = |n: Node| is_latent(n);
        let mut out: Vec<String> = Vec::new();
        let mut i: usize = 0;
        while i < nodes.len()
            invariant
                nodes == &self.nodes,
                pred == (|n: Node| is_latent(n)),
                0 <= i <= nodes@.len(),
                views(out@) == node_lines(nodes@.take(i as int), pred, "latent"@),
            decreases nodes@.len() - i,
        {
            let ghost before = out@;
            proof {
                reveal_with_fuel(Seq::filter, 1);
                assert(nodes@.take(i + 1).drop_last() =~= nodes@.take(i as int));
            }
            if nodes[i].kind == NodeKind::Latent {
                let line = format_node(&nodes[i], "latent");
                out.push(line);
                assert(views(out@) =~= views(before).push(line@));
            }
            assert(views(out@) =~= node_lines(nodes@.take(i + 1), pred, "latent"@));
            i += 1;
        }
        assert(nodes@.take(nodes@.len() as int) =~= nodes@);
        out
    }

    /// The lines of the provisional nodes (those tagged `unconfirmed`), in order.
    pub fn provisional_listing(&self) -> (r: Vec<String>)
        ensures
            views(r@) == node_lines(self.nodes@, |n: Node| is_provisional(n), "provisional"@),
    {
        let nodes = &self.nodes;
        let ghost pred = |n: Node| is_provisional(n);
        let marker = String::from_str("unconfirmed");
        let mut out: Vec<String> = Vec::new();
        let mut i: usize = 0;
        while i < nodes.len()
            invariant
                nodes == &self.nodes,
                pred == (|n: Node| is_provisional(n)),
                marker@ == "unconfirmed"@,
                0 <= i <= nodes@.len(),
                views(out@) == node_lines(nodes@.take(i as int), pred, "provisional"@),
            decreases nodes@.len() - i,
        {
            let ghost before = out@;
            proof {
                reveal_with_fuel(Seq::filter, 1);
                assert(nodes@.take(i + 1).drop_last() =~= nodes@.take(i as int));
            }
            if contains_string(&nodes[i].tags, &marker) {
                let line = format_node(&nodes[i], "provisional");
                out.push(line);
                assert(views(out@) =~= views(before).push(line@));
            }
            assert(views(out@) =~= node_lines(nodes@.take(i + 1), pred, "provisional"@));
            i += 1;
        }
        assert(nodes@.take(nodes@.len() as int) =~= nodes@);
        out
    }
}


/// The given lines, or the message alone when there are none.
fn lines_or_message(lines: Vec<String>, message: &str) -> (r: Vec<String>)
    ensures
        views(r@) == or_message(views(lines@), message@),
{
    if lines.len() == 0 {
        let mut only: Vec<String> = Vec::new();
        only.push(String::from_str(message));
        assert(views(only@) =~= seq![message@]);
        only
    } else {
        lines
    }
}

impl KnowledgeBase {
    /// What the history command shows: the lines of the last `n` sessions,
    /// or `No sessions recorded yet.` when no session is recorded at all.
    pub fn history_report(&self, n: usize) -> (r: Vec<String>)
        ensures
            views(r@) == (if self.sessions@.len() == 0 {
                seq!["No sessions recorded yet."@]
            } else {
                history_lines(self.sessions@, n as nat)
            }),
    {
        if self.sessions.len() == 0 {
            let mut only: Vec<String> = Vec::new();
            only.push(String::from_str("No sessions recorded yet."));
            assert(views(only@) =~= seq!["No sessions recorded yet."@]);
            only
        } else {
            self.recent_history(n)
        }
    }

    /// What the weak command shows: the unresolved weak-memory entries, or
    /// `No weak memory entries.` when there are none.
    pub fn weak_memory_report(&self) -> (r: Vec<String>)
        ensures
            views(r@) == or_message(weak_memory_lines(self.weak_memory@), "No weak memory entries."@),
    {
        lines_or_message(self.weak_memory_listing(), "No weak memory entries.")
    }

    /// What the latent command shows: the latent nodes, or
    /// `No latent nodes discovered yet.` when there are none.
    pub fn latent_report(&self) -> (r: Vec<String>)
        ensures
            views(r@) == or_message(
                node_lines(self.nodes@, |n: Node| is_latent(n), "latent"@),
                "No latent nodes discovered yet."@,
            ),
    {
        lines_or_message(self.latent_listing(), "No latent nodes discovered yet.")
    }

    /// What the provisional command shows: the provisional nodes, or
    /// `No provisional nodes pending.` when there are none.
    pub fn provisional_report(&self) -> (r: Vec<String>)
        ensures
            views(r@) == or_message(
                node_lines(self.nodes@, |n: Node| is_provisional(n), "provisional"@),
                "No provisional nodes pending."@,
            ),
    {
        lines_or_message(self.provisional_listing(), "No provisional nodes pending.")
    }
}

} // verus!
