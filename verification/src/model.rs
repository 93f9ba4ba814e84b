//! Domain model of the knowledge graph: nodes, edges, context paths, breaking
//! questions, solutions, sessions and weak memory.
//!
//! Quantities that the stored graph keeps as IEEE single-precision numbers
//! (edge weight and confidence, node activation, path confidence) are held
//! here by their exact 32-bit patterns, so that a value read from the graph
//! files is carried through unchanged.

use vstd::prelude::*;

verus! {

/// The kind of a graph node: determines its role in reasoning.
#[derive(Debug, Clone, Copy, PartialEq, Eq, Structural)]
pub enum NodeKind {
    /// A topic/concept node that activation flows through.
    Concept,
    /// A breaking-question node that disambiguates candidate solutions.
    Question,
    /// A terminal node carrying an answer text.
    Solution,
    /// An automatically discovered node for hidden shared concepts.
    Latent,
}

impl NodeKind {
    /// The lower-case display name of the kind.
    pub open spec fn spec_name(self) -> Seq<char> {
        match self {
            NodeKind::Concept => "concept"@,
            NodeKind::Question => "question"@,
            NodeKind::Solution => "solution"@,
            NodeKind::Latent => "latent"@,
        }
    }

    /// The lower-case display name of the kind (`concept`, `question`,
    /// `solution`, `latent`).
    pub fn name(&self) -> (r: &'static str)
        ensures
            r@ == self.spec_name(),
    {
        match self {
            NodeKind::Concept => "concept",
            NodeKind::Question => "question",
            NodeKind::Solution => "solution",
            NodeKind::Latent => "latent",
        }
    }
}


/// The character sequences of a list of strings.
pub open spec fn views(v: Seq<String>) -> Seq<Seq<char>> {
    v.map_values(|s: String| s@)
}

/// A graph node: a concept, question, solution, or latent node.
#[derive(Debug, Clone)]
pub struct Node {
    /// Stable numeric identifier.
    pub id: u32,
    /// Human-readable label (snake_case), e.g. `borrow_checker`.
    pub label: String,
    /// Role of the node in reasoning.
    pub kind: NodeKind,
    /// Bit pattern of the transient activation score (not persisted).
    pub activation_bits: u32,
    /// Semantic tags across the domain/pattern/scope taxonomy.
    pub tags: Vec<String>,
}

/// A weighted, confidence-bearing transition between two nodes.
#[derive(Debug, Clone)]
pub struct Edge {
    /// Source node id.
    pub src: u32,
    /// Destination node id.
    pub dst: u32,
    /// Bit pattern of the transition weight used in activation propagation.
    pub weight_bits: u32,
    /// Bit pattern of the confidence in the transition.
    pub confidence_bits: u32,
    /// Number of sessions that traversed this edge.
    pub usage_count: u32,
    /// Names of the context paths this edge participates in.
    pub path_labels: Vec<String>,
}

/// A named, tagged reasoning route recorded after a confirmed traversal.
#[derive(Debug, Clone)]
pub struct ContextPath {
    /// Stable numeric identifier.
    pub id: u32,
    /// Human-readable name, e.g. `rust_ownership_violation`.
    pub name: String,
    /// Ordered node sequence of the path.
    pub node_ids: Vec<u32>,
    /// Semantic tags of the path.
    pub tags: Vec<String>,
    /// Number of times the path has been traversed.
    pub usage_count: u32,
    /// Bit pattern of the average confidence of the traversed edges.
    pub avg_confidence_bits: u32,
}

/// One possible answer of a breaking question, committing to a context path.
#[derive(Debug, Clone)]
pub struct Branch {
    /// Expected user token ("yes", "no", "multiple", ...).
    pub answer_token: String,
    /// Node to activate when this branch is chosen.
    pub target_node: u32,
    /// Path label committed to the session on this branch.
    pub path_label: String,
    /// Tags associated with this branch.
    pub tags: Vec<String>,
}

/// A breaking question: a labelled decomposition with mutually exclusive
/// branches that partition the candidate solution space.
#[derive(Debug, Clone)]
pub struct BreakingQuestion {
    /// Stable numeric identifier.
    pub id: u32,
    /// Domain label, e.g. `ownership_dimension`.
    pub label: String,
    /// Text shown to the user.
    pub prompt: String,
    /// Mutually exclusive answer branches.
    pub branches: Vec<Branch>,
}

/// The answer text attached to a solution node.
#[derive(Debug, Clone)]
pub struct Solution {
    /// The solution node this text belongs to.
    pub node_id: u32,
    /// The answer text.
    pub text: String,
}

/// Lifecycle status of a weak-memory entry.
#[derive(Debug, Clone, Copy, PartialEq, Eq, Structural)]
pub enum WeakMemoryStatus {
    /// Attempted but not yet confirmed or rejected.
    Uncertain,
    /// Attempted and rejected by the user.
    Rejected,
    /// Corrected and promoted back into the graph.
    Resolved,
}

impl WeakMemoryStatus {
    /// The lower-case display name of the status.
    pub open spec fn spec_name(self) -> Seq<char> {
        match self {
            WeakMemoryStatus::Uncertain => "uncertain"@,
            WeakMemoryStatus::Rejected => "rejected"@,
            WeakMemoryStatus::Resolved => "resolved"@,
        }
    }

    /// The lower-case display name of the status (`uncertain`, `rejected`,
    /// `resolved`).
    pub fn name(&self) -> (r: &'static str)
        ensures
            r@ == self.spec_name(),
    {
        match self {
            WeakMemoryStatus::Uncertain => "uncertain",
            WeakMemoryStatus::Rejected => "rejected",
            WeakMemoryStatus::Resolved => "resolved",
        }
    }
}

/// A record of an uncertain or failed reasoning attempt, stored for later
/// correction. Never contains user-originated text: only activation patterns
/// and curated path names.
#[derive(Debug, Clone)]
pub struct WeakMemoryEntry {
    /// Stable entry id (e.g. `wm-0042`).
    pub id: String,
    /// Node IDs activated when this query was processed.
    pub activated_nodes: Vec<u32>,
    /// Path label of the attempted (and failed) reasoning route.
    pub attempted_path: String,
    /// Solution node that was proposed but rejected; `None` if abandoned.
    pub attempted_solution_node: Option<u32>,
    /// Current lifecycle status.
    pub status: WeakMemoryStatus,
    /// Session that produced this entry.
    pub session_id: String,
    /// Correct solution node, populated when a correction is confirmed.
    pub correction_node: Option<u32>,
}

/// Outcome of a recorded session.
#[derive(Debug, Clone, Copy, PartialEq, Eq, Structural)]
pub enum SessionOutcome {
    /// The proposed solution was accepted.
    Confirmed,
    /// The proposed solution was rejected.
    Rejected,
    /// The session ended without resolution.
    Abandoned,
}

impl SessionOutcome {
    /// The lower-case display name of the outcome.
    pub open spec fn spec_name(self) -> Seq<char> {
        match self {
            SessionOutcome::Confirmed => "confirmed"@,
            SessionOutcome::Rejected => "rejected"@,
            SessionOutcome::Abandoned => "abandoned"@,
        }
    }

    /// The lower-case display name of the outcome (`confirmed`, `rejected`,
    /// `abandoned`).
    pub fn name(&self) -> (r: &'static str)
        ensures
            r@ == self.spec_name(),
    {
        match self {
            SessionOutcome::Confirmed => "confirmed",
            SessionOutcome::Rejected => "rejected",
            SessionOutcome::Abandoned => "abandoned",
        }
    }
}

/// Confidence classification of a query result, derived from the answer
/// threshold and the disambiguation threshold.
#[derive(Debug, Clone, Copy, PartialEq, Eq, Structural)]
pub enum ConfidenceLevel {
    /// Top score reaches the answer threshold and its gap to the second
    /// reaches the disambiguation threshold.
    High,
    /// Top score reaches the answer threshold but the gap to the second does not.
    Medium,
    /// Top score is below the answer threshold.
    Low,
    /// No candidates reached activation at all.
    Unknown,
}

impl ConfidenceLevel {
    /// Whether a result at this level is answered with the top solution's
    /// text: at `High` and `Medium`, not at `Low` or `Unknown`.
    pub fn answers(&self) -> (r: bool)
        ensures
            r == (*self == ConfidenceLevel::High || *self == ConfidenceLevel::Medium),
    {
        match self {
            ConfidenceLevel::High | ConfidenceLevel::Medium => true,
            ConfidenceLevel::Low | ConfidenceLevel::Unknown => false,
        }
    }
}

/// A recorded user session with its outcome and the questions asked.
#[derive(Debug, Clone)]
pub struct Session {
    /// Stable, timestamped session id (e.g. `2026-03-06-001`).
    pub session_id: String,
    /// Curated path labels traversed during this session.
    pub path_labels: Vec<String>,
    /// IDs of breaking question nodes asked during this session.
    pub breaking_questions_asked: Vec<u32>,
    /// How the session ended.
    pub outcome: SessionOutcome,
}

} // verus!
