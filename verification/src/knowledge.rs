//! The in-memory knowledge base and the rule that decides which knowledge
//! documents count as empty collections.

use vstd::prelude::*;

use crate::model::{BreakingQuestion, ContextPath, Edge, Node, Session, Solution, WeakMemoryEntry};
use crate::text::{trim, trimmed};
use vstd::string::StringExecFns;

verus! {

/// The full in-memory knowledge base.
#[derive(Debug)]
pub struct KnowledgeBase {
    /// All graph nodes.
    pub nodes: Vec<Node>,
    /// All graph edges (weighted transitions between nodes).
    pub edges: Vec<Edge>,
    /// Named, tagged reasoning paths.
    pub paths: Vec<ContextPath>,
    /// Breaking-question definitions.
    pub questions: Vec<BreakingQuestion>,
    /// Solution texts keyed by node id.
    pub solutions: Vec<Solution>,
    /// Weak-memory entries (uncertain / rejected answers).
    pub weak_memory: Vec<WeakMemoryEntry>,
    /// Recorded sessions with outcomes.
    pub sessions: Vec<Session>,
}

impl KnowledgeBase {
    /// An empty knowledge base: every collection is empty.
    pub fn new() -> (kb: KnowledgeBase)
        ensures
            kb.nodes@.len() == 0,
            kb.edges@.len() == 0,
            kb.paths@.len() == 0,
            kb.questions@.len() == 0,
            kb.solutions@.len() == 0,
            kb.weak_memory@.len() == 0,
            kb.sessions@.len() == 0,
    {
        KnowledgeBase {
            nodes: Vec::new(),
            edges: Vec::new(),
            paths: Vec::new(),
            questions: Vec::new(),
            solutions: Vec::new(),
            weak_memory: Vec::new(),
            sessions: Vec::new(),
        }
    }

    /// Number of loaded nodes.
    pub fn node_count(&self) -> (n: usize)
        ensures
            n == self.nodes@.len(),
    {
        self.nodes.len()
    }

    /// Number of loaded edges.
    pub fn edge_count(&self) -> (n: usize)
        ensures
            n == self.edges@.len(),
    {
        self.edges.len()
    }
}

impl Default for KnowledgeBase {
    /// An empty knowledge base.
    fn default() -> (kb: KnowledgeBase)
        ensures
            kb.nodes@.len() == 0,
            kb.edges@.len() == 0,
            kb.paths@.len() == 0,
            kb.questions@.len() == 0,
            kb.solutions@.len() == 0,
            kb.weak_memory@.len() == 0,
            kb.sessions@.len() == 0,
    {
        KnowledgeBase::new()
    }
}

/// A knowledge document whose trimmed text is empty or the word `null`
/// stands for an empty collection.
pub open spec fn spec_is_blank_document(contents: Seq<char>) -> bool {
    trimmed(contents).len() == 0 || trimmed(contents) == "null"@
}

/// The part of a knowledge document that is to be parsed: `None` when the
/// document stands for an empty collection (its trimmed text is empty or
/// exactly `null`), else the trimmed text.
pub fn document_payload(contents: &str) -> (r: Option<&str>)
    ensures
        r is None <==> spec_is_blank_document(contents@),
        r matches Some(body) ==> body@ == trimmed(contents@),
{
    let t = trim(contents);
    if t.is_empty() {
        return None;
    }
    let owned = String::from_str(t);
    let null_word = String::from_str("null");
    if owned == null_word {
        None
    } else {
        Some(t)
    }
}

} // verus!
