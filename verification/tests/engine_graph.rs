use engram::engine::Engine;
use engram::seeding::{MatchTier, Seed};
use engram::knowledge::KnowledgeBase;
use engram::model::{Edge, Node, NodeKind};

fn node(id: u32, label: &str, kind: NodeKind, tags: &[&str]) -> Node {
    Node {
        id,
        label: label.to_string(),
        kind,
        activation_bits: 0,
        tags: tags.iter().map(|t| t.to_string()).collect(),
    }
}

fn edge(src: u32, dst: u32) -> Edge {
    Edge {
        src,
        dst,
        weight_bits: 0.5f32.to_bits(),
        confidence_bits: 0.5f32.to_bits(),
        usage_count: 0,
        path_labels: vec![],
    }
}

fn graph() -> KnowledgeBase {
    let mut kb = KnowledgeBase::new();
    kb.nodes = vec![
        node(13, "network_issue", NodeKind::Concept, &["http"]),
        node(14, "timeout_context", NodeKind::Concept, &[]),
        node(8, "timeout", NodeKind::Concept, &["network"]),
        node(26, "fix_timeout", NodeKind::Solution, &[]),
        node(8, "timeout_duplicate", NodeKind::Question, &[]),
    ];
    kb.edges = vec![edge(13, 14), edge(14, 8), edge(8, 26), edge(13, 26), edge(99, 13)];
    kb
}

#[test]
fn seeds_follow_node_order_and_tiers() {
    let kb = graph();
    let engine = Engine::new(&kb);
    let tokens = engine.tokenise("Network timeout?");
    assert_eq!(tokens, vec!["network".to_string(), "timeout".to_string()]);
    let seeds = engine.seeds(&tokens);
    assert_eq!(
        seeds,
        vec![
            Seed { node_index: 0, tier: MatchTier::LabelPart },
            Seed { node_index: 1, tier: MatchTier::LabelPart },
            Seed { node_index: 2, tier: MatchTier::Label },
            Seed { node_index: 3, tier: MatchTier::LabelPart },
            Seed { node_index: 4, tier: MatchTier::LabelPart },
        ]
    );
    assert!(engine.seeds(&vec!["cors".to_string()]).is_empty());
}

#[test]
fn frontier_edges_leave_active_nodes() {
    let kb = graph();
    let engine = Engine::new(&kb);
    assert_eq!(engine.frontier_edges(&vec![13]), vec![0, 3]);
    assert_eq!(engine.frontier_edges(&vec![8, 14]), vec![1, 2]);
    assert_eq!(engine.frontier_edges(&vec![26]), Vec::<usize>::new());
    assert_eq!(engine.frontier_edges(&vec![]), Vec::<usize>::new());
}

#[test]
fn node_ids_resolve_to_last_entry() {
    let kb = graph();
    let engine = Engine::new(&kb);
    assert_eq!(engine.node_with_id(8), Some(4));
    assert_eq!(engine.node_with_id(13), Some(0));
    assert_eq!(engine.node_with_id(99), None);
    assert_eq!(engine.knowledge_base().node_count(), 5);
}

#[test]
fn tied_solutions_rank_by_id_and_repeat_identically() {
    let mut kb = KnowledgeBase::new();
    kb.nodes = vec![node(1, "error", NodeKind::Concept, &[])];
    for id in [30u32, 34, 31, 33, 32] {
        kb.nodes.push(node(id, "fix", NodeKind::Solution, &[]));
        kb.solutions.push(engram::model::Solution { node_id: id, text: format!("fix {id}") });
    }
    let engine = Engine::new(&kb);
    let tied = 0.6f32.to_bits();
    let acts: Vec<engram::candidates::Activation> = [1u32, 30, 31, 32, 33, 34]
        .iter()
        .map(|&node_id| engram::candidates::Activation { node_id, score_key: tied })
        .collect();
    let a = engine.rank_solutions(&acts);
    let b = engine.rank_solutions(&acts);
    assert_eq!(a, b);
    let ids: Vec<u32> = a.iter().map(|c| c.node_id).collect();
    assert_eq!(ids, vec![34, 33, 32, 31, 30]);
    assert_eq!(kb.solutions[a[0].solution_index].text, "fix 34");
}
