use engram::cli::{read_prompt_line, Args, Command, PromptAction, RunMode};
use engram::candidates::Activation;
use engram::engine::{after_hop, classify_confidence, Engine, HopOutcome, MAX_HOPS};
use engram::seeding::{label_has_part, seed_tier, token_tier, MatchTier};
use engram::format::{push_decimal, push_joined, push_number_list};
use engram::knowledge::{document_payload, KnowledgeBase};
use engram::model::{
    ConfidenceLevel, Edge, Node, NodeKind, Session, SessionOutcome, Solution, WeakMemoryEntry,
    WeakMemoryStatus,
};
use engram::ranking::{rank, ranks_before, Candidate};
use engram::report::{format_node, format_session, format_weak_memory};
use engram::text::is_stop_word;

fn strings(v: &[&str]) -> Vec<String> {
    v.iter().map(|s| s.to_string()).collect()
}

fn node(id: u32, label: &str, kind: NodeKind, tags: &[&str]) -> Node {
    Node { id, label: label.to_string(), kind, activation_bits: 0, tags: strings(tags) }
}

fn solution(node_id: u32, text: &str) -> Solution {
    Solution { node_id, text: text.to_string() }
}

fn kb_with(nodes: Vec<Node>, solutions: Vec<Solution>) -> KnowledgeBase {
    let mut kb = KnowledgeBase::new();
    kb.nodes = nodes;
    kb.solutions = solutions;
    kb
}

#[test]
fn kind_status_and_outcome_names() {
    assert_eq!(NodeKind::Concept.name(), "concept");
    assert_eq!(NodeKind::Question.name(), "question");
    assert_eq!(NodeKind::Solution.name(), "solution");
    assert_eq!(NodeKind::Latent.name(), "latent");
    assert_eq!(WeakMemoryStatus::Uncertain.name(), "uncertain");
    assert_eq!(WeakMemoryStatus::Rejected.name(), "rejected");
    assert_eq!(WeakMemoryStatus::Resolved.name(), "resolved");
    assert_eq!(SessionOutcome::Confirmed.name(), "confirmed");
    assert_eq!(SessionOutcome::Rejected.name(), "rejected");
    assert_eq!(SessionOutcome::Abandoned.name(), "abandoned");
}

#[test]
fn tokenise_lowercases_splits_and_drops_stop_words() {
    let kb = KnowledgeBase::new();
    let engine = Engine::new(&kb);
    assert_eq!(engine.tokenise("My API keeps getting 429"), strings(&["api", "keeps", "429"]));
    assert_eq!(engine.tokenise("CORS blocked!"), strings(&["cors", "blocked"]));
    assert_eq!(engine.tokenise("401 unauthorized"), strings(&["401", "unauthorized"]));
    assert_eq!(engine.tokenise("a--b,,c"), strings(&["b", "c"]));
    assert_eq!(engine.tokenise("borrow_checker"), strings(&["borrow", "checker"]));
    assert_eq!(engine.tokenise(""), Vec::<String>::new());
    assert_eq!(engine.tokenise("   ...  "), Vec::<String>::new());
    assert_eq!(engine.tokenise("why is it still the same"), strings(&["same"]));
    assert_eq!(engine.tokenise("Ünïcode ÉRROR"), strings(&["ünïcode", "érror"]));
}

#[test]
fn stop_words_are_recognised() {
    for w in ["a", "the", "keep", "getting", "also", "should"] {
        assert!(is_stop_word(&w.to_string()), "{w}");
    }
    for w in ["keeps", "error", "", "The"] {
        assert!(!is_stop_word(&w.to_string()), "{w}");
    }
}

#[test]
fn seed_tiers_follow_label_part_and_tag_matches() {
    let n = node(26, "fix_timeout", NodeKind::Solution, &["network", "http"]);
    assert_eq!(seed_tier(&n, &strings(&["fix_timeout"])), MatchTier::Label);
    assert_eq!(seed_tier(&n, &strings(&["timeout"])), MatchTier::LabelPart);
    assert_eq!(seed_tier(&n, &strings(&["fix"])), MatchTier::LabelPart);
    assert_eq!(seed_tier(&n, &strings(&["network"])), MatchTier::Tag);
    assert_eq!(seed_tier(&n, &strings(&["dns"])), MatchTier::NoMatch);
    assert_eq!(seed_tier(&n, &strings(&[])), MatchTier::NoMatch);
    assert_eq!(seed_tier(&n, &strings(&["network", "timeout", "dns"])), MatchTier::LabelPart);
    assert_eq!(seed_tier(&n, &strings(&["http", "fix_timeout"])), MatchTier::Label);
    assert_eq!(token_tier(&n, &"http".to_string()), MatchTier::Tag);
}

#[test]
fn label_parts_split_on_underscores() {
    let label = "rate__limit_".to_string();
    assert!(label_has_part(&label, &"rate".to_string()));
    assert!(label_has_part(&label, &"limit".to_string()));
    assert!(label_has_part(&label, &"".to_string()));
    assert!(!label_has_part(&label, &"rate_limit".to_string()));
    assert!(label_has_part(&"cors".to_string(), &"cors".to_string()));
    assert!(!label_has_part(&"cors".to_string(), &"cor".to_string()));
}

#[test]
fn ranking_orders_by_score_then_node_id() {
    let kb = kb_with(
        vec![
            node(1, "error", NodeKind::Concept, &[]),
            node(20, "fix_a", NodeKind::Solution, &[]),
            node(21, "fix_b", NodeKind::Solution, &[]),
            node(22, "fix_c", NodeKind::Solution, &[]),
            node(23, "fix_d", NodeKind::Solution, &[]),
        ],
        vec![solution(20, "A"), solution(21, "B"), solution(22, "C")],
    );
    let engine = Engine::new(&kb);
    let acts = vec![
        Activation { node_id: 1, score_key: 900 },
        Activation { node_id: 20, score_key: 500 },
        Activation { node_id: 21, score_key: 700 },
        Activation { node_id: 22, score_key: 500 },
        Activation { node_id: 23, score_key: 999 },
    ];
    let cands = engine.solution_candidates(&acts);
    let ids: Vec<u32> = cands.iter().map(|c| c.node_id).collect();
    assert_eq!(ids, vec![20, 21, 22]);
    let ranked = engine.rank_solutions(&acts);
    let order: Vec<(u32, usize, usize)> =
        ranked.iter().map(|c| (c.node_id, c.node_index, c.solution_index)).collect();
    assert_eq!(order, vec![(21, 2, 1), (22, 3, 2), (20, 1, 0)]);
}

#[test]
fn candidates_use_first_matching_node_and_text() {
    let kb = kb_with(
        vec![
            node(5, "concept_five", NodeKind::Concept, &[]),
            node(5, "fix_five", NodeKind::Solution, &[]),
            node(5, "fix_five_again", NodeKind::Solution, &[]),
        ],
        vec![solution(4, "four"), solution(5, "first"), solution(5, "second")],
    );
    let engine = Engine::new(&kb);
    let cands = engine.solution_candidates(&vec![Activation { node_id: 5, score_key: 1 }]);
    assert_eq!(cands.len(), 1);
    assert_eq!(cands[0].node_index, 1);
    assert_eq!(cands[0].solution_index, 1);
    assert!(engine.rank_solutions(&vec![Activation { node_id: 9, score_key: 1 }]).is_empty());
}

#[test]
fn rank_sorts_candidates() {
    let c = |score_key, node_id| Candidate { score_key, node_id, node_index: 0, solution_index: 0 };
    let ranked = rank(&vec![c(3, 1), c(7, 2), c(3, 5), c(7, 9), c(1, 10)]);
    let keys: Vec<(u32, u32)> = ranked.iter().map(|x| (x.score_key, x.node_id)).collect();
    assert_eq!(keys, vec![(7, 9), (7, 2), (3, 5), (3, 1), (1, 10)]);
    assert!(ranks_before(&c(2, 1), &c(1, 9)));
    assert!(ranks_before(&c(2, 9), &c(2, 1)));
    assert!(!ranks_before(&c(2, 1), &c(2, 1)));
    assert!(rank(&vec![]).is_empty());
}

#[test]
fn confidence_levels() {
    assert_eq!(classify_confidence(0, true, true), ConfidenceLevel::Unknown);
    assert_eq!(classify_confidence(0, false, false), ConfidenceLevel::Unknown);
    assert_eq!(classify_confidence(3, false, true), ConfidenceLevel::Low);
    assert_eq!(classify_confidence(1, true, false), ConfidenceLevel::High);
    assert_eq!(classify_confidence(2, true, true), ConfidenceLevel::High);
    assert_eq!(classify_confidence(2, true, false), ConfidenceLevel::Medium);
    assert!(ConfidenceLevel::High.answers());
    assert!(ConfidenceLevel::Medium.answers());
    assert!(!ConfidenceLevel::Low.answers());
    assert!(!ConfidenceLevel::Unknown.answers());
}

#[test]
fn blank_documents_are_empty_collections() {
    assert_eq!(document_payload(""), None);
    assert_eq!(document_payload("  \n\t "), None);
    assert_eq!(document_payload(" null\n"), None);
    assert_eq!(document_payload(" [1, 2]\n"), Some("[1, 2]"));
    assert_eq!(document_payload("nullx"), Some("nullx"));
    assert_eq!(document_payload("NULL"), Some("NULL"));
}

#[test]
fn knowledge_base_counts() {
    let mut kb = KnowledgeBase::default();
    assert_eq!(kb.node_count(), 0);
    assert_eq!(kb.edge_count(), 0);
    kb.nodes.push(node(1, "a", NodeKind::Concept, &[]));
    kb.edges.push(Edge {
        src: 1,
        dst: 2,
        weight_bits: 0,
        confidence_bits: 0,
        usage_count: 0,
        path_labels: vec![],
    });
    kb.edges.push(Edge {
        src: 2,
        dst: 1,
        weight_bits: 0,
        confidence_bits: 0,
        usage_count: 3,
        path_labels: strings(&["p"]),
    });
    assert_eq!(kb.node_count(), 1);
    assert_eq!(kb.edge_count(), 2);
}

#[test]
fn prompt_lines() {
    assert_eq!(read_prompt_line("   "), None);
    assert_eq!(read_prompt_line(""), None);
    assert_eq!(read_prompt_line(" exit "), Some(("exit".to_string(), PromptAction::Exit)));
    assert_eq!(read_prompt_line("quit"), Some(("quit".to_string(), PromptAction::Exit)));
    assert_eq!(read_prompt_line(":q\n"), Some((":q".to_string(), PromptAction::Exit)));
    assert_eq!(read_prompt_line("help"), Some(("help".to_string(), PromptAction::Help)));
    assert_eq!(read_prompt_line(":help"), Some((":help".to_string(), PromptAction::Help)));
    assert_eq!(
        read_prompt_line("  cors blocked "),
        Some(("cors blocked".to_string(), PromptAction::Query))
    );
    assert_eq!(read_prompt_line("Exit"), Some(("Exit".to_string(), PromptAction::Query)));
}

#[test]
fn run_modes() {
    let args = |query: Option<&str>, command: Option<Command>| Args {
        explain: false,
        knowledge_dir: "knowledge".to_string(),
        query: query.map(|q| q.to_string()),
        command,
    };
    assert_eq!(args(None, None).run_mode(), RunMode::Interactive);
    assert_eq!(args(Some("cors"), None).run_mode(), RunMode::SingleQuery);
    assert_eq!(
        args(Some("cors"), Some(Command::History { n: 3 })).run_mode(),
        RunMode::Subcommand(Command::History { n: 3 })
    );
    assert_eq!(args(None, Some(Command::Audit)).run_mode(), RunMode::Subcommand(Command::Audit));
}

#[test]
fn decimal_and_list_notation() {
    let mut s = String::new();
    push_decimal(&mut s, 0);
    s.push(' ');
    push_decimal(&mut s, 4294967295);
    s.push(' ');
    push_decimal(&mut s, 1000);
    assert_eq!(s, "0 4294967295 1000");
    let mut l = String::from("x");
    push_number_list(&mut l, &vec![1, 22, 333]);
    assert_eq!(l, "x[1, 22, 333]");
    let mut e = String::new();
    push_number_list(&mut e, &vec![]);
    assert_eq!(e, "[]");
    let mut j = String::new();
    push_joined(&mut j, &strings(&["a", "b", "c"]), ", ");
    assert_eq!(j, "a, b, c");
}

#[test]
fn listing_lines() {
    let s = Session {
        session_id: "2026-03-06-001".to_string(),
        path_labels: strings(&["rust_ownership_violation", "http_timeout"]),
        breaking_questions_asked: vec![3, 14],
        outcome: SessionOutcome::Confirmed,
    };
    assert_eq!(
        format_session(&s),
        "2026-03-06-001  rust_ownership_violation, http_timeout  confirmed  questions: [3, 14]"
    );
    let e = WeakMemoryEntry {
        id: "wm-0042".to_string(),
        activated_nodes: vec![13, 14],
        attempted_path: "timeout_path".to_string(),
        attempted_solution_node: Some(26),
        status: WeakMemoryStatus::Rejected,
        session_id: "s".to_string(),
        correction_node: None,
    };
    assert_eq!(
        format_weak_memory(&e),
        "wm-0042  [rejected]  nodes: [13, 14]  \u{2192}  attempted: timeout_path"
    );
    let n = node(40, "shared_pool", NodeKind::Latent, &["db", "pool"]);
    assert_eq!(format_node(&n, "latent"), "shared_pool  [latent]  tags: [db, pool]");
}

#[test]
fn listings_select_and_window() {
    let mut kb = KnowledgeBase::new();
    kb.nodes = vec![
        node(1, "a", NodeKind::Latent, &[]),
        node(2, "b", NodeKind::Concept, &["unconfirmed"]),
        node(3, "c", NodeKind::Latent, &["x", "unconfirmed"]),
    ];
    assert_eq!(
        kb.latent_listing(),
        strings(&["a  [latent]  tags: []", "c  [latent]  tags: [x, unconfirmed]"])
    );
    assert_eq!(
        kb.provisional_listing(),
        strings(&[
            "b  [provisional]  tags: [unconfirmed]",
            "c  [provisional]  tags: [x, unconfirmed]"
        ])
    );
    let session = |id: &str| Session {
        session_id: id.to_string(),
        path_labels: vec![],
        breaking_questions_asked: vec![],
        outcome: SessionOutcome::Abandoned,
    };
    kb.sessions = vec![session("s1"), session("s2"), session("s3")];
    assert_eq!(
        kb.recent_history(2),
        strings(&["s2    abandoned  questions: []", "s3    abandoned  questions: []"])
    );
    assert_eq!(kb.recent_history(10).len(), 3);
    assert!(kb.recent_history(0).is_empty());
    assert!(kb.weak_memory_listing().is_empty());
}

#[test]
fn weak_memory_lists_only_unresolved_entries() {
    let entry = |id: &str, status: WeakMemoryStatus| WeakMemoryEntry {
        id: id.to_string(),
        activated_nodes: vec![1],
        attempted_path: "p".to_string(),
        attempted_solution_node: None,
        status,
        session_id: "s".to_string(),
        correction_node: None,
    };
    let mut kb = KnowledgeBase::new();
    assert_eq!(kb.weak_memory_report(), strings(&["No weak memory entries."]));
    kb.weak_memory = vec![entry("wm-1", WeakMemoryStatus::Resolved)];
    assert!(kb.weak_memory_listing().is_empty());
    assert_eq!(kb.weak_memory_report(), strings(&["No weak memory entries."]));
    kb.weak_memory = vec![
        entry("wm-1", WeakMemoryStatus::Uncertain),
        entry("wm-2", WeakMemoryStatus::Resolved),
        entry("wm-3", WeakMemoryStatus::Rejected),
    ];
    assert_eq!(
        kb.weak_memory_report(),
        strings(&[
            "wm-1  [uncertain]  nodes: [1]  \u{2192}  attempted: p",
            "wm-3  [rejected]  nodes: [1]  \u{2192}  attempted: p"
        ])
    );
}

#[test]
fn reports_fall_back_to_messages() {
    let mut kb = KnowledgeBase::new();
    assert_eq!(kb.history_report(5), strings(&["No sessions recorded yet."]));
    assert_eq!(kb.latent_report(), strings(&["No latent nodes discovered yet."]));
    assert_eq!(kb.provisional_report(), strings(&["No provisional nodes pending."]));
    kb.sessions = vec![Session {
        session_id: "s1".to_string(),
        path_labels: vec![],
        breaking_questions_asked: vec![],
        outcome: SessionOutcome::Rejected,
    }];
    assert!(kb.history_report(0).is_empty());
    assert_eq!(kb.history_report(1), strings(&["s1    rejected  questions: []"]));
    kb.nodes = vec![node(7, "hidden", NodeKind::Latent, &["unconfirmed"])];
    assert_eq!(kb.latent_report(), strings(&["hidden  [latent]  tags: [unconfirmed]"]));
    assert_eq!(kb.provisional_report(), strings(&["hidden  [provisional]  tags: [unconfirmed]"]));
}

#[test]
fn hop_schedule() {
    assert_eq!(MAX_HOPS, 4);
    assert_eq!(after_hop(1, false), HopOutcome::Stop);
    assert_eq!(after_hop(1, true), HopOutcome::Accumulate { next_hop: Some(2) });
    assert_eq!(after_hop(3, true), HopOutcome::Accumulate { next_hop: Some(4) });
    assert_eq!(after_hop(4, true), HopOutcome::Accumulate { next_hop: None });
    assert_eq!(after_hop(4, false), HopOutcome::Stop);
}

#[test]
fn unicode_white_space_is_trimmed() {
    assert_eq!(document_payload("\u{3000}null\u{a0}\u{2028}"), None);
    assert_eq!(document_payload("\u{85}\u{1680} [] \u{202f}"), Some("[]"));
    assert_eq!(document_payload("\u{200b}null"), Some("\u{200b}null"));
    assert_eq!(read_prompt_line("\u{2003}quit\r\n"), Some(("quit".to_string(), PromptAction::Exit)));
}

#[test]
fn tokens_ignore_case_repeat_and_concatenate() {
    let kb = KnowledgeBase::new();
    let engine = Engine::new(&kb);
    let a = "Why is my CORS-Request BLOCKED by the Server";
    let b = "429 Too_Many requests";
    let ta = engine.tokenise(a);
    assert_eq!(ta, engine.tokenise(&a.to_lowercase()));
    assert_eq!(ta, engine.tokenise(&a.to_uppercase()));
    assert_eq!(engine.tokenise(&ta.join(" ")), ta);
    let tb = engine.tokenise(b);
    assert_eq!(engine.tokenise(&format!("{} {}", a, b)), [ta, tb].concat());
}
