use assetiweave::agent_market::{
    agent_assignment_refs_from_settings, installability, settings_without_agent_assignments,
    AgentAssignment, AgentSettings, DistributionCandidate,
};
use assetiweave::consolidation::{
    available_candidate_references, consolidation_next_action, ConsolidationAction, ConsolidationEvent, check_work_order_fresh, choose_consolidation_operations, consolidation_input_unchanged,
    consolidation_should_run, WorkOrderCheckpoint,
    category_label, default_consolidation_operations, evidence_fingerprint, l3_revision_hash,
    operation_nomination, should_trigger_global_consolidation, validate_consolidation_operations,
    GlobalConsolidationOperation, promotion_nomination_for_source_refs, resolve_global_reference, L3CandidateReferenceView,
    L3PromotionCandidate, MemoryItemCategory, MemoryItemStatus, MemoryPromotionNomination,
};
use assetiweave::error::AppError;
use sha2::{Digest, Sha256};
use assetiweave::maintenance::{
    audit_issue_source_scope, conversation_audit_fingerprint, validate_conversation_maintenance_scope,
};

fn reference(key: &str, project: &str, role: Option<&str>, available: bool) -> L3CandidateReferenceView {
    L3CandidateReferenceView {
        project_key: project.to_string(),
        source_id: "source".to_string(),
        session_id: "session".to_string(),
        reference_key: key.to_string(),
        role: role.map(str::to_string),
        question_id: None,
        turn_id: None,
        part_id: None,
        node_id: None,
        source_revision: 3,
        available,
        unavailable_reason: None,
    }
}

fn candidate(nomination: MemoryPromotionNomination, refs: Vec<L3CandidateReferenceView>) -> L3PromotionCandidate {
    L3PromotionCandidate {
        item_id: "item".to_string(),
        item_revision_id: "rev".to_string(),
        nomination,
        category: MemoryItemCategory::Decision,
        status: MemoryItemStatus::Active,
        title: "title".to_string(),
        summary: "summary".to_string(),
        rationale: "rationale".to_string(),
        supporting_project_keys: Vec::new(),
        session_references: refs,
    }
}

fn keys(values: &[&str]) -> Vec<String> {
    values.iter().map(|v| v.to_string()).collect()
}

#[test]
fn global_rule_needs_an_available_user_reference() {
    let rule = candidate(
        MemoryPromotionNomination::GlobalRule,
        vec![
            reference("k1", "alpha", Some("assistant"), true),
            reference("k2", "alpha", Some("user"), false),
            reference("k3", "alpha", Some("user"), true),
        ],
    );
    let candidates = vec![rule];
    assert_eq!(
        promotion_nomination_for_source_refs(&candidates, &keys(&["k1", "k2"])),
        MemoryPromotionNomination::NoNomination
    );
    assert_eq!(
        promotion_nomination_for_source_refs(&candidates, &keys(&["k3"])),
        MemoryPromotionNomination::GlobalRule
    );
}

#[test]
fn cross_project_pattern_needs_two_real_projects() {
    let pattern = candidate(
        MemoryPromotionNomination::CrossProjectPattern,
        vec![
            reference("a", "alpha", None, true),
            reference("b", "unassigned", None, true),
            reference("c", "", None, true),
            reference("d", "beta", None, false),
            reference("e", "beta", None, true),
            reference("f", "alpha", None, true),
        ],
    );
    let candidates = vec![pattern];
    assert_eq!(
        promotion_nomination_for_source_refs(&candidates, &keys(&["a", "b", "c", "d", "f"])),
        MemoryPromotionNomination::NoNomination
    );
    assert_eq!(
        promotion_nomination_for_source_refs(&candidates, &keys(&["a", "e"])),
        MemoryPromotionNomination::CrossProjectPattern
    );
}

#[test]
fn first_supporting_candidate_decides() {
    let other = candidate(
        MemoryPromotionNomination::ProjectDecision,
        vec![reference("x", "alpha", Some("user"), true)],
    );
    let rule = candidate(
        MemoryPromotionNomination::GlobalRule,
        vec![reference("x", "alpha", Some("user"), true)],
    );
    assert_eq!(
        promotion_nomination_for_source_refs(&[other, rule], &keys(&["x"])),
        MemoryPromotionNomination::GlobalRule
    );
    assert_eq!(
        promotion_nomination_for_source_refs(&[], &keys(&["x"])),
        MemoryPromotionNomination::NoNomination
    );
}

#[test]
fn references_resolve_within_the_work_order() {
    let refs = vec![
        reference("k", "alpha", None, true),
        reference("k", "beta", None, true),
    ];
    let found = resolve_global_reference(&refs, "k", true).unwrap();
    assert_eq!(found.project_key, "beta");
    match resolve_global_reference(&refs, "missing", true) {
        Err(AppError::Validation(message)) => assert_eq!(
            message,
            "MEMORY_OUTPUT_INVALID: global reference is outside the Work Order: missing"
        ),
        other => panic!("unexpected {other:?}"),
    }
    let placeholder = resolve_global_reference(&refs, "missing", false).unwrap();
    assert_eq!(placeholder.project_key, "unassigned");
    assert_eq!(placeholder.session_id, "global_evidence");
    assert_eq!(placeholder.reference_key, "missing");
    assert_eq!(placeholder.source_revision, 1);
    assert!(placeholder.available);
}

#[test]
fn installability_prefers_selectable_distributions() {
    let selectable = DistributionCandidate { selectable: true, reason_code: None };
    let missing = DistributionCandidate { selectable: false, reason_code: Some("runtime_missing".to_string()) };
    let other = DistributionCandidate { selectable: false, reason_code: Some("platform".to_string()) };
    assert_eq!(installability(&[]), "unsupported");
    assert_eq!(installability(&[other]), "unsupported");
    let missing2 = DistributionCandidate { selectable: false, reason_code: Some("runtime_missing".to_string()) };
    assert_eq!(installability(&[missing]), "runtime-required");
    assert_eq!(installability(&[missing2, selectable]), "installable");
}

#[test]
fn agent_assignments_are_found_and_removed_by_key() {
    let settings = AgentSettings {
        agent_assignments: Some(vec![
            AgentAssignment { key: "chat".to_string(), agent_id: Some("codex".to_string()) },
            AgentAssignment { key: "memory".to_string(), agent_id: Some("opencode".to_string()) },
            AgentAssignment { key: "search".to_string(), agent_id: Some("codex".to_string()) },
            AgentAssignment { key: "misc".to_string(), agent_id: None },
        ]),
    };
    let refs = agent_assignment_refs_from_settings(&settings, "codex");
    assert_eq!(refs, vec!["chat".to_string(), "search".to_string()]);
    let trimmed = settings_without_agent_assignments(settings, &refs);
    let left: Vec<String> = trimmed.agent_assignments.unwrap().into_iter().map(|a| a.key).collect();
    assert_eq!(left, vec!["memory".to_string(), "misc".to_string()]);
    let empty = AgentSettings { agent_assignments: None };
    assert!(agent_assignment_refs_from_settings(&empty, "codex").is_empty());
    assert!(settings_without_agent_assignments(empty, &refs).agent_assignments.is_none());
}

#[test]
fn maintenance_scopes_and_fingerprints() {
    assert_eq!(conversation_audit_fingerprint("session", "orphan", None), "session:orphan");
    assert_eq!(
        conversation_audit_fingerprint("web", "orphan", Some("src")),
        "web:orphan:source:src"
    );
    assert_eq!(audit_issue_source_scope("search_index_mismatch", Some("src")), None);
    assert_eq!(audit_issue_source_scope("orphan", Some("src")), Some("src"));
    assert!(validate_conversation_maintenance_scope(Some("web"), Some("src")).is_ok());
    assert!(validate_conversation_maintenance_scope(None, None).is_ok());
    match validate_conversation_maintenance_scope(Some("assets"), Some(" ")) {
        Err(AppError::Validation(message)) => {
            assert_eq!(message, "unsupported conversation record kind: assets")
        }
        other => panic!("unexpected {other:?}"),
    }
    match validate_conversation_maintenance_scope(Some("session"), Some("  ")) {
        Err(AppError::Validation(message)) => {
            assert_eq!(message, "conversation maintenance source_id must not be empty")
        }
        other => panic!("unexpected {other:?}"),
    }
}

#[test]
fn consolidation_runs_only_with_candidates_and_when_due() {
    let now = "2026-01-08T00:00:00Z";
    assert!(!should_trigger_global_consolidation(0, now, true, None));
    assert!(should_trigger_global_consolidation(1, now, true, Some("2026-01-07T00:00:00Z")));
    assert!(should_trigger_global_consolidation(8, now, false, Some("2026-01-07T00:00:00Z")));
    assert!(should_trigger_global_consolidation(1, now, false, None));
    assert!(should_trigger_global_consolidation(1, now, false, Some("not a time")));
    assert!(should_trigger_global_consolidation(1, now, false, Some("2026-01-01T00:00:00Z")));
    assert!(!should_trigger_global_consolidation(1, now, false, Some("2026-01-01T00:00:01Z")));
    assert!(!should_trigger_global_consolidation(7, now, false, Some("2026-01-05T00:00:00+02:00")));
}

#[test]
fn default_operations_create_each_candidate_with_available_references() {
    let rule = candidate(
        MemoryPromotionNomination::GlobalRule,
        vec![reference("k1", "alpha", Some("user"), true), reference("k2", "alpha", None, false)],
    );
    let candidates = vec![rule];
    let ops = default_consolidation_operations(&candidates);
    assert_eq!(ops.len(), 1);
    match &ops[0] {
        GlobalConsolidationOperation::Create { title, statement, source_refs, .. } => {
            assert_eq!(title, "title");
            assert_eq!(statement, "summary");
            assert_eq!(source_refs, &vec!["k1".to_string()]);
        }
        _ => panic!("expected a creation"),
    }
    assert!(validate_consolidation_operations(&ops, &candidates, true).is_ok());
    let unsupported = vec![GlobalConsolidationOperation::Revise {
        item_id: "mem-1".to_string(),
        statement: "s".to_string(),
        rationale: "r".to_string(),
        source_refs: vec!["k2".to_string()],
    }];
    match validate_consolidation_operations(&unsupported, &candidates, true) {
        Err(AppError::Validation(message)) => assert_eq!(
            message,
            "MEMORY_OUTPUT_INVALID: global operation has no valid global or cross-project scope"
        ),
        other => panic!("unexpected {other:?}"),
    }
    assert!(validate_consolidation_operations(&unsupported, &candidates, false).is_ok());
    let keep = vec![GlobalConsolidationOperation::Keep { item_id: "mem-1".to_string() }];
    assert!(validate_consolidation_operations(&keep, &candidates, true).is_ok());
    assert_eq!(
        operation_nomination(&candidates, &["k2".to_string()], false),
        MemoryPromotionNomination::GlobalRule
    );
    assert_eq!(
        operation_nomination(&candidates, &["k2".to_string()], true),
        MemoryPromotionNomination::NoNomination
    );
}

#[test]
fn fingerprints_and_revision_hashes_digest_their_texts() {
    let expected = format!("{:x}", Sha256::digest(b"titlestatement"));
    assert_eq!(evidence_fingerprint("title", "statement"), expected);
    let empty = format!("{:x}", Sha256::digest(b"l3-empty-tenant"));
    assert_eq!(l3_revision_hash(&[], "tenant"), empty);
    let joined = format!("{:x}", Sha256::digest(b"rev-1:rev-2"));
    assert_eq!(l3_revision_hash(&["rev-1".to_string(), "rev-2".to_string()], "tenant"), joined);
    assert_eq!(category_label(MemoryItemCategory::FollowUp), "follow_up");
}

#[test]
fn consolidation_runs_past_its_gate_with_given_operations_or_when_due() {
    let now = "2026-01-08T00:00:00Z";
    assert!(consolidation_should_run(true, 0, now, false, Some("2026-01-07T00:00:00Z")));
    assert!(!consolidation_should_run(false, 0, now, true, None));
    assert!(consolidation_should_run(false, 3, now, false, None));
    assert!(!consolidation_should_run(false, 3, now, false, Some("2026-01-07T00:00:00Z")));
}

#[test]
fn unchanged_input_skips_a_run_unless_rebuilt_by_hand() {
    assert!(consolidation_input_unchanged(Some("fp-1"), "fp-1", false));
    assert!(!consolidation_input_unchanged(Some("fp-1"), "fp-1", true));
    assert!(!consolidation_input_unchanged(Some("fp-0"), "fp-1", false));
    assert!(!consolidation_input_unchanged(None, "fp-1", false));
}

#[test]
fn stale_work_orders_are_refused_at_each_checkpoint() {
    assert!(check_work_order_fresh(WorkOrderCheckpoint::AfterEnqueue, "t", "t", "fp", "fp").is_ok());
    for (at, text) in [
        (WorkOrderCheckpoint::AfterEnqueue, "global maintenance evidence changed after enqueue"),
        (WorkOrderCheckpoint::BeforeExecution, "global maintenance evidence changed before execution"),
        (WorkOrderCheckpoint::BeforeCommit, "global maintenance evidence changed before commit"),
    ] {
        match check_work_order_fresh(at, "t", "t", "fp-old", "fp-new") {
            Err(AppError::Domain { code, message, retryable, details }) => {
                assert_eq!(code, "MEMORY_WORK_ORDER_STALE");
                assert_eq!(message, text);
                assert!(!retryable);
                assert!(details.is_none());
            }
            other => panic!("unexpected {other:?}"),
        }
    }
    assert!(check_work_order_fresh(WorkOrderCheckpoint::AfterEnqueue, "other", "t", "fp", "fp").is_err());
    assert!(check_work_order_fresh(WorkOrderCheckpoint::BeforeCommit, "other", "t", "fp", "fp").is_ok());
}

#[test]
fn operations_come_from_the_caller_then_the_agent_then_the_candidates() {
    let candidates = vec![candidate(
        MemoryPromotionNomination::GlobalRule,
        vec![reference("k1", "alpha", Some("user"), true)],
    )];
    let keep = || vec![GlobalConsolidationOperation::Keep { item_id: "mem-1".to_string() }];
    let custom = choose_consolidation_operations(Some(keep()), Some(Vec::new()), &candidates);
    assert!(matches!(custom.as_slice(), [GlobalConsolidationOperation::Keep { .. }]));
    let agent = choose_consolidation_operations(None, Some(Vec::new()), &candidates);
    assert!(agent.is_empty());
    let defaults = choose_consolidation_operations(None, None, &candidates);
    assert!(matches!(defaults.as_slice(), [GlobalConsolidationOperation::Create { .. }]));
}

#[test]
fn work_order_references_are_the_available_ones_and_the_last_key_wins() {
    let candidates = vec![
        candidate(
            MemoryPromotionNomination::CrossProjectPattern,
            vec![reference("r1", "p1", None, true), reference("r2", "p1", None, false)],
        ),
        candidate(
            MemoryPromotionNomination::CrossProjectPattern,
            vec![reference("r1", "p2", None, true), reference("r3", "p2", None, true)],
        ),
    ];
    let refs = available_candidate_references(&candidates);
    let keys: Vec<(&str, &str)> = refs.iter().map(|r| (r.reference_key.as_str(), r.project_key.as_str())).collect();
    assert_eq!(keys, vec![("r1", "p1"), ("r1", "p2"), ("r3", "p2")]);
    let resolved = resolve_global_reference(&refs, "r1", true).ok().unwrap();
    assert_eq!(resolved.project_key, "p2");
    assert!(resolve_global_reference(&refs, "r2", true).is_err());
}

#[test]
fn consolidation_steps_follow_the_checks() {
    type E = ConsolidationEvent;
    type A = ConsolidationAction;
    assert_eq!(consolidation_next_action(E::InputLoaded { stale: false }), A::CheckGate);
    assert_eq!(
        consolidation_next_action(E::InputLoaded { stale: true }),
        A::FailStale(WorkOrderCheckpoint::AfterEnqueue)
    );
    assert_eq!(consolidation_next_action(E::GateDecided { run: false }), A::FinishWithCurrentView);
    assert_eq!(consolidation_next_action(E::GateDecided { run: true }), A::LockAndLoadExecutionInput);
    assert_eq!(
        consolidation_next_action(E::ExecutionInputChecked { stale: true }),
        A::FailStale(WorkOrderCheckpoint::BeforeExecution)
    );
    assert_eq!(consolidation_next_action(E::ExecutionInputChecked { stale: false }), A::CompareFingerprint);
    assert_eq!(consolidation_next_action(E::FingerprintCompared { unchanged: true }), A::FinishWithCurrentView);
    assert_eq!(consolidation_next_action(E::FingerprintCompared { unchanged: false }), A::ObtainOperations);
    assert_eq!(consolidation_next_action(E::OperationsObtained { failed: true }), A::FailOperations);
    assert_eq!(consolidation_next_action(E::OperationsObtained { failed: false }), A::CheckBeforeCommit);
    assert_eq!(
        consolidation_next_action(E::CommitInputChecked { stale: true }),
        A::FailStale(WorkOrderCheckpoint::BeforeCommit)
    );
    assert_eq!(consolidation_next_action(E::CommitInputChecked { stale: false }), A::ValidateAndCommit);
}
