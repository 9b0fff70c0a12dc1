use assetiweave::error::AppError;
use assetiweave::models::ConversationRecordKind;
use assetiweave::search_plan::{
    incremental_match_for, incremental_scope, plan_conversation_search, recent_run_limit, search_index_health,
    status_from_state, SearchIndexState,
    ConversationSearchParams, ConversationSyncDelta, SearchRetrievalMode,
};

fn params(query: &str) -> ConversationSearchParams {
    ConversationSearchParams {
        query: query.to_string(),
        record_kind: None,
        adapter_id: None,
        source_id: None,
        project_path: Some("/home/u/proj".to_string()),
        content_types: Vec::new(),
        card_kinds: Vec::new(),
        semantic_roles: Vec::new(),
        include_questions: None,
        include_cards: None,
        since: None,
        until: None,
        timeline: false,
        limit: None,
        offset: None,
        retrieval_mode: None,
    }
}

fn strings(values: &[&str]) -> Vec<String> {
    values.iter().map(|value| value.to_string()).collect()
}

fn validation_message(result: Result<impl Sized, AppError>) -> String {
    match result {
        Err(AppError::Validation(message)) => message,
        _ => panic!("expected a validation error"),
    }
}

#[test]
fn search_defaults_to_sessions_questions_and_cards_through_the_index() {
    let plan = plan_conversation_search(&params("  retry budget  "), false).unwrap();
    assert_eq!(plan.query, "retry budget");
    assert_eq!(plan.record_kind_label, "session");
    assert_eq!(plan.record_kind, ConversationRecordKind::Session);
    assert_eq!(plan.limit, 50);
    assert_eq!(plan.offset, 0);
    assert_eq!(plan.project_path.as_deref(), Some("/home/u/proj"));
    assert!(plan.include_questions);
    assert!(plan.include_cards);
    assert!(plan.use_index);
    assert_eq!(plan.fallback_backend, "legacy_scan");
}

#[test]
fn search_refuses_empty_long_and_unsupported_requests() {
    assert_eq!(
        validation_message(plan_conversation_search(&params("   "), false)),
        "conversation search query is required"
    );
    assert_eq!(
        validation_message(plan_conversation_search(&params(&"x".repeat(513)), false)),
        "conversation search query must not exceed 512 characters"
    );
    assert!(plan_conversation_search(&params(&"é".repeat(512)), false).is_ok());
    let mut semantic = params("q");
    semantic.retrieval_mode = Some(SearchRetrievalMode::Semantic);
    assert_eq!(
        validation_message(plan_conversation_search(&semantic, false)),
        "conversation search retrieval mode semantic is not supported; supported modes: lexical"
    );
    let mut hybrid = params("q");
    hybrid.retrieval_mode = Some(SearchRetrievalMode::Hybrid);
    assert_eq!(
        validation_message(plan_conversation_search(&hybrid, false)),
        "conversation search retrieval mode hybrid is not supported; supported modes: lexical"
    );
    let mut kind = params("q");
    kind.record_kind = Some("mail".to_string());
    assert_eq!(
        validation_message(plan_conversation_search(&kind, false)),
        "unsupported conversation record kind: mail"
    );
}

#[test]
fn content_types_split_into_card_kinds_and_semantic_roles() {
    let mut p = params("q");
    p.content_types = strings(&["question", "answer", "plan", "code", "plan"]);
    p.card_kinds = strings(&["diff"]);
    let plan = plan_conversation_search(&p, false).unwrap();
    assert_eq!(plan.card_kinds, strings(&["diff", "plan"]));
    assert_eq!(plan.semantic_roles, strings(&["answer", "code"]));
    assert_eq!(plan.scan_content_types, strings(&["question", "answer", "plan", "code", "plan", "diff"]));
    assert!(plan.include_questions);
    assert!(plan.include_cards);
}

#[test]
fn web_searches_drop_the_project_and_time_filters_skip_the_index() {
    let mut p = params("q");
    p.record_kind = Some("web_records".to_string());
    p.since = Some("2024-01-01T00:00:00Z".to_string());
    p.limit = Some(10_000);
    p.offset = Some(7);
    let plan = plan_conversation_search(&p, false).unwrap();
    assert_eq!(plan.record_kind, ConversationRecordKind::Web);
    assert_eq!(plan.record_kind_label, "web");
    assert_eq!(plan.project_path, None);
    assert_eq!(plan.limit, 500);
    assert_eq!(plan.offset, 7);
    assert!(!plan.use_index);
    let incremental = plan_conversation_search(&params("q"), true).unwrap();
    assert!(!incremental.use_index);
    assert_eq!(incremental.fallback_backend, "incremental_delta_scan");
    let mut zero = params("q");
    zero.limit = Some(0);
    assert_eq!(plan_conversation_search(&zero, false).unwrap().limit, 1);
}

#[test]
fn recent_runs_default_to_three_and_stay_between_one_and_twenty() {
    assert_eq!(recent_run_limit(None), 3);
    assert_eq!(recent_run_limit(Some(0)), 1);
    assert_eq!(recent_run_limit(Some(7)), 7);
    assert_eq!(recent_run_limit(Some(99)), 20);
}

fn delta(run: &str, session: &str, kind: &str) -> ConversationSyncDelta {
    ConversationSyncDelta {
        sync_run_id: run.to_string(),
        session_id: session.to_string(),
        change_kind: kind.to_string(),
        observed_at: format!("{run}-{session}"),
    }
}

#[test]
fn incremental_scope_counts_distinct_runs_and_sessions() {
    let deltas = vec![
        delta("run-2", "s1", "updated"),
        delta("run-2", "s2", "created"),
        delta("run-1", "s1", "created"),
    ];
    let scope = incremental_scope(3, &deltas);
    assert_eq!(scope.recent_runs, 3);
    assert_eq!(scope.included_run_count, 2);
    assert_eq!(scope.changed_session_count, 2);
    let first = incremental_match_for(&deltas, "s1").unwrap();
    assert_eq!(first.sync_run_id, "run-2");
    assert_eq!(first.change_kind, "updated");
    assert_eq!(first.observed_at, "run-2-s1");
    assert!(incremental_match_for(&deltas, "s9").is_none());
    let empty = incremental_scope(1, &Vec::new());
    assert_eq!(empty.included_run_count, 0);
    assert_eq!(empty.changed_session_count, 0);
}

#[test]
fn search_index_status_reflects_compatibility_and_lease() {
    let ok = search_index_health("ready", true, None, false);
    assert_eq!(ok.health, "ready");
    assert_eq!(ok.last_error, None);
    assert!(!ok.is_rebuilding);
    let stale = search_index_health("ready", false, None, true);
    assert_eq!(stale.health, "failed");
    assert_eq!(
        stale.last_error.as_deref(),
        Some("conversation search index schema or tokenizer version is incompatible")
    );
    assert!(stale.is_rebuilding);
    let own = search_index_health("degraded", false, Some("disk full".to_string()), false);
    assert_eq!(own.health, "failed");
    assert_eq!(own.last_error.as_deref(), Some("disk full"));
}

#[test]
fn search_index_status_copies_the_state() {
    let state = SearchIndexState {
        health: "ready".to_string(),
        compatible: false,
        last_error: None,
        lease_owner: Some("worker-1".to_string()),
        lease_expires_at: Some("2026-01-01T00:05:00Z".to_string()),
        supported_modes: vec!["keyword".to_string(), "semantic".to_string()],
        copied: (3i64, 7i64, 42u64),
    };
    let status = status_from_state(state);
    assert_eq!(status.health, "failed");
    assert_eq!(status.last_error.as_deref(), Some("conversation search index schema or tokenizer version is incompatible"));
    assert!(status.is_rebuilding);
    assert_eq!(status.lease_owner.as_deref(), Some("worker-1"));
    assert_eq!(status.lease_expires_at.as_deref(), Some("2026-01-01T00:05:00Z"));
    assert_eq!(status.supported_modes, vec!["keyword".to_string(), "semantic".to_string()]);
    assert_eq!(status.copied, (3, 7, 42));
}
