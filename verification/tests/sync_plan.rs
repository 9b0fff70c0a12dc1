use assetiweave::error::AppError;
use assetiweave::maintenance::{
    active_audit_fingerprints, check_repair_confirmed, repair_audit_progress, repair_resync_stage, AuditIssueKey,
};
use assetiweave::models::ConversationSource;
use assetiweave::sync_plan::{
    conversation_sync_counts, conversation_sync_result, group_sync_sources, select_sync_sources, JsonMember, SourceReadCounts, sync_applies_payload_policy, sync_task_outcome, SyncTaskOutcome,
};

fn source(id: &str, adapter: &str, enabled: bool) -> ConversationSource {
    ConversationSource { id: id.to_string(), adapter_id: adapter.to_string(), name: format!("{id} name"), enabled }
}

fn sources() -> Vec<ConversationSource> {
    vec![
        source("s1", "qwen-web", true),
        source("s2", "codex", true),
        source("s3", "codex", false),
        source("s4", "aider", true),
        source("s5", "codex", true),
    ]
}

fn ids(v: &[ConversationSource]) -> Vec<&str> {
    v.iter().map(|s| s.id.as_str()).collect()
}

#[test]
fn syncs_run_over_the_enabled_matching_sources() {
    assert_eq!(ids(&select_sync_sources(sources(), None, None).unwrap()), vec!["s1", "s2", "s4", "s5"]);
    assert_eq!(ids(&select_sync_sources(sources(), None, Some("codex")).unwrap()), vec!["s2", "s5"]);
    assert_eq!(ids(&select_sync_sources(sources(), Some("s5"), Some("codex")).unwrap()), vec!["s5"]);
    for (source_id, adapter_id) in [(Some("s3"), None), (Some("s1"), Some("codex")), (None, Some("none"))] {
        match select_sync_sources(sources(), source_id, adapter_id) {
            Err(AppError::NotFound(message)) => assert_eq!(message, "no matching conversation sources"),
            other => panic!("unexpected {:?}", other.map(|v| v.len())),
        }
    }
}

#[test]
fn sync_groups_follow_adapter_order_and_keep_source_order() {
    let groups = group_sync_sources(select_sync_sources(sources(), None, None).unwrap());
    let keys: Vec<&str> = groups.iter().map(|g| g.adapter_id.as_str()).collect();
    assert_eq!(keys, vec!["aider", "codex", "qwen-web"]);
    assert_eq!(ids(&groups[1].sources), vec!["s2", "s5"]);
    assert_eq!(ids(&groups[0].sources), vec!["s4"]);
    assert!(group_sync_sources(Vec::new()).is_empty());
}

#[test]
fn sync_outcomes_count_successes_and_failures() {
    match sync_task_outcome(0, 0) {
        Err(AppError::NotFound(message)) => assert_eq!(message, "no matching conversation sources"),
        _ => panic!("an empty run matched nothing"),
    }
    match sync_task_outcome(3, 0).unwrap() {
        SyncTaskOutcome::Success { message } => assert_eq!(message, "成功同步 3 个数据源"),
        _ => panic!("expected success"),
    }
    match sync_task_outcome(2, 1).unwrap() {
        SyncTaskOutcome::PartialSuccess { message, error } => {
            assert_eq!(message, "部分成功：2 成功，1 失败");
            assert_eq!(error, "1 个数据源同步发生异常");
        }
        _ => panic!("expected partial success"),
    }
    match sync_task_outcome(0, 4).unwrap() {
        SyncTaskOutcome::Failure { error } => assert_eq!(error, "所有数据源同步均失败（共 4 个）"),
        _ => panic!("expected failure"),
    }
    assert!(sync_applies_payload_policy(false, false, false, false, 0));
    assert!(!sync_applies_payload_policy(true, false, false, false, 0));
    assert!(!sync_applies_payload_policy(false, true, false, false, 0));
    assert!(!sync_applies_payload_policy(false, false, false, true, 0));
    assert!(!sync_applies_payload_policy(false, false, false, false, 1));
}

#[test]
fn repairs_report_progress_in_their_own_stages() {
    assert_eq!(repair_audit_progress(1, 3), (1, 10));
    assert_eq!(repair_audit_progress(7, 12), (2, 12));
    assert_eq!(repair_resync_stage(0, 0), 4);
    assert_eq!(repair_resync_stage(0, 4), 3);
    assert_eq!(repair_resync_stage(2, 4), 4);
    assert_eq!(repair_resync_stage(4, 4), 5);
    assert_eq!(repair_resync_stage(usize::MAX, 3), 5);
    assert!(check_repair_confirmed(true).is_ok());
    match check_repair_confirmed(false) {
        Err(AppError::Validation(message)) => assert_eq!(message, "conversation.data.repair requires yes=true"),
        other => panic!("unexpected {other:?}"),
    }
}

#[test]
fn open_issues_are_fingerprinted_once_in_order() {
    let issues = vec![
        AuditIssueKey { category: "orphan_parts".to_string(), record_kind: Some("session".to_string()) },
        AuditIssueKey { category: "search_index_mismatch".to_string(), record_kind: None },
        AuditIssueKey { category: "orphan_parts".to_string(), record_kind: Some("session".to_string()) },
    ];
    assert_eq!(
        active_audit_fingerprints(&issues, Some("src-1")),
        vec!["all:search_index_mismatch".to_string(), "session:orphan_parts:source:src-1".to_string()]
    );
    assert_eq!(
        active_audit_fingerprints(&issues, None),
        vec!["all:search_index_mismatch".to_string(), "session:orphan_parts".to_string()]
    );
}

#[test]
fn sync_counts_add_store_skips_to_read_skips() {
    let read = SourceReadCounts {
        discovered_session_count: 12,
        active_session_count: 9,
        skipped_session_count: 3,
        incremental: true,
    };
    let counts = conversation_sync_counts(&read, 2, 7, "full", 4usize);
    assert_eq!(counts.mode, "full");
    assert_eq!(counts.legacy_cards_upgraded, 4);
    assert_eq!(counts.session_count, 12);
    assert_eq!(counts.active_session_count, 9);
    assert_eq!(counts.skipped_session_count, 5);
    assert!(counts.incremental);
    assert_eq!(counts.retained_session_count, 7);
}

#[test]
fn sync_result_sets_the_read_counts_over_the_import_result() {
    let read = SourceReadCounts {
        discovered_session_count: 12,
        active_session_count: 9,
        skipped_session_count: 3,
        incremental: false,
    };
    let result = vec![
        ("imported_session_count".to_string(), JsonMember::Count(4)),
        ("skipped_session_count".to_string(), JsonMember::Count(2)),
        ("session_count".to_string(), JsonMember::Count(99)),
        ("source_id".to_string(), JsonMember::Other("\"src-1\"".to_string())),
    ];
    let merged = conversation_sync_result(
        result,
        &read,
        JsonMember::Count(1),
        JsonMember::Other("\"full\"".to_string()),
        8,
    );
    let get = |key: &str| merged.iter().find(|(k, _)| k == key).map(|(_, v)| v);
    assert!(matches!(get("session_count"), Some(JsonMember::Count(12))));
    assert!(matches!(get("active_session_count"), Some(JsonMember::Count(9))));
    assert!(matches!(get("skipped_session_count"), Some(JsonMember::Count(5))));
    assert!(matches!(get("incremental"), Some(JsonMember::Flag(false))));
    assert!(matches!(get("mode"), Some(JsonMember::Other(t)) if t == "\"full\""));
    assert!(matches!(get("legacy_cards_upgraded"), Some(JsonMember::Count(1))));
    assert!(matches!(get("retained_session_count"), Some(JsonMember::Count(8))));
    assert!(matches!(get("imported_session_count"), Some(JsonMember::Count(4))));
    assert!(matches!(get("source_id"), Some(JsonMember::Other(t)) if t == "\"src-1\""));
    assert_eq!(merged.iter().filter(|(k, _)| k == "session_count").count(), 1);

    let without = conversation_sync_result(vec![], &read, JsonMember::Flag(true), JsonMember::Other("\"x\"".to_string()), 0);
    assert!(matches!(without.iter().find(|(k, _)| k == "skipped_session_count"), Some((_, JsonMember::Count(3)))));
}
