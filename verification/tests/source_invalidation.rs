use assetiweave::source_invalidation::{
    reconcile_source_invalidation_rows, MemoryItemState, SessionState, SourceReferenceRow, SourceState,
};

fn reference(item: &str, source: &str, session: &str) -> SourceReferenceRow {
    SourceReferenceRow {
        item_id: item.to_string(),
        source_id: source.to_string(),
        session_id: session.to_string(),
        available: true,
        unavailable_reason: None,
        unavailable_at: None,
    }
}

fn item(id: &str, layer: &str) -> MemoryItemState {
    MemoryItemState {
        id: id.to_string(),
        layer: layer.to_string(),
        lifecycle: "current".to_string(),
        updated_at: "2026-09-01T00:00:00Z".to_string(),
    }
}

const NOW: &str = "2026-09-15T00:00:00+00:00";

#[test]
fn test_m35_l3_04_source_invalidation_updates_reference_keeps_l2_l3() {
    let mut refs = vec![reference("l2-item", "src-1", "sess-1"), reference("l3-item", "src-1", "sess-1")];
    let mut items = vec![item("l2-item", "l2"), item("l3-item", "l3")];
    let sources = vec![SourceState { id: "src-1".to_string(), enabled: true }];
    let sessions = vec![SessionState { id: "sess-1".to_string(), missing: true }];
    let affected =
        reconcile_source_invalidation_rows(&mut refs, &mut items, &sources, &sessions, &vec![], &vec![], NOW);
    assert_eq!(affected, 2);
    for r in &refs {
        assert!(!r.available);
        assert_eq!(r.unavailable_reason.as_deref(), Some("missing"));
        assert_eq!(r.unavailable_at.as_deref(), Some(NOW));
    }
    assert_eq!(items[0].lifecycle, "current");
    assert_eq!(items[1].lifecycle, "current");
    assert_eq!(items[0].updated_at, "2026-09-01T00:00:00Z");
}

#[test]
fn source_invalidation_retires_l1_without_available_reference() {
    let mut refs = vec![
        reference("a", "src-off", "sess-1"),
        reference("b", "src-1", "sess-1"),
        reference("b", "src-1", "sess-gone"),
        reference("c", "src-1", "sess-2"),
    ];
    let mut items = vec![item("a", "l1"), item("b", "l1"), item("c", "l1")];
    let sources = vec![
        SourceState { id: "src-1".to_string(), enabled: true },
        SourceState { id: "src-off".to_string(), enabled: false },
    ];
    let sessions = vec![
        SessionState { id: "sess-1".to_string(), missing: false },
        SessionState { id: "sess-2".to_string(), missing: false },
    ];
    let excluded_sessions = vec!["sess-2".to_string()];
    let affected = reconcile_source_invalidation_rows(
        &mut refs,
        &mut items,
        &sources,
        &sessions,
        &vec![],
        &excluded_sessions,
        NOW,
    );
    assert_eq!(affected, 3);
    assert_eq!(refs[0].unavailable_reason.as_deref(), Some("source_disabled"));
    assert!(refs[1].available);
    assert_eq!(refs[2].unavailable_reason.as_deref(), Some("deleted"));
    assert_eq!(refs[3].unavailable_reason.as_deref(), Some("excluded"));
    assert_eq!(items[0].lifecycle, "retired");
    assert_eq!(items[0].updated_at, NOW);
    assert_eq!(items[1].lifecycle, "current");
    assert_eq!(items[2].lifecycle, "retired");
}

#[test]
fn source_invalidation_keeps_first_unavailable_time_and_is_idempotent() {
    let mut refs = vec![SourceReferenceRow {
        item_id: "a".to_string(),
        source_id: "src-1".to_string(),
        session_id: "sess-1".to_string(),
        available: true,
        unavailable_reason: None,
        unavailable_at: Some("2026-01-01T00:00:00Z".to_string()),
    }];
    let mut items = vec![item("a", "l1")];
    let sources = vec![SourceState { id: "src-1".to_string(), enabled: false }];
    let sessions = vec![SessionState { id: "sess-1".to_string(), missing: true }];
    let first = reconcile_source_invalidation_rows(&mut refs, &mut items, &sources, &sessions, &vec![], &vec![], NOW);
    assert_eq!(first, 1);
    assert_eq!(refs[0].unavailable_reason.as_deref(), Some("source_disabled"));
    assert_eq!(refs[0].unavailable_at.as_deref(), Some("2026-01-01T00:00:00Z"));
    assert_eq!(items[0].lifecycle, "retired");
    let second = reconcile_source_invalidation_rows(
        &mut refs,
        &mut items,
        &sources,
        &sessions,
        &vec![],
        &vec![],
        "2027-01-01T00:00:00Z",
    );
    assert_eq!(second, 0);
    assert_eq!(refs[0].unavailable_reason.as_deref(), Some("source_disabled"));
    assert_eq!(items[0].updated_at, NOW);
}
