use assetiweave::consolidation::{MemoryItemCategory, MemoryItemStatus};
use assetiweave::l3_view::{
    l3_global_view, l3_item_view, L3ItemRow, L3ReferenceRow, L3StateRow, SourceAvailability,
};

fn row(id: &str, category: &str, status: &str) -> L3ItemRow {
    L3ItemRow {
        item_id: id.to_string(),
        updated_at: "2026-01-01T00:00:00Z".to_string(),
        revision_id: format!("{id}-rev-2"),
        revision_number: 2,
        category: category.to_string(),
        status: status.to_string(),
        title: "Use small PRs".to_string(),
        summary: "Keep changes small".to_string(),
        rationale: "Easier review".to_string(),
    }
}

fn reference(key: &str, availability: &str) -> L3ReferenceRow {
    L3ReferenceRow {
        source_id: "src-1".to_string(),
        session_id: "sess-1".to_string(),
        reference_key: key.to_string(),
        question_id: Some("q1".to_string()),
        turn_id: None,
        part_id: None,
        node_id: None,
        availability: availability.to_string(),
        unavailable_reason: if availability == "available" { None } else { Some("deleted".to_string()) },
    }
}

#[test]
fn item_view_reports_how_many_sources_remain_available() {
    let all = l3_item_view(row("m1", "decision", "verified"), vec![reference("k1", "available")]);
    assert_eq!(all.source_availability, SourceAvailability::Available);
    assert_eq!(all.category, MemoryItemCategory::Decision);
    assert_eq!(all.status, MemoryItemStatus::Verified);
    assert_eq!(all.lifecycle, "current");
    assert_eq!(all.revision_id, "m1-rev-2");
    assert_eq!(all.source_references.len(), 1);
    assert!(all.source_references[0].available);
    assert_eq!(all.source_references[0].project_key, None);

    let partly = l3_item_view(
        row("m2", "weird", "weird"),
        vec![reference("k1", "available"), reference("k2", "unavailable")],
    );
    assert_eq!(partly.source_availability, SourceAvailability::PartiallyUnavailable);
    assert_eq!(partly.category, MemoryItemCategory::Progress);
    assert_eq!(partly.status, MemoryItemStatus::Active);
    assert_eq!(partly.source_references[1].reference_key, "k2");
    assert!(!partly.source_references[1].available);
    assert_eq!(partly.source_references[1].unavailable_reason.as_deref(), Some("deleted"));

    let none = l3_item_view(row("m3", "blocker", "blocked"), vec![reference("k1", "missing")]);
    assert_eq!(none.source_availability, SourceAvailability::Unavailable);
    let empty = l3_item_view(row("m4", "research", "waiting"), Vec::new());
    assert_eq!(empty.source_availability, SourceAvailability::Available);
}

#[test]
fn global_view_is_absent_only_without_items_and_state() {
    assert!(l3_global_view("tenant", Vec::new(), None).is_none());
    let state_only = l3_global_view(
        "tenant",
        Vec::new(),
        Some(L3StateRow { last_successful_consolidation_at: Some("2026-01-02T00:00:00Z".to_string()), revision_hash: None }),
    )
    .unwrap();
    assert!(state_only.items.is_empty());
    assert_eq!(state_only.revision_hash, "");
    assert_eq!(state_only.last_successful_consolidation_at.as_deref(), Some("2026-01-02T00:00:00Z"));
    let view = l3_global_view(
        "tenant",
        vec![
            (row("m1", "decision", "active"), vec![reference("k1", "available")]),
            (row("m2", "follow_up", "completed"), Vec::new()),
        ],
        Some(L3StateRow { last_successful_consolidation_at: None, revision_hash: Some("abc".to_string()) }),
    )
    .unwrap();
    assert_eq!(view.tenant_id, "tenant");
    assert_eq!(view.revision_hash, "abc");
    assert_eq!(view.items.len(), 2);
    assert_eq!(view.items[0].item_id, "m1");
    assert_eq!(view.items[1].category, MemoryItemCategory::FollowUp);
    assert_eq!(view.items[1].status, MemoryItemStatus::Completed);
}
