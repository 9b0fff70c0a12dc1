use assetiweave::consolidation::{MemoryItemCategory, MemoryItemStatus, MemoryPromotionNomination};
use assetiweave::l3_candidates::{evaluate_l3_candidates, L2MemoryRow, L2ReferenceRow};

fn row(item: &str, project: &str, rev: &str, category: &str, title: &str, nomination: &str) -> L2MemoryRow {
    L2MemoryRow {
        item_id: item.to_string(),
        project_key: project.to_string(),
        revision_id: rev.to_string(),
        category: category.to_string(),
        status: "verified".to_string(),
        title: title.to_string(),
        summary: format!("{title} summary"),
        rationale: "because".to_string(),
        promotion_nomination: nomination.to_string(),
    }
}

fn reference(rev: &str, project: &str, session: &str, key: &str, available: bool) -> L2ReferenceRow {
    L2ReferenceRow {
        item_revision_id: rev.to_string(),
        project_key: project.to_string(),
        source_id: "source".to_string(),
        session_id: session.to_string(),
        reference_key: key.to_string(),
        question_id: None,
        turn_id: None,
        part_id: None,
        node_id: None,
        source_revision: 2,
        availability: if available { "available" } else { "unavailable" }.to_string(),
        unavailable_reason: None,
    }
}

#[test]
fn groups_by_title_and_promotes_rules_and_patterns() {
    let rows = vec![
        row("a1", "alpha", "r1", "decision", "Use small commits", "global_rule"),
        row("b1", "beta", "r2", "decision", " use small commits ", "project_decision"),
        row("c1", "alpha", "r3", "progress", "Progress note", "global_rule"),
        row("d1", "alpha", "r4", "research", "Prefer tests", "cross_project_pattern"),
        row("e1", "beta", "r5", "research", "prefer tests", "none"),
        row("f1", "gamma", "r6", "decision", "Existing", "global_rule"),
    ];
    let refs = vec![
        reference("r1", "alpha", "s1", "conversation-USER-1", true),
        reference("r2", "beta", "s2", "assistant-1", true),
        reference("r3", "alpha", "s9", "user-9", true),
        reference("r4", "alpha", "s3", "assistant-2", true),
        reference("r5", "beta", "s4", "assistant-3", true),
        reference("r5", "gamma", "s5", "assistant-4", false),
        reference("r6", "gamma", "s6", "user-6", true),
    ];
    let existing = vec!["existing".to_string()];
    let candidates = evaluate_l3_candidates(&existing, &rows, &refs);
    assert_eq!(candidates.len(), 2);

    let pattern = &candidates[0];
    assert_eq!(pattern.title, "Prefer tests");
    assert_eq!(pattern.item_id, "d1");
    assert_eq!(pattern.item_revision_id, "r4");
    assert_eq!(pattern.nomination, MemoryPromotionNomination::CrossProjectPattern);
    assert_eq!(pattern.category, MemoryItemCategory::Research);
    assert_eq!(pattern.status, MemoryItemStatus::Verified);
    assert_eq!(pattern.supporting_project_keys, vec!["alpha".to_string(), "beta".to_string()]);
    assert_eq!(pattern.session_references.len(), 3);
    assert!(!pattern.session_references[2].available);

    let rule = &candidates[1];
    assert_eq!(rule.title, "Use small commits");
    assert_eq!(rule.nomination, MemoryPromotionNomination::GlobalRule);
    assert_eq!(rule.item_id, "a1");
    assert_eq!(rule.session_references.len(), 2);
    assert_eq!(rule.session_references[0].role.as_deref(), Some("user"));
    assert_eq!(rule.session_references[1].role, None);
    let mut projects = rule.supporting_project_keys.clone();
    projects.sort();
    assert_eq!(projects, vec!["alpha".to_string(), "beta".to_string()]);
}

#[test]
fn weak_evidence_is_not_promoted() {
    let rows = vec![
        row("a1", "alpha", "r1", "decision", "Single project", "cross_project_pattern"),
        row("a2", "alpha", "r2", "decision", "single project", "cross_project_pattern"),
        row("b1", "beta", "r3", "decision", "No user", "global_rule"),
        row("c1", "gamma", "r4", "decision", "Unavailable", "global_rule"),
    ];
    let refs = vec![
        reference("r1", "alpha", "s1", "a", true),
        reference("r2", "alpha", "s2", "b", true),
        reference("r3", "beta", "s3", "assistant", true),
        reference("r4", "gamma", "s4", "user-4", false),
    ];
    let candidates = evaluate_l3_candidates(&[], &rows, &refs);
    assert!(candidates.is_empty());
}

#[test]
fn a_revision_lends_its_references_once() {
    let rows = vec![
        row("a1", "alpha", "shared", "decision", "First", "global_rule"),
        row("a2", "alpha", "shared", "decision", "Second", "global_rule"),
    ];
    let mut user_ref = reference("shared", "alpha", "s1", "note", true);
    user_ref.turn_id = Some("turn-1".to_string());
    let candidates = evaluate_l3_candidates(&[], &rows, &[user_ref].into_iter().collect());
    assert_eq!(candidates.len(), 1);
    assert_eq!(candidates[0].title, "First");
    assert_eq!(candidates[0].session_references[0].role.as_deref(), Some("user"));
}
