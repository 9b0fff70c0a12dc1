use assetiweave::audit::{audit_issues, audit_plan, audit_step_label, audit_total_steps};

#[test]
fn audit_plan_covers_the_named_families() {
    let all = audit_plan(None, None, false);
    assert_eq!(all.checks.len(), 14);
    assert!(all.count_snapshots);
    assert_eq!(all.checks[0].family_kind, "session");
    assert_eq!(all.checks[0].table_prefix, "conversation");
    assert_eq!(all.checks[0].category, "duplicate_memberships");
    assert_eq!(all.checks[7].family_kind, "web");
    assert_eq!(all.checks[7].table_prefix, "web_record");
    assert_eq!(all.checks[13].category, "legacy_split_shell_parts");
    assert_eq!(all.checks[13].severity, "warning");
    assert!(!all.checks[13].auto_repairable);
    assert!(all.checks[2].auto_repairable);
    assert_eq!(all.checks[5].message, "Part references a missing Turn");
    assert_eq!(audit_total_steps(&all), 16);
    assert_eq!(audit_step_label(&all.checks[8]), "web.cross_session_memberships");

    let web = audit_plan(Some("web"), None, true);
    assert_eq!(web.checks.len(), 7);
    assert!(web.checks.iter().all(|c| c.family_kind == "web"));
    assert!(!web.count_snapshots);
    assert!(web.include_resolved);
    let session = audit_plan(Some("session"), Some("src-1"), false);
    assert_eq!(session.checks.len(), 7);
    assert!(session.checks.iter().all(|c| c.table_prefix == "conversation"));
    assert!(!audit_plan(None, Some("src-1"), false).count_snapshots);
    assert_eq!(audit_plan(Some("cards"), None, false).checks.len(), 14);
}

#[test]
fn audit_issues_keep_only_nonzero_counts() {
    let plan = audit_plan(Some("session"), None, false);
    let counts = vec![0, 2, 0, 0, 0, 0, 5];
    let issues = audit_issues(&plan.checks, &counts, 3, 1);
    assert_eq!(issues.len(), 4);
    assert_eq!(issues[0].category, "cross_session_memberships");
    assert_eq!(issues[0].affected_count, 2);
    assert_eq!(issues[0].record_kind.as_deref(), Some("session"));
    assert_eq!(issues[0].persist_scope.as_deref(), Some("session"));
    assert_eq!(issues[1].category, "legacy_split_shell_parts");
    assert_eq!(issues[1].affected_count, 5);
    assert_eq!(issues[2].category, "question_snapshot_dependencies");
    assert_eq!(issues[2].persist_scope, None);
    assert_eq!(issues[2].message, "Question snapshot history requires review after the contract migration");
    assert_eq!(issues[3].category, "search_index_mismatch");
    assert!(issues[3].auto_repairable);
    assert_eq!(issues[3].persist_scope.as_deref(), Some("all"));
    assert!(audit_issues(&plan.checks, &vec![0; 7], 0, 0).is_empty());
}
