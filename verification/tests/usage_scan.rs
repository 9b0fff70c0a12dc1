use assetiweave::usage_scan::{
    next_usage_source_state, usage_scan_cursor, usage_state_diagnostics, usage_scan_mode, usage_scan_status, UsageScanOutcome,
    UsageSourceState,
};

fn state(source: &str, status: &str, last: Option<&str>, diagnostics: Option<&str>) -> UsageSourceState {
    UsageSourceState {
        tenant_id: "t".to_string(),
        source_id: source.to_string(),
        adapter_id: "codex".to_string(),
        decoder_profile: Some("v1".to_string()),
        schema_fingerprint: None,
        opaque_cursor: Some("cursor-1".to_string()),
        last_success_scan_at: last.map(str::to_string),
        last_full_scan_at: Some("2026-01-01T00:00:00Z".to_string()),
        status: status.to_string(),
        diagnostics_json: diagnostics.map(str::to_string),
        created_at: "2025-12-01T00:00:00Z".to_string(),
        updated_at: "2026-01-02T00:00:00Z".to_string(),
    }
}

#[test]
fn scans_resume_from_their_cursor_unless_full() {
    assert_eq!(usage_scan_mode(None), ("incremental".to_string(), false));
    assert_eq!(usage_scan_mode(Some("full")), ("full".to_string(), true));
    assert_eq!(usage_scan_mode(Some("FULL")), ("FULL".to_string(), false));
    let previous = state("s1", "active", Some("2026-01-02T00:00:00Z"), None);
    assert_eq!(usage_scan_cursor(false, Some(&previous)).as_deref(), Some("cursor-1"));
    assert_eq!(usage_scan_cursor(true, Some(&previous)), None);
    assert_eq!(usage_scan_cursor(false, None), None);
}

#[test]
fn scan_states_record_successes_and_keep_them_through_failures() {
    let previous = state("s1", "active", Some("2026-01-02T00:00:00Z"), None);
    let now = "2026-01-03T00:00:00Z";
    let ok = next_usage_source_state(
        "t",
        "s1",
        "codex",
        Some(&previous),
        UsageScanOutcome::Succeeded { decoder_profile: Some("v2".to_string()), next_cursor: None, diagnostics: vec!["skipped 2 lines".to_string()] },
        false,
        now,
    );
    assert_eq!(ok.status, "active");
    assert_eq!(ok.opaque_cursor.as_deref(), Some("cursor-1"));
    assert_eq!(ok.last_success_scan_at.as_deref(), Some(now));
    assert_eq!(ok.last_full_scan_at.as_deref(), Some("2026-01-01T00:00:00Z"));
    assert_eq!(ok.diagnostics_json.as_deref(), Some("[\"skipped 2 lines\"]"));
    assert_eq!(ok.created_at, "2025-12-01T00:00:00Z");
    assert_eq!(ok.updated_at, now);

    let full = next_usage_source_state(
        "t",
        "s1",
        "codex",
        Some(&previous),
        UsageScanOutcome::Succeeded { decoder_profile: None, next_cursor: None, diagnostics: Vec::new() },
        true,
        now,
    );
    assert_eq!(full.opaque_cursor, None);
    assert_eq!(full.last_full_scan_at.as_deref(), Some(now));
    assert_eq!(full.diagnostics_json, None);

    let failed = next_usage_source_state(
        "t",
        "s1",
        "codex",
        Some(&previous),
        UsageScanOutcome::Failed { message: "adapter \"crashed\"".to_string() },
        true,
        now,
    );
    assert_eq!(failed.status, "error");
    assert_eq!(failed.opaque_cursor.as_deref(), Some("cursor-1"));
    assert_eq!(failed.last_success_scan_at.as_deref(), Some("2026-01-02T00:00:00Z"));
    assert_eq!(failed.decoder_profile.as_deref(), Some("v1"));
    assert_eq!(failed.diagnostics_json.as_deref(), Some("[\"adapter \\\"crashed\\\"\"]"));

    let first = next_usage_source_state("t", "s9", "codex", None, UsageScanOutcome::Failed { message: "x".to_string() }, false, now);
    assert_eq!(first.created_at, now);
    assert_eq!(first.last_success_scan_at, None);
}

#[test]
fn scan_status_sums_up_times_and_diagnostics() {
    let states = vec![
        state("s1", "active", Some("2026-01-02T00:00:00Z"), Some("[\"one\",\"two\"]")),
        state("s2", "error", None, Some("not json")),
        state("s3", "active", Some("2026-01-05T00:00:00Z"), None),
        state("s4", "active", Some("2026-01-04T00:00:00Z"), None),
    ];
    let status = usage_scan_status(&states, 42);
    assert_eq!(status.scanned_sources_count, 4);
    assert_eq!(status.total_events_count, 42);
    assert_eq!(status.last_scanned_at.as_deref(), Some("2026-01-05T00:00:00Z"));
    assert!(status.active_scan_task_id.is_none());
    let diags: Vec<(&str, &str, &str, &str)> = status
        .source_diagnostics
        .iter()
        .map(|d| (d.source_id.as_str(), d.level.as_str(), d.message.as_str(), d.timestamp.as_str()))
        .collect();
    assert_eq!(
        diags,
        vec![
            ("s1", "info", "one", "2026-01-02T00:00:00Z"),
            ("s1", "info", "two", "2026-01-02T00:00:00Z"),
            ("s2", "error", "not json", "2026-01-02T00:00:00Z"),
        ]
    );
    assert!(usage_scan_status(&Vec::new(), 0).last_scanned_at.is_none());
}

#[test]
fn state_diagnostics_follow_the_decoded_list() {
    let failing = state("s9", "error", None, Some("ignored when decoded"));
    let diags = usage_state_diagnostics(&failing, Some(vec!["first".to_string(), "second".to_string()]));
    assert_eq!(diags.len(), 2);
    assert_eq!(diags[0].message, "first");
    assert_eq!(diags[1].message, "second");
    assert_eq!(diags[0].level, "error");
    assert_eq!(diags[0].timestamp, "2026-01-02T00:00:00Z");
    let raw = usage_state_diagnostics(&state("s8", "active", Some("2026-01-05T00:00:00Z"), Some("not json")), None);
    assert_eq!(raw.len(), 1);
    assert_eq!(raw[0].message, "not json");
    assert_eq!(raw[0].level, "info");
    assert_eq!(raw[0].timestamp, "2026-01-05T00:00:00Z");
    assert!(usage_state_diagnostics(&state("s7", "active", None, None), Some(vec!["x".to_string()])).is_empty());
}
