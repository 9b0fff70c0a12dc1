use assetiweave::global_memory::{clean_global_markdown, digest, global_document_paths};
use assetiweave::memory_context::{
    bullet_lines, compile_memory_context, GlobalMemoryRule, GlobalMemoryRules, context_revision, estimate_context_tokens,
    fit_context_section, query_terms, GlobalMemoryVersion, MemoryContextReference,
    MemoryVersionStatus, ProjectMemoryVersion, SessionMemory, SessionMemoryStatus,
};
use std::path::Path;

fn global_version() -> GlobalMemoryVersion {
    GlobalMemoryVersion {
        tenant_id: "tenant".into(),
        id: "global-v1".into(),
        version_number: 1,
        status: MemoryVersionStatus::Succeeded,
        input_fingerprint: "global-fingerprint".into(),
        source_watermark: 4,
        summary_markdown: Some("- Prefer small commits".into()),
        memory_markdown: Some("- Project index: alpha".into()),
        raw_output_json: None,
        error_message: None,
        created_at: "2026-08-31T00:00:00Z".into(),
        updated_at: "2026-08-31T00:00:00Z".into(),
    }
}

fn project_version() -> ProjectMemoryVersion {
    ProjectMemoryVersion {
        tenant_id: "tenant".into(),
        id: "project-v1".into(),
        project_id: "project-1".into(),
        version_number: 1,
        status: MemoryVersionStatus::Succeeded,
        input_fingerprint: "project-fingerprint".into(),
        source_watermark: 3,
        content_markdown: Some("- Use the project test harness".into()),
        raw_output_json: None,
        error_message: None,
        created_at: "2026-08-31T00:00:00Z".into(),
        updated_at: "2026-08-31T00:00:00Z".into(),
    }
}

fn session(id: &str, revision: i64, summary: &str, active: bool) -> SessionMemory {
    SessionMemory {
        id: id.to_string(),
        status: if active {
            SessionMemoryStatus::Active
        } else {
            SessionMemoryStatus::Superseded
        },
        source_revision: revision,
        summary: summary.to_string(),
        goal: "goal".to_string(),
        result: "result".to_string(),
        topics: vec!["rust".to_string()],
        decisions: vec!["keep it small".to_string()],
        verification: Vec::new(),
        follow_up: Vec::new(),
    }
}

#[test]
fn global_document_paths_are_app_owned_and_tenant_scoped() {
    let paths = global_document_paths("/tmp/assetiweave/app.db", "tenant-a", 1);
    assert!(Path::new(&paths.root).starts_with("/tmp/assetiweave/memory/global"));
    assert!(Path::new(&paths.summary_document_path).ends_with("memory_summary.md"));
    assert!(Path::new(&paths.memory_document_path).ends_with("MEMORY.md"));
    assert!(!paths.root.contains("tenant-a"));
}

#[test]
fn global_document_paths_name_versions_by_number() {
    let paths = global_document_paths("/tmp/assetiweave/app.db", "tenant-a", 7);
    let scope = digest("tenant-a");
    assert_eq!(scope.len(), 64);
    assert_eq!(paths.root, format!("/tmp/assetiweave/memory/global/{scope}"));
    assert_eq!(
        paths.version_summary_path,
        format!("/tmp/assetiweave/memory/global/{scope}/versions/v7-summary.md")
    );
    assert_eq!(
        paths.version_memory_path,
        format!("/tmp/assetiweave/memory/global/{scope}/versions/v7-memory.md")
    );
    let relative = global_document_paths("app.db", "tenant-a", -2);
    assert_eq!(relative.root, format!("memory/global/{scope}"));
    assert!(relative.version_memory_path.ends_with("versions/v-2-memory.md"));
    assert_ne!(digest("tenant-a"), digest("tenant-b"));
}

#[test]
fn empty_global_output_is_rejected() {
    assert!(clean_global_markdown(" ").is_err());
    assert_eq!(clean_global_markdown(" # global ").unwrap(), "# global");
}

#[test]
fn oversized_global_output_is_rejected() {
    let large = "x".repeat(100_001);
    assert!(clean_global_markdown(&large).is_err());
    let limit = "y".repeat(100_000);
    assert_eq!(clean_global_markdown(&limit).unwrap().len(), 100_000);
}

#[test]
fn context_budget_preserves_priority_and_stable_revision() {
    let global = global_version();
    let project = project_version();
    let global_only_budget = estimate_context_tokens(&format!(
        "## Global Memory\n{}\n\n## Project Index\n{}",
        global.summary_markdown.as_deref().unwrap(),
        global.memory_markdown.as_deref().unwrap()
    ));
    let first = compile_memory_context(
        "tenant",
        Some("/project"),
        "",
        global_only_budget,
        Some(&global),
        None,
        Some(&project),
        Vec::<String>::new(),
        &Vec::new(),
    );
    let second = compile_memory_context(
        "tenant",
        Some("/project"),
        "",
        global_only_budget,
        Some(&global),
        None,
        Some(&project),
        Vec::<String>::new(),
        &Vec::new(),
    );
    assert!(first.text.starts_with("## Global Memory"));
    assert_eq!(first.estimated_tokens, estimate_context_tokens(&first.text));
    assert!(first.estimated_tokens <= first.token_budget);
    assert_eq!(first.revision, second.revision);
    assert_eq!(first.references.len(), 1);
    assert_eq!(first.references[0].kind, "global_memory");
}

#[test]
fn larger_budget_takes_project_then_sessions() {
    let global = global_version();
    let project = project_version();
    let sessions = vec![
        session("s-old", 1, "old work", true),
        session("s-new", 9, "new work", true),
        session("s-gone", 20, "superseded work", false),
    ];
    let result = compile_memory_context(
        "tenant",
        None,
        "",
        10_000,
        Some(&global),
        None,
        Some(&project),
        vec!["source-1".to_string()],
        &sessions,
    );
    let kinds: Vec<&str> = result.references.iter().map(|r| r.kind.as_str()).collect();
    assert_eq!(kinds, vec!["global_memory", "project_memory", "session_memory", "session_memory"]);
    assert_eq!(result.references[2].id, "s-new");
    assert_eq!(result.references[3].id, "s-old");
    assert_eq!(result.references[2].source_revision, Some(9));
    assert!(result.text.contains("## Project Memory\n- Use the project test harness"));
    assert!(result.text.contains("### Decisions\n- keep it small"));
    assert!(result.text.contains("### Verification\n- none"));
    assert_eq!(result.generated_at.as_deref(), Some("2026-08-31T00:00:00Z"));
    assert!(result.revision.starts_with("context-"));
    assert_eq!(result.revision.len(), "context-".len() + 64);
    assert_eq!(result.project_sources, vec!["source-1".to_string()]);
    assert_eq!(result.global_version.as_ref().map(|g| g.id.as_str()), Some(global.id.as_str()));
    assert_eq!(result.project_version.as_ref().map(|p| p.id.as_str()), Some(project.id.as_str()));
}

#[test]
fn test_m35_l3_06_context_resolver_reads_current_l3_and_ignores_superseded() {
    let rules = GlobalMemoryRules {
        revision_hash: "l3-rev".to_string(),
        rules: vec![
            GlobalMemoryRule {
                item_id: "old".to_string(),
                title: "Old Global Rule".to_string(),
                statement: "Old deprecated statement".to_string(),
                lifecycle: "superseded".to_string(),
            },
            GlobalMemoryRule {
                item_id: "new".to_string(),
                title: "Active Global Rule".to_string(),
                statement: "New active long-term principle".to_string(),
                lifecycle: "current".to_string(),
            },
        ],
    };
    let ctx = compile_memory_context("default", None, "", 2000, None, Some(&rules), None, Vec::<String>::new(), &Vec::new());
    assert!(ctx.text.contains("Active Global Rule"));
    assert!(ctx.text.contains("New active long-term principle"));
    assert!(!ctx.text.contains("Old Global Rule"));
    assert!(!ctx.text.contains("Old deprecated statement"));
    assert_eq!(ctx.text, "## Global Rules\n- Active Global Rule: New active long-term principle");
    let l3_refs: Vec<_> = ctx.references.iter().filter(|r| r.kind == "global_memory_l3").collect();
    assert_eq!(l3_refs.len(), 1);
    assert_eq!(l3_refs[0].id, "l3-rev");

    let global = global_version();
    let both = compile_memory_context("default", None, "", 10_000, Some(&global), Some(&rules), None, Vec::<String>::new(), &Vec::new());
    let kinds: Vec<&str> = both.references.iter().map(|r| r.kind.as_str()).collect();
    assert_eq!(kinds, vec!["global_memory", "global_memory_l3"]);
}

#[test]
fn query_terms_rank_matching_sessions_first() {
    let sessions = vec![
        session("a", 9, "unrelated", true),
        session("b", 1, "Fix the Parser crash", true),
        session("c", 5, "parser tests", true),
        session("d", 3, "other", true),
    ];
    let result = compile_memory_context("tenant", None, "PARSER crash x", 100_000, None, None, None, Vec::<String>::new(), &sessions);
    let ids: Vec<&str> = result.references.iter().map(|r| r.id.as_str()).collect();
    assert_eq!(ids, vec!["b", "c", "a"]);
    assert_eq!(result.generated_at, None);
}

#[test]
fn query_terms_are_lowercased_words_longer_than_one_byte() {
    let terms: Vec<String> = query_terms("  Rust a\tÉ  CLI\n")
        .into_iter()
        .map(|t| t.into_iter().collect())
        .collect();
    assert_eq!(terms, vec!["rust".to_string(), "é".to_string(), "cli".to_string()]);
}

#[test]
fn sections_are_cut_to_the_remaining_budget() {
    assert_eq!(estimate_context_tokens(""), 0);
    assert_eq!(estimate_context_tokens("abcd"), 1);
    assert_eq!(estimate_context_tokens("abcde"), 2);
    assert_eq!(fit_context_section("anything", 10, 10), None);
    assert_eq!(fit_context_section("short", 10, 0).as_deref(), Some("short"));
    let content = "## Heading\nbody line one\nbody line two   ";
    assert_eq!(fit_context_section(content, 5, 1).as_deref(), Some("## Heading\n\nbody"));
    assert_eq!(fit_context_section(content, 3, 1).as_deref(), Some("## Headi"));
    assert_eq!(fit_context_section("## Heading\r\nbody text", 4, 0).as_deref(), Some("## Heading\n\r\nbod"));
}

#[test]
fn bullets_list_values_or_none() {
    assert_eq!(bullet_lines(&[]), "- none");
    assert_eq!(bullet_lines(&["a".to_string(), "b".to_string()]), "- a\n- b");
}

#[test]
fn revision_depends_on_budget_and_references() {
    let refs = vec![MemoryContextReference {
        kind: "global_memory".to_string(),
        id: "g".to_string(),
        source_revision: Some(-3),
    }];
    let a = context_revision("t", Some("/p"), "q", 10, &refs);
    let b = context_revision("t", Some("/p"), "q", 11, &refs);
    let c = context_revision("t", Some("/p"), "q", 10, &[]);
    assert_ne!(a, b);
    assert_ne!(a, c);
    assert_eq!(a, context_revision("t", Some("/p"), "q", 10, &refs));
}
