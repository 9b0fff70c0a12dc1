use assetiweave::error::AppError;
use assetiweave::export_plan::{
    check_export_target_entry, ensure_export_parent_stays_in_root, export_parent_dirs, export_parent_step,
    plan_conversation_export, resolve_export_target, use_legacy_adapter_exporter, ExportEntryKind,
};
use assetiweave::models::{ConversationAdapter, ConversationAdapterTrustState};
use assetiweave::records::{
    ConversationExportFormat, ConversationQuestion, ConversationQuestionDetail, ConversationSession,
    ConversationSessionDetail,
};

fn adapter(capabilities: &[&str], card_contract_version: Option<u32>) -> ConversationAdapter {
    ConversationAdapter {
        id: "codex".to_string(),
        name: "Codex".to_string(),
        version: "0.1.0".to_string(),
        enabled: true,
        manifest_path: None,
        trusted_hash: None,
        trust_state: ConversationAdapterTrustState::Trusted,
        capabilities: capabilities.iter().map(|value| value.to_string()).collect(),
        card_contract_version,
    }
}

fn detail() -> ConversationSessionDetail {
    ConversationSessionDetail {
        session: ConversationSession {
            id: "conversation-session-1234567890".to_string(),
            title: "My Session".to_string(),
            adapter_id: "codex".to_string(),
            source_id: "source-1".to_string(),
            project_path: Some("/home/u/proj".to_string()),
        },
        questions: vec![ConversationQuestionDetail {
            question: ConversationQuestion {
                id: "q1".to_string(),
                session_id: "conversation-session-1234567890".to_string(),
                title: None,
            },
            turns: Vec::new(),
            projected_content_nodes: Vec::new(),
        }],
    }
}

#[test]
fn legacy_exporter_only_for_rendered_exports_of_adapters_without_card_contract() {
    let legacy = adapter(&["read_session", "export_markdown"], None);
    assert!(use_legacy_adapter_exporter(ConversationExportFormat::Rendered, &legacy));
    assert!(!use_legacy_adapter_exporter(ConversationExportFormat::Raw, &legacy));
    let contract_one = adapter(&["export_markdown"], Some(1));
    assert!(!use_legacy_adapter_exporter(ConversationExportFormat::Rendered, &contract_one));
    let contract_two = adapter(&["export_markdown"], Some(2));
    assert!(use_legacy_adapter_exporter(ConversationExportFormat::Rendered, &contract_two));
    let plain = adapter(&["read_session"], None);
    assert!(!use_legacy_adapter_exporter(ConversationExportFormat::Rendered, &plain));
}

#[test]
fn export_plan_checks_questions_and_names_the_default_path() {
    let d = detail();
    let plan = plan_conversation_export(
        &d,
        &["q1".to_string()],
        ConversationExportFormat::Rendered,
        &adapter(&["export_markdown"], None),
        "unknown-project",
    )
    .unwrap();
    assert_eq!(plan.relative_path, "codex/proj/My-Session-selected-1-34567890.md");
    assert!(plan.legacy_adapter_exporter);
    let missing = plan_conversation_export(
        &d,
        &["q1".to_string(), "q9".to_string()],
        ConversationExportFormat::Raw,
        &adapter(&[], None),
        "unknown-project",
    );
    match missing {
        Err(AppError::NotFound(message)) => {
            assert_eq!(message, "conversation question not found in session: q9")
        }
        _ => panic!("a missing question must be reported"),
    }
}

#[test]
fn export_target_joins_the_checked_relative_path_to_the_output_root() {
    let target = resolve_export_target("/home/u/exports", "  codex//proj/./a.md ").unwrap();
    assert_eq!(target.relative_path, "codex/proj/a.md");
    assert_eq!(target.target_path, "/home/u/exports/codex/proj/a.md");
    let trailing = resolve_export_target("/out/", "a.md").unwrap();
    assert_eq!(trailing.target_path, "/out/a.md");
    match resolve_export_target("/out", "../escape.md") {
        Err(AppError::Validation(message)) => assert_eq!(
            message,
            "markdown_export relative_path cannot contain root, prefix, '.', or '..'"
        ),
        _ => panic!("a parent component must be refused"),
    }
    match resolve_export_target("/out", "/etc/passwd") {
        Err(AppError::Validation(message)) => {
            assert_eq!(message, "markdown_export relative_path must be relative")
        }
        _ => panic!("an absolute path must be refused"),
    }
    match resolve_export_target("/out", "   ") {
        Err(AppError::Validation(message)) => {
            assert_eq!(message, "markdown_export relative_path is required")
        }
        _ => panic!("an empty path must be refused"),
    }
}

#[test]
fn export_parent_dirs_walk_each_parent_component() {
    assert_eq!(
        export_parent_dirs("/out", "codex/proj/a.md").unwrap(),
        vec!["/out/codex".to_string(), "/out/codex/proj".to_string()]
    );
    assert!(export_parent_dirs("/out", "a.md").unwrap().is_empty());
    match export_parent_dirs("/out", "codex/../a.md") {
        Err(AppError::Validation(message)) => assert_eq!(
            message,
            "markdown_export relative_path cannot contain root, prefix, '.', or '..'"
        ),
        _ => panic!("a parent component must be refused"),
    }
}

#[test]
fn export_steps_refuse_symlinks_files_and_directories_in_the_way() {
    assert!(matches!(export_parent_step("/out/a", ExportEntryKind::Missing), Ok(true)));
    assert!(matches!(export_parent_step("/out/a", ExportEntryKind::Directory), Ok(false)));
    match export_parent_step("/out/a", ExportEntryKind::Symlink) {
        Err(AppError::Conflict(message)) => {
            assert_eq!(message, "markdown_export relative_path cannot traverse symlink: /out/a")
        }
        _ => panic!("a symlink must stop the export"),
    }
    match export_parent_step("/out/a", ExportEntryKind::File) {
        Err(AppError::Conflict(message)) => {
            assert_eq!(message, "markdown_export relative_path parent is not a directory: /out/a")
        }
        _ => panic!("a file must stop the export"),
    }
    assert!(check_export_target_entry("a.md", ExportEntryKind::Missing).is_ok());
    assert!(check_export_target_entry("a.md", ExportEntryKind::File).is_ok());
    match check_export_target_entry("a.md", ExportEntryKind::Symlink) {
        Err(AppError::Conflict(message)) => {
            assert_eq!(message, "markdown_export relative_path points to a symlink: a.md")
        }
        _ => panic!("a symlink target must be refused"),
    }
    match check_export_target_entry("a.md", ExportEntryKind::Directory) {
        Err(AppError::Conflict(message)) => {
            assert_eq!(message, "markdown_export relative_path points to a directory: a.md")
        }
        _ => panic!("a directory target must be refused"),
    }
}

#[test]
fn export_parent_must_resolve_inside_the_output_root() {
    assert!(ensure_export_parent_stays_in_root("/out", "/out/codex/proj").is_ok());
    assert!(ensure_export_parent_stays_in_root("/out", "/out").is_ok());
    match ensure_export_parent_stays_in_root("/out", "/outside/codex") {
        Err(AppError::Conflict(message)) => {
            assert_eq!(message, "markdown_export relative_path resolves outside output_root")
        }
        _ => panic!("a parent outside the root must be refused"),
    }
    assert!(ensure_export_parent_stays_in_root("/out/codex", "/out").is_err());
}

#[test]
fn accepted_export_targets_stay_inside_the_root() {
    for root in ["/home/u/exports", "/", "relative/out/", ".", "", "a/../b"] {
        for relative in ["codex/proj/a.md", " x.json ", "deep/er/still/file.md"] {
            let target = resolve_export_target(root, relative).unwrap();
            assert!(
                std::path::Path::new(&target.target_path).starts_with(root),
                "{root} / {relative} -> {}",
                target.target_path
            );
        }
    }
}
