use assetiweave::adapter_installer::{
    installed_package_records, ConversationAdapterPackageInstallSource, ConversationAdapterPackageInstallSourceKind,
    ConversationAdapterPackageInstallSpec, ConversationAdapterPackageManifestSummary,
    ConversationAdapterPackageValidationResult, ExternalAdapterManifestSummary, ExternalAdapterValidationResult,
};
use assetiweave::error::AppError;
use assetiweave::models::{
    ConversationAdapterPackageOrigin, ConversationAdapterPackageRecordKind, ConversationAdapterRuntimeGateStatus,
    ConversationPackageUpdatePolicy,
};
use assetiweave::workspace_promotion::{
    check_workspace_identity, workspace_active_version_newer, workspace_package_record, workspace_revision,
    workspace_version_dir, check_workspace_root, select_workspace_package_dirs, WorkspaceEntry,
};

fn validation(hash: &str) -> ConversationAdapterPackageValidationResult {
    ConversationAdapterPackageValidationResult {
        manifest: ConversationAdapterPackageManifestSummary {
            package_id: "io.github.util6.codex-session".to_string(),
            name: "Codex sessions".to_string(),
            version: "1.2.0".to_string(),
            record_kind: ConversationAdapterPackageRecordKind::Session,
            runtime_protocol: "stdio-ndjson-v1".to_string(),
        },
        adapter_validation: ExternalAdapterValidationResult {
            manifest: ExternalAdapterManifestSummary {
                id: "codex".to_string(),
                version: "1.2.0".to_string(),
                capabilities: vec!["read_session".to_string()],
            },
            content_hash: hash.to_string(),
        },
        content_hash: hash.to_string(),
        manifest_path: "/m/v/conversation-adapter-package.json".to_string(),
        adapter_manifest_path: "/m/v/conversation-adapter.json".to_string(),
    }
}

fn validation_message(result: Result<String, AppError>) -> String {
    match result {
        Err(AppError::Validation(message)) => message,
        other => panic!("unexpected {other:?}"),
    }
}

#[test]
fn workspaces_must_be_named_after_their_adapter_with_matching_versions() {
    assert_eq!(check_workspace_identity("codex", "codex", " 1.2.0 ", " 1.2.0 ").unwrap(), "1.2.0");
    assert_eq!(
        validation_message(check_workspace_identity("codex-dev", "codex", "1.2.0", "1.2.0")),
        "conversation adapter workspace directory must match adapter id: expected codex, found codex-dev"
    );
    assert_eq!(
        validation_message(check_workspace_identity("codex", "codex", "1.2.0", "1.3.0")),
        "conversation adapter package and adapter versions must match: 1.2.0 != 1.3.0"
    );
    assert!(validation_message(check_workspace_identity("codex", "codex", "v1", "v1"))
        .starts_with("conversation adapter package version must be SemVer: "));
}

#[test]
fn promotion_is_skipped_only_for_a_newer_active_version() {
    assert!(workspace_active_version_newer(" 1.3.0 ", "1.2.0"));
    assert!(!workspace_active_version_newer("1.2.0", "1.2.0"));
    assert!(!workspace_active_version_newer("1.1.9", "1.2.0"));
    assert!(!workspace_active_version_newer("garbage", "1.2.0"));
}

#[test]
fn revisions_name_the_version_and_twelve_bytes_of_the_hash() {
    assert_eq!(workspace_revision("1.2.0", "0123456789abcdef0123"), "1.2.0-0123456789ab");
    assert_eq!(workspace_revision("1.2.0", "abc"), "1.2.0-abc");
    assert_eq!(workspace_revision("1.2.0", "ééééééé"), "1.2.0-éééééé");
    assert_eq!(
        workspace_version_dir("/m", "io.github.util6.codex-session", "1.2.0-0123456789ab"),
        "/m/packages/io.github.util6.codex-session/versions/1.2.0-0123456789ab"
    );
}

#[test]
fn promoted_workspaces_are_pinned_local_packages() {
    let record = workspace_package_record(&validation("h1"), "codex", "/m/v", "/home/u/codex", Some("2025-01-01T00:00:00Z"));
    assert_eq!(record.origin, ConversationAdapterPackageOrigin::LocalDirectory);
    assert_eq!(record.update_policy, ConversationPackageUpdatePolicy::PinExact);
    assert_eq!(record.source_url.as_deref(), Some("/home/u/codex"));
    assert_eq!(record.trusted_package_hash.as_deref(), Some("h1"));
    assert_eq!(record.installed_content_hash.as_deref(), Some("h1"));
    assert_eq!(record.created_at, "2025-01-01T00:00:00Z");
    assert_eq!(record.last_checked_at.as_deref(), Some(record.updated_at.as_str()));
    assert_eq!(record.runtime_gate_status, ConversationAdapterRuntimeGateStatus::Ready);
    assert!(record.runtime_ready);
    let fresh = workspace_package_record(&validation("h1"), "codex", "/m/v", "/home/u/codex", None);
    assert_eq!(fresh.created_at, fresh.updated_at);
}

fn spec(expected_package_hash: Option<&str>) -> ConversationAdapterPackageInstallSpec {
    ConversationAdapterPackageInstallSpec {
        id: "io.github.util6.codex-session".to_string(),
        name: "Codex sessions".to_string(),
        version: "1.2.0".to_string(),
        record_kind: ConversationAdapterPackageRecordKind::Session,
        provider: None,
        adapter_id: Some("codex".to_string()),
        description: None,
        homepage_url: None,
        repository_url: None,
        tags: Vec::new(),
        manifest_file: None,
        package_manifest_file: None,
        expected_content_hash: None,
        expected_package_hash: expected_package_hash.map(str::to_string),
        expected_artifact_hash: Some("  ".to_string()),
        artifact_size: None,
        source: ConversationAdapterPackageInstallSource {
            kind: ConversationAdapterPackageInstallSourceKind::ArtifactZip,
            url: "https://example.test/a.zip".to_string(),
            branch: None,
            path: None,
        },
    }
}

#[test]
fn installed_packages_trust_the_expected_hash_or_the_installed_one() {
    let (package, version) =
        installed_package_records(&spec(Some(" ph ")), "codex", &validation("h1"), "/m/v", Some(" https://c/index.json "), None);
    assert_eq!(package.trusted_package_hash.as_deref(), Some("ph"));
    assert_eq!(package.catalog_url.as_deref(), Some("https://c/index.json"));
    assert_eq!(package.origin, ConversationAdapterPackageOrigin::ManagedRelease);
    assert_eq!(package.update_policy, ConversationPackageUpdatePolicy::Manual);
    assert_eq!(package.source_url.as_deref(), Some("https://example.test/a.zip"));
    assert_eq!(version.install_dir, "/m/v");
    assert_eq!(version.artifact_hash, None);
    assert_eq!(version.content_hash, "h1");
    assert_eq!(version.installed_at, package.updated_at);
    let (plain, _) = installed_package_records(&spec(None), "codex", &validation("h1"), "/m/v", Some("  "), Some("then"));
    assert_eq!(plain.trusted_package_hash.as_deref(), Some("h1"));
    assert_eq!(plain.catalog_url, None);
    assert_eq!(plain.created_at, "then");
}

#[test]
fn workspace_package_dirs_are_selected_and_sorted() {
    let entry = |name: &str, is_dir: bool, has_package_manifest: bool| WorkspaceEntry {
        name: name.to_string(),
        is_dir,
        has_package_manifest,
    };
    let entries = vec![
        entry("zeta", true, true),
        entry("packages", true, true),
        entry("staging", true, true),
        entry("alpha", true, true),
        entry("notes.md", false, true),
        entry("draft", true, false),
    ];
    assert_eq!(select_workspace_package_dirs(&entries), vec!["alpha".to_string(), "zeta".to_string()]);
    assert!(check_workspace_root(true, "/w").is_ok());
    match check_workspace_root(false, "/w") {
        Err(AppError::Validation(m)) => assert_eq!(m, "conversation adapter workspace root is not a directory: /w"),
        _ => panic!("expected a validation error"),
    }
}
