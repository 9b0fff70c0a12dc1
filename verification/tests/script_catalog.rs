use assetiweave::adapter_installer::{
    parse_github_install_source, ConversationAdapterPackageInstallSourceKind,
};
use assetiweave::models::{
    ConversationAdapter, ConversationAdapterPackage, ConversationAdapterPackageOrigin,
    ConversationAdapterPackageRecordKind, ConversationAdapterPackageVersion,
    ConversationAdapterRuntimeGateStatus, ConversationAdapterTrustState,
    ConversationPackageUpdatePolicy,
};
use assetiweave::script_catalog::{
    package_for_uninstalled_replacement, parse_github_catalog_location,
    resolve_conversation_adapter_package_catalog_entries, select_rollback_version,
    validate_conversation_script_catalog_item, validated_package_version,
    ConversationScriptCatalogItem, ConversationScriptCatalogSource,
    ConversationScriptCatalogSourceKind, ConversationScriptRecordKind,
};

fn catalog_item(id: &str, adapter_id: Option<&str>) -> ConversationScriptCatalogItem {
    ConversationScriptCatalogItem {
        id: id.to_string(),
        name: "Codex Session Parser".to_string(),
        version: "1.0.0".to_string(),
        record_kind: ConversationScriptRecordKind::Session,
        provider: Some("codex".to_string()),
        adapter_id: adapter_id.map(str::to_string),
        description: None,
        homepage_url: None,
        repository_url: None,
        tags: Vec::new(),
        manifest_file: None,
        package_manifest_file: None,
        expected_content_hash: None,
        expected_package_hash: None,
        expected_artifact_hash: None,
        artifact_size: None,
        source: ConversationScriptCatalogSource {
            kind: ConversationScriptCatalogSourceKind::Github,
            url: "https://github.com/util6/assetiweave/tree/main/builtin-assets/adapters/codex"
                .to_string(),
            branch: None,
            path: None,
        },
    }
}

fn adapter(id: &str, version: &str) -> ConversationAdapter {
    ConversationAdapter {
        id: id.to_string(),
        name: "Codex".to_string(),
        version: version.to_string(),
        enabled: true,
        manifest_path: Some("/tmp/codex/conversation-adapter.json".to_string()),
        trusted_hash: Some("hash".to_string()),
        trust_state: ConversationAdapterTrustState::Trusted,
        capabilities: vec!["read_session".to_string()],
        card_contract_version: None,
    }
}

fn package(id: &str, adapter_id: &str, version: &str) -> ConversationAdapterPackage {
    ConversationAdapterPackage {
        package_id: id.to_string(),
        adapter_id: adapter_id.to_string(),
        name: "Codex Session Parser".to_string(),
        version: version.to_string(),
        record_kind: ConversationAdapterPackageRecordKind::Session,
        install_dir: format!("/tmp/{id}/current"),
        manifest_path: format!("/tmp/{id}/current/conversation-adapter-package.json"),
        adapter_manifest_path: format!("/tmp/{id}/current/conversation-adapter.json"),
        runtime_protocol: "stdio-ndjson-v1".to_string(),
        runtime_ready: true,
        origin: ConversationAdapterPackageOrigin::ManagedRelease,
        source_url: None,
        git_ref: None,
        git_commit: None,
        catalog_url: None,
        update_policy: ConversationPackageUpdatePolicy::Manual,
        latest_version: Some(version.to_string()),
        last_checked_at: None,
        runtime_gate_status: ConversationAdapterRuntimeGateStatus::Ready,
        runtime_validated_at: None,
        installed_content_hash: Some("package-hash".to_string()),
        trusted_package_hash: Some("package-hash".to_string()),
        error_message: None,
        created_at: "2026-01-01T00:00:00Z".to_string(),
        updated_at: "2026-01-01T00:00:00Z".to_string(),
    }
}

fn package_version(version: &str, installed_at: &str) -> ConversationAdapterPackageVersion {
    ConversationAdapterPackageVersion {
        package_id: "io.github.util6.test".to_string(),
        version: version.to_string(),
        install_dir: format!("/tmp/versions/{version}"),
        artifact_hash: None,
        content_hash: format!("hash-{version}"),
        runtime_gate_status: ConversationAdapterRuntimeGateStatus::Ready,
        installed_at: installed_at.to_string(),
    }
}

#[test]
fn conversation_script_catalog_tests_legacy_catalog_item_reverse_maps_to_native_install_spec() {
    let mut item = catalog_item("io.github.util6.codex-session", Some("codex"));
    item.expected_package_hash = Some("package-hash".to_string());
    item.expected_artifact_hash = Some("artifact-hash".to_string());
    item.artifact_size = Some(42);

    let spec = item.to_install_spec();

    assert_eq!(spec.id, item.id);
    assert_eq!(spec.adapter_id, item.adapter_id);
    assert_eq!(spec.record_kind, ConversationAdapterPackageRecordKind::Session);
    assert_eq!(spec.expected_package_hash, item.expected_package_hash);
    assert_eq!(spec.expected_artifact_hash, item.expected_artifact_hash);
    assert_eq!(spec.artifact_size, item.artifact_size);
    assert_eq!(spec.source.kind, ConversationAdapterPackageInstallSourceKind::Github);
    assert_eq!(spec.source.url, item.source.url);
}

#[test]
fn conversation_script_catalog_tests_native_install_spec_github_source_preserves_tree_location() {
    let item = catalog_item("io.github.util6.codex-session", Some("codex"));
    let spec = item.to_install_spec();

    let location = parse_github_install_source(&spec.source)
        .ok()
        .expect("parse install spec");

    assert_eq!(location.repo_url, "https://github.com/util6/assetiweave.git");
    assert_eq!(location.branch.as_deref(), Some("main"));
    assert_eq!(location.path.as_deref(), Some("builtin-assets/adapters/codex"));
}

fn check_resolves_installed_state_from_declared_adapter_id() {
    let entries = resolve_conversation_adapter_package_catalog_entries(
        vec![catalog_item("codex-session", Some("codex"))],
        &[adapter("codex", "1.0.0")],
        &[],
    );

    assert!(entries[0].installed);
    assert_eq!(entries[0].status, "legacy_installed");
    assert!(!entries[0].update_available);
    assert_eq!(entries[0].installed_adapter.as_ref().unwrap().id, "codex");
}

#[test]
fn conversation_script_catalog_resolves_installed_state_from_declared_adapter_id() {
    check_resolves_installed_state_from_declared_adapter_id();
}

#[test]
fn conversation_script_catalog_tests_resolves_installed_state_from_declared_adapter_id() {
    check_resolves_installed_state_from_declared_adapter_id();
}

fn check_marks_installed_package_with_different_version_as_update_available() {
    let entries = resolve_conversation_adapter_package_catalog_entries(
        vec![catalog_item("codex-session", Some("codex"))],
        &[adapter("codex", "0.9.0")],
        &[package("codex-session", "codex", "0.9.0")],
    );

    assert!(entries[0].installed);
    assert!(entries[0].update_available);
    assert!(!entries[0].ahead_of_release);
    assert_eq!(entries[0].status, "update_available");
}

#[test]
fn conversation_script_catalog_marks_installed_package_with_different_version_as_update_available() {
    check_marks_installed_package_with_different_version_as_update_available();
}

#[test]
fn conversation_script_catalog_tests_marks_installed_package_with_different_version_as_update_available(
) {
    check_marks_installed_package_with_different_version_as_update_available();
}

fn check_marks_installed_package_newer_than_catalog_as_ahead_of_release() {
    let entries = resolve_conversation_adapter_package_catalog_entries(
        vec![catalog_item("codex-session", Some("codex"))],
        &[adapter("codex", "1.1.0")],
        &[package("codex-session", "codex", "1.1.0")],
    );

    assert!(entries[0].installed);
    assert!(!entries[0].update_available);
    assert!(entries[0].ahead_of_release);
    assert_eq!(entries[0].status, "ahead_of_release");
}

#[test]
fn conversation_script_catalog_marks_installed_package_newer_than_catalog_as_ahead_of_release() {
    check_marks_installed_package_newer_than_catalog_as_ahead_of_release();
}

#[test]
fn conversation_script_catalog_tests_marks_installed_package_newer_than_catalog_as_ahead_of_release() {
    check_marks_installed_package_newer_than_catalog_as_ahead_of_release();
}

fn check_managed_package_without_registered_runtime_is_reported_as_uninstalled() {
    let mut package = package("codex-session", "codex", "1.0.0");
    package.runtime_ready = false;
    package.runtime_gate_status = ConversationAdapterRuntimeGateStatus::RuntimeMissing;

    let entries = resolve_conversation_adapter_package_catalog_entries(
        vec![catalog_item("codex-session", Some("codex"))],
        &[],
        &[package],
    );

    assert!(entries[0].installed);
    assert_eq!(entries[0].status, "uninstalled");
    assert!(!entries[0].runtime_ready);
}

#[test]
fn conversation_script_catalog_managed_package_without_registered_runtime_is_reported_as_uninstalled() {
    check_managed_package_without_registered_runtime_is_reported_as_uninstalled();
}

#[test]
fn conversation_script_catalog_tests_managed_package_without_registered_runtime_is_reported_as_uninstalled(
) {
    check_managed_package_without_registered_runtime_is_reported_as_uninstalled();
}

fn check_uninstalled_replacement_uses_content_hash_and_rebases_manifest_paths() {
    let package = package("codex-session", "codex", "2.0.0");
    let replacement = ConversationAdapterPackageVersion {
        package_id: package.package_id.clone(),
        version: "1.0.0".to_string(),
        install_dir: "/tmp/codex-session/versions/1.0.0".to_string(),
        artifact_hash: Some("artifact-zip-hash".to_string()),
        content_hash: "unpacked-content-hash".to_string(),
        runtime_gate_status: ConversationAdapterRuntimeGateStatus::Ready,
        installed_at: "2026-07-17T00:00:00Z".to_string(),
    };

    let replaced = package_for_uninstalled_replacement(&package, &replacement);

    assert_eq!(replaced.version, "1.0.0");
    assert_eq!(replaced.trusted_package_hash.as_deref(), Some("unpacked-content-hash"));
    assert_eq!(
        replaced.manifest_path,
        "/tmp/codex-session/versions/1.0.0/conversation-adapter-package.json"
    );
    assert_eq!(
        replaced.adapter_manifest_path,
        "/tmp/codex-session/versions/1.0.0/conversation-adapter.json"
    );
}

#[test]
fn conversation_script_catalog_uninstalled_replacement_uses_content_hash_and_rebases_manifest_paths() {
    check_uninstalled_replacement_uses_content_hash_and_rebases_manifest_paths();
}

#[test]
fn conversation_script_catalog_tests_uninstalled_replacement_uses_content_hash_and_rebases_manifest_paths(
) {
    check_uninstalled_replacement_uses_content_hash_and_rebases_manifest_paths();
}

fn check_parses_github_tree_url_into_repo_branch_and_path() {
    let source = ConversationScriptCatalogSource {
        kind: ConversationScriptCatalogSourceKind::Github,
        url: "https://github.com/util6/assetiweave/tree/main/builtin-assets/adapters/codex"
            .to_string(),
        branch: None,
        path: None,
    };

    let location = parse_github_catalog_location(&source)
        .ok()
        .expect("parse GitHub tree URL");

    assert_eq!(location.repo_url, "https://github.com/util6/assetiweave.git");
    assert_eq!(location.branch.as_deref(), Some("main"));
    assert_eq!(location.path.as_deref(), Some("builtin-assets/adapters/codex"));
}

#[test]
fn conversation_script_catalog_parses_github_tree_url_into_repo_branch_and_path() {
    check_parses_github_tree_url_into_repo_branch_and_path();
}

#[test]
fn conversation_script_catalog_tests_parses_github_tree_url_into_repo_branch_and_path() {
    check_parses_github_tree_url_into_repo_branch_and_path();
}

fn check_rejects_unsafe_manifest_file_names() {
    let mut item = catalog_item("codex-session", Some("codex"));
    item.manifest_file = Some("../conversation-adapter.json".to_string());

    assert!(validate_conversation_script_catalog_item(&item).is_err());

    let mut item = catalog_item("codex-session", Some("codex"));
    item.package_manifest_file = Some("../conversation-adapter-package.json".to_string());

    assert!(validate_conversation_script_catalog_item(&item).is_err());
}

#[test]
fn conversation_script_catalog_rejects_unsafe_manifest_file_names() {
    check_rejects_unsafe_manifest_file_names();
}

#[test]
fn conversation_script_catalog_tests_rejects_unsafe_manifest_file_names() {
    check_rejects_unsafe_manifest_file_names();
}

fn check_package_versions_require_semver_before_becoming_path_segments() {
    assert_eq!(
        validated_package_version("1.2.3-beta.1").ok().unwrap(),
        "1.2.3-beta.1"
    );
    assert!(validated_package_version("latest").is_err());
    assert!(validated_package_version("1/../../external").is_err());
}

#[test]
fn conversation_script_catalog_package_versions_require_semver_before_becoming_path_segments() {
    check_package_versions_require_semver_before_becoming_path_segments();
}

#[test]
fn conversation_script_catalog_tests_package_versions_require_semver_before_becoming_path_segments() {
    check_package_versions_require_semver_before_becoming_path_segments();
}

fn check_rollback_selects_the_most_recently_installed_inactive_version() {
    let versions = vec![
        package_version("1.2.0", "2026-07-16T02:00:00Z"),
        package_version("1.1.0", "2026-07-16T01:00:00Z"),
        package_version("1.0.0", "2026-07-16T00:00:00Z"),
    ];

    assert_eq!(
        select_rollback_version(&versions, "1.2.0").map(|version| version.version.as_str()),
        Some("1.1.0")
    );
}

#[test]
fn conversation_script_catalog_rollback_selects_the_most_recently_installed_inactive_version() {
    check_rollback_selects_the_most_recently_installed_inactive_version();
}

#[test]
fn conversation_script_catalog_tests_rollback_selects_the_most_recently_installed_inactive_version() {
    check_rollback_selects_the_most_recently_installed_inactive_version();
}
