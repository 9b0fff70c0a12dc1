use assetiweave::catalog_v2::{
    default_adapter_manifest_file, default_package_manifest_file, normalized_catalog_v2_url,
    semver_is_newer, validate_catalog_package_id, validate_catalog_v2_history,
    validate_catalog_v2_index, CatalogV2History, CatalogV2Index, CatalogV2PackageIndex,
    CatalogV2Release, ConversationAdapterReleaseChannel,
};
use assetiweave::error::AppError;
use assetiweave::models::{ConversationAdapterPackageRecordKind, ConversationAdapterRuntimeGateStatus};
use assetiweave::script_catalog::classify_runtime_gate_error;

fn check_catalog_v2_rejects_mutable_or_invalid_release_identity() {
    assert!(validate_catalog_package_id("com.util6.codex-session").is_ok());
    assert!(validate_catalog_package_id("../codex").is_err());
    assert!(semver_is_newer("1.1.0", "1.0.9"));
    assert!(!semver_is_newer("1.0.0", "1.0.0"));
}

#[test]
fn conversation_adapter_catalog_v2_catalog_v2_rejects_mutable_or_invalid_release_identity() {
    check_catalog_v2_rejects_mutable_or_invalid_release_identity();
}

#[test]
fn conversation_adapter_catalog_v2_tests_catalog_v2_rejects_mutable_or_invalid_release_identity() {
    check_catalog_v2_rejects_mutable_or_invalid_release_identity();
}

fn check_runtime_gate_errors_have_distinct_repair_states() {
    assert_eq!(
        classify_runtime_gate_error(
            "/missing/package",
            "conversation adapter package root is not a directory"
        ),
        ConversationAdapterRuntimeGateStatus::RuntimeMissing
    );
    assert_eq!(
        classify_runtime_gate_error(
            "/existing/package",
            "conversation adapter package content hash mismatch"
        ),
        ConversationAdapterRuntimeGateStatus::HashMismatch
    );
    assert_eq!(
        classify_runtime_gate_error(
            "/existing/package",
            "conversation adapter package requires AssetIWeave core >= 9.0.0"
        ),
        ConversationAdapterRuntimeGateStatus::CoreIncompatible
    );
    assert_eq!(
        classify_runtime_gate_error(
            "/existing/package",
            "conversation adapter package was not valid JSON"
        ),
        ConversationAdapterRuntimeGateStatus::ManifestInvalid
    );
}

#[test]
fn conversation_script_catalog_runtime_gate_errors_have_distinct_repair_states() {
    check_runtime_gate_errors_have_distinct_repair_states();
}

#[test]
fn conversation_script_catalog_tests_runtime_gate_errors_have_distinct_repair_states() {
    check_runtime_gate_errors_have_distinct_repair_states();
}

fn package_index(id: &str, stable: Option<&str>, beta: Option<&str>) -> CatalogV2PackageIndex {
    CatalogV2PackageIndex {
        package_id: id.to_string(),
        stable_version: stable.map(str::to_string),
        beta_version: beta.map(str::to_string),
        history_url: format!("packages/{id}/history.json"),
    }
}

fn release(version: &str, channel: ConversationAdapterReleaseChannel) -> CatalogV2Release {
    CatalogV2Release {
        version: version.to_string(),
        channel,
        released_at: None,
        core_compatibility: ">=0.1.0".to_string(),
        artifact_url: format!("https://example.invalid/{version}.zip"),
        artifact_size: Some(10),
        artifact_sha256: "ab".repeat(32),
        changelog_markdown: String::new(),
        breaking_change: false,
        runtime_protocol: "stdio-ndjson-v1".to_string(),
        adapter_manifest: None,
        source: None,
    }
}

fn history(id: &str, releases: Vec<CatalogV2Release>) -> CatalogV2History {
    CatalogV2History {
        schema_version: 2,
        package_id: id.to_string(),
        adapter_id: "codex".to_string(),
        name: "Codex".to_string(),
        publisher: "util6".to_string(),
        record_kind: ConversationAdapterPackageRecordKind::Session,
        package_manifest_file: default_package_manifest_file(),
        adapter_manifest_file: default_adapter_manifest_file(),
        releases,
    }
}

fn other_message(result: Result<(), AppError>) -> String {
    match result {
        Err(AppError::Other(message)) => message,
        other => panic!("unexpected {other:?}"),
    }
}

#[test]
fn catalog_index_reports_the_first_problem() {
    let good = CatalogV2Index {
        schema_version: 2,
        packages: vec![package_index("codex", Some("1.0.0"), None)],
    };
    assert!(validate_catalog_v2_index(&good).is_ok());
    let old = CatalogV2Index { schema_version: 1, packages: Vec::new() };
    assert_eq!(
        other_message(validate_catalog_v2_index(&old)),
        "conversation adapter Catalog index schema_version must be 2"
    );
    let duplicate = CatalogV2Index {
        schema_version: 2,
        packages: vec![package_index("codex", None, None), package_index("codex", None, None)],
    };
    assert_eq!(other_message(validate_catalog_v2_index(&duplicate)), "duplicate Catalog v2 package: codex");
    let unsafe_id = CatalogV2Index {
        schema_version: 2,
        packages: vec![package_index("Codex", None, None)],
    };
    assert_eq!(other_message(validate_catalog_v2_index(&unsafe_id)), "Catalog v2 package_id is unsafe: Codex");
    let bad_version = CatalogV2Index {
        schema_version: 2,
        packages: vec![package_index("codex", Some("1.0"), None)],
    };
    assert!(other_message(validate_catalog_v2_index(&bad_version))
        .starts_with("Catalog v2 latest version must be SemVer (1.0): "));
}

#[test]
fn catalog_history_must_match_its_index_entry() {
    let index = package_index("codex", Some("1.0.0"), Some("1.1.0-beta.1"));
    let good = history(
        "codex",
        vec![
            release("1.0.0", ConversationAdapterReleaseChannel::Stable),
            release("1.1.0-beta.1", ConversationAdapterReleaseChannel::Beta),
        ],
    );
    assert!(validate_catalog_v2_history(&index, &good).is_ok());
    let other = history("other", Vec::new());
    assert_eq!(
        other_message(validate_catalog_v2_history(&index, &other)),
        "Catalog v2 history identity mismatch: codex"
    );
    let duplicate = history(
        "codex",
        vec![
            release("1.0.0", ConversationAdapterReleaseChannel::Stable),
            release("1.0.0", ConversationAdapterReleaseChannel::Beta),
        ],
    );
    assert_eq!(
        other_message(validate_catalog_v2_history(&index, &duplicate)),
        "duplicate Catalog v2 release: codex@1.0.0"
    );
    let missing_beta = history("codex", vec![release("1.0.0", ConversationAdapterReleaseChannel::Stable)]);
    assert_eq!(
        other_message(validate_catalog_v2_history(&index, &missing_beta)),
        "Catalog v2 latest channel version is missing: codex@1.1.0-beta.1"
    );
    let mut bad_hash = release("1.0.0", ConversationAdapterReleaseChannel::Stable);
    bad_hash.artifact_sha256 = "xyz".to_string();
    assert_eq!(
        other_message(validate_catalog_v2_history(&index, &history("codex", vec![bad_hash]))),
        "Catalog v2 artifact metadata is invalid: codex@1.0.0"
    );
    let mut bad_protocol = release("1.0.0", ConversationAdapterReleaseChannel::Stable);
    bad_protocol.runtime_protocol = "grpc".to_string();
    assert_eq!(
        other_message(validate_catalog_v2_history(&index, &history("codex", vec![bad_protocol]))),
        "unsupported Catalog v2 runtime protocol: grpc"
    );
}

#[test]
fn catalog_url_defaults_when_blank() {
    assert_eq!(normalized_catalog_v2_url(Some("  https://x.invalid/index.json ")), "https://x.invalid/index.json");
    assert_eq!(
        normalized_catalog_v2_url(Some("   ")),
        "https://raw.githubusercontent.com/util6/assetiweave/main/parser-catalog/index.json"
    );
    assert_eq!(normalized_catalog_v2_url(None), normalized_catalog_v2_url(Some("")));
}
