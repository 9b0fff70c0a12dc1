use assetiweave::catalog_v2::{ConversationAdapterCatalogRelease, ConversationAdapterReleaseChannel};
use assetiweave::error::AppError;
use assetiweave::models::{
    ConversationAdapterPackage, ConversationAdapterPackageOrigin, ConversationAdapterPackageRecordKind,
    ConversationAdapterRuntimeGateStatus, ConversationPackageUpdatePolicy,
};
use assetiweave::package_updates::{package_update_status, package_update_statuses, release_install_item};
use assetiweave::script_catalog::{ConversationScriptCatalogSourceKind, ConversationScriptRecordKind};

const CORE: &str = "0.5.2";

fn release(package_id: &str, version: &str, channel: ConversationAdapterReleaseChannel, core: &str) -> ConversationAdapterCatalogRelease {
    ConversationAdapterCatalogRelease {
        catalog_url: "https://example.test/index.json".to_string(),
        package_id: package_id.to_string(),
        adapter_id: "codex".to_string(),
        name: "Codex".to_string(),
        publisher: "util6".to_string(),
        version: version.to_string(),
        channel,
        released_at: None,
        core_compatibility: core.to_string(),
        artifact_url: format!("https://example.test/{version}.zip"),
        artifact_size: Some(1234),
        artifact_sha256: "a".repeat(64),
        changelog_markdown: String::new(),
        breaking_change: false,
        runtime_protocol: "stdio-ndjson-v1".to_string(),
        record_kind: ConversationAdapterPackageRecordKind::Web,
        package_manifest_file: "conversation-adapter-package.json".to_string(),
        adapter_manifest_file: "conversation-adapter.json".to_string(),
        adapter_manifest_json: None,
        source_json: None,
        etag: None,
        fetched_at: "2026-01-01T00:00:00Z".to_string(),
    }
}

fn package(origin: ConversationAdapterPackageOrigin, policy: ConversationPackageUpdatePolicy) -> ConversationAdapterPackage {
    ConversationAdapterPackage {
        package_id: "p".to_string(),
        adapter_id: "codex".to_string(),
        name: "Codex".to_string(),
        version: "1.0.0".to_string(),
        record_kind: ConversationAdapterPackageRecordKind::Session,
        install_dir: "/m/packages/p/versions/1.0.0".to_string(),
        manifest_path: "/m/p.json".to_string(),
        adapter_manifest_path: "/m/a.json".to_string(),
        runtime_protocol: "stdio-ndjson-v1".to_string(),
        runtime_ready: true,
        origin,
        source_url: None,
        git_ref: None,
        git_commit: None,
        catalog_url: None,
        update_policy: policy,
        latest_version: None,
        last_checked_at: None,
        runtime_gate_status: ConversationAdapterRuntimeGateStatus::Ready,
        runtime_validated_at: None,
        installed_content_hash: None,
        trusted_package_hash: None,
        error_message: None,
        created_at: "2026-01-01T00:00:00Z".to_string(),
        updated_at: "2026-01-01T00:00:00Z".to_string(),
    }
}

fn releases() -> Vec<ConversationAdapterCatalogRelease> {
    vec![
        release("p", "1.1.0", ConversationAdapterReleaseChannel::Stable, ">=0.5.0"),
        release("p", "1.3.0-beta.1", ConversationAdapterReleaseChannel::Beta, ">=0.5.0"),
        release("p", "1.2.0", ConversationAdapterReleaseChannel::Stable, ">=0.5.0"),
        release("p", "2.0.0", ConversationAdapterReleaseChannel::Stable, ">=9.0.0"),
        release("other", "5.0.0", ConversationAdapterReleaseChannel::Stable, ">=0.5.0"),
    ]
}

#[test]
fn updates_pick_the_newest_compatible_release_of_the_followed_channel() {
    let stable = package_update_status(
        &package(ConversationAdapterPackageOrigin::ManagedRelease, ConversationPackageUpdatePolicy::Manual),
        &releases(),
        CORE,
    )
    .unwrap();
    assert_eq!(stable.latest_compatible_release.as_ref().unwrap().version, "1.2.0");
    assert!(stable.update_available);
    assert_eq!(stable.current_version, "1.0.0");

    let beta = package_update_status(
        &package(ConversationAdapterPackageOrigin::ManagedRelease, ConversationPackageUpdatePolicy::FollowBeta),
        &releases(),
        CORE,
    )
    .unwrap();
    assert_eq!(beta.latest_compatible_release.unwrap().version, "1.3.0-beta.1");

    let pinned = package_update_status(
        &package(ConversationAdapterPackageOrigin::ManagedRelease, ConversationPackageUpdatePolicy::PinExact),
        &releases(),
        CORE,
    )
    .unwrap();
    assert!(pinned.latest_compatible_release.is_none());
    assert!(!pinned.update_available);

    let local = package_update_status(
        &package(ConversationAdapterPackageOrigin::LocalDirectory, ConversationPackageUpdatePolicy::Manual),
        &releases(),
        CORE,
    );
    assert!(local.is_none());

    let mut newer = package(ConversationAdapterPackageOrigin::ManagedRelease, ConversationPackageUpdatePolicy::Manual);
    newer.version = "1.2.0".to_string();
    assert!(!package_update_status(&newer, &releases(), CORE).unwrap().update_available);
    let none = package_update_status(&newer, &[], CORE).unwrap();
    assert!(none.latest_compatible_release.is_none());
    assert!(!none.update_available);
}

fn other_message(result: Result<impl Sized, AppError>) -> String {
    match result {
        Err(AppError::Other(message)) => message,
        Err(other) => panic!("unexpected {other:?}"),
        Ok(_) => panic!("expected an error"),
    }
}

#[test]
fn installs_by_version_need_a_listed_compatible_release() {
    let item = release_install_item("p", Some(" 1.2.0 "), &releases(), CORE).unwrap();
    assert_eq!(item.id, "p");
    assert_eq!(item.version, "1.2.0");
    assert_eq!(item.record_kind, ConversationScriptRecordKind::Web);
    assert_eq!(item.provider.as_deref(), Some("util6"));
    assert_eq!(item.expected_artifact_hash.as_deref(), Some("a".repeat(64).as_str()));
    assert_eq!(item.artifact_size, Some(1234));
    assert_eq!(item.source.kind, ConversationScriptCatalogSourceKind::ArtifactZip);
    assert_eq!(item.source.url, "https://example.test/1.2.0.zip");

    assert_eq!(
        other_message(release_install_item("p", None, &releases(), CORE)),
        "conversation adapter package release version is required"
    );
    assert_eq!(
        other_message(release_install_item("p", Some("  "), &releases(), CORE)),
        "conversation adapter package release version is required"
    );
    assert!(other_message(release_install_item("p", Some("latest"), &releases(), CORE))
        .starts_with("conversation adapter package release version must be SemVer: "));
    assert_eq!(
        other_message(release_install_item("p", Some("9.9.9"), &releases(), CORE)),
        "conversation adapter package release not found: p@9.9.9"
    );
    assert_eq!(
        other_message(release_install_item("p", Some("2.0.0"), &releases(), CORE)),
        "conversation adapter package release is not compatible with this Core: p@2.0.0 (>=9.0.0)"
    );
}

#[test]
fn update_check_covers_followed_packages_in_order_with_updated_records() {
    let mut pinned = package(ConversationAdapterPackageOrigin::ManagedRelease, ConversationPackageUpdatePolicy::PinExact);
    pinned.package_id = "pinned".to_string();
    pinned.latest_version = Some("0.9.0".to_string());
    let local = package(ConversationAdapterPackageOrigin::LocalDirectory, ConversationPackageUpdatePolicy::Manual);
    let managed = package(ConversationAdapterPackageOrigin::ManagedRelease, ConversationPackageUpdatePolicy::Manual);
    let now = "2026-05-01T00:00:00+00:00";
    let out = package_update_statuses(&vec![pinned, local, managed], &releases(), CORE, now);
    assert_eq!(out.len(), 2);
    assert_eq!(out[0].0.package_id, "pinned");
    assert!(out[0].0.latest_compatible_release.is_none());
    assert_eq!(out[0].1.latest_version, None);
    assert_eq!(out[0].1.last_checked_at.as_deref(), Some(now));
    assert_eq!(out[1].0.package_id, "p");
    assert_eq!(out[1].0.latest_compatible_release.as_ref().map(|r| r.version.as_str()), Some("1.2.0"));
    assert!(out[1].0.update_available);
    assert_eq!(out[1].1.latest_version.as_deref(), Some("1.2.0"));
    assert_eq!(out[1].1.last_checked_at.as_deref(), Some(now));
    assert_eq!(out[1].1.updated_at, "2026-01-01T00:00:00Z");
}
