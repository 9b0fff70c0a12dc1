use assetiweave::catalog_v2::{
    apply_update_policy_change, catalog_refresh_needed, check_update_policy_change, plan_release_listing,
    ConversationAdapterCatalogRelease, ConversationAdapterReleaseChannel,
};
use assetiweave::error::AppError;
use assetiweave::models::{
    ConversationAdapterPackage, ConversationAdapterPackageOrigin as O, ConversationAdapterPackageRecordKind,
    ConversationAdapterRuntimeGateStatus, ConversationPackageUpdatePolicy as P,
};
use assetiweave::package_change::check_package_update_request;

fn package(origin: O, policy: P) -> ConversationAdapterPackage {
    ConversationAdapterPackage {
        package_id: "p".to_string(),
        adapter_id: "codex".to_string(),
        name: "Codex".to_string(),
        version: "1.0.0".to_string(),
        record_kind: ConversationAdapterPackageRecordKind::Session,
        install_dir: "/m/packages/p/versions/1.0.0".to_string(),
        manifest_path: "/m/p.json".to_string(),
        adapter_manifest_path: "/m/a.json".to_string(),
        runtime_protocol: "stdio-ndjson-v1".to_string(),
        runtime_ready: true,
        origin,
        source_url: None,
        git_ref: None,
        git_commit: None,
        catalog_url: None,
        update_policy: policy,
        latest_version: None,
        last_checked_at: None,
        runtime_gate_status: ConversationAdapterRuntimeGateStatus::Ready,
        runtime_validated_at: None,
        installed_content_hash: None,
        trusted_package_hash: None,
        error_message: None,
        created_at: "2026-01-01T00:00:00Z".to_string(),
        updated_at: "2026-01-01T00:00:00Z".to_string(),
    }
}

fn cached(fetched_at: &str) -> ConversationAdapterCatalogRelease {
    ConversationAdapterCatalogRelease {
        catalog_url: "https://example.test/index.json".to_string(),
        package_id: "p".to_string(),
        adapter_id: "codex".to_string(),
        name: "Codex".to_string(),
        publisher: "util6".to_string(),
        version: "1.0.0".to_string(),
        channel: ConversationAdapterReleaseChannel::Stable,
        released_at: None,
        core_compatibility: ">=0.5.0".to_string(),
        artifact_url: "https://example.test/a.zip".to_string(),
        artifact_size: None,
        artifact_sha256: "0".repeat(64),
        changelog_markdown: String::new(),
        breaking_change: false,
        runtime_protocol: "v1".to_string(),
        record_kind: ConversationAdapterPackageRecordKind::Session,
        package_manifest_file: "conversation-adapter-package.json".to_string(),
        adapter_manifest_file: "conversation-adapter.json".to_string(),
        adapter_manifest_json: None,
        source_json: None,
        etag: None,
        fetched_at: fetched_at.to_string(),
    }
}

#[test]
fn only_managed_releases_may_leave_pin_exact() {
    assert!(check_update_policy_change("pkg", Some(O::ManagedRelease), P::FollowBeta).is_ok());
    assert!(check_update_policy_change("pkg", Some(O::ManagedRelease), P::Manual).is_ok());
    for origin in [O::BuiltIn, O::LocalDirectory, O::GitRef, O::LegacyExternal, O::DevOverride] {
        assert!(check_update_policy_change("pkg", Some(origin), P::PinExact).is_ok());
        match check_update_policy_change("pkg", Some(origin), P::Manual) {
            Err(AppError::Other(m)) => assert_eq!(m, "local, Git, dev, built-in, and legacy packages must remain pinned"),
            _ => panic!("expected the package to stay pinned"),
        }
    }
    match check_update_policy_change("  pkg-x ", None, P::PinExact) {
        Err(AppError::Other(m)) => assert_eq!(m, "conversation adapter package not found: pkg-x"),
        _ => panic!("expected a missing package"),
    }
}

#[test]
fn accepted_policy_change_updates_the_record() {
    let stored = package(O::ManagedRelease, P::PinExact);
    let changed = apply_update_policy_change("p", Some(&stored), P::FollowBeta, "2026-06-01T00:00:00Z").ok().unwrap();
    assert_eq!(changed.update_policy, P::FollowBeta);
    assert_eq!(changed.updated_at, "2026-06-01T00:00:00Z");
    assert_eq!(changed.created_at, stored.created_at);
    assert_eq!(changed.version, stored.version);
    let local = package(O::LocalDirectory, P::PinExact);
    assert!(apply_update_policy_change("p", Some(&local), P::Manual, "t").is_err());
    assert!(apply_update_policy_change("p", None, P::Manual, "t").is_err());
}

#[test]
fn unconfirmed_update_is_refused() {
    match check_package_update_request(false, false, Some("1.2.0")) {
        Err(AppError::Validation(m)) => assert_eq!(m, "conversation adapter package update requires --yes"),
        _ => panic!("expected a refusal"),
    }
    assert_eq!(check_package_update_request(true, false, Some(" 1.2.0 ")).ok(), Some(true));
    assert_eq!(check_package_update_request(false, true, Some("  ")).ok(), Some(false));
    assert_eq!(check_package_update_request(false, true, None).ok(), Some(false));
}

#[test]
fn release_listing_needs_an_id_and_refreshes_when_due() {
    let now = "2026-01-02T12:00:00Z";
    match plan_release_listing("  ", false, &[], now) {
        Err(AppError::Other(m)) => assert_eq!(m, "conversation adapter package release list requires package_id"),
        _ => panic!("expected a refusal"),
    }
    let fresh = vec![cached("2026-01-02T11:00:00Z")];
    let stale = vec![cached("2025-12-30T00:00:00Z")];
    assert_eq!(plan_release_listing(" p ", false, &fresh, now).ok(), Some(("p".to_string(), false)));
    assert_eq!(plan_release_listing("p", true, &fresh, now).ok(), Some(("p".to_string(), true)));
    assert_eq!(plan_release_listing("p", false, &[], now).ok(), Some(("p".to_string(), true)));
    assert_eq!(plan_release_listing("p", false, &stale, now).ok(), Some(("p".to_string(), true)));
    assert!(!catalog_refresh_needed(false, &fresh, now));
    assert!(catalog_refresh_needed(true, &fresh, now));
}
