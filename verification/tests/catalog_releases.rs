use assetiweave::catalog_v2::{
    catalog_cache_is_stale_at, local_catalog_document_path, resolve_remote_catalog_document_url,
    sort_releases_newest_first, ConversationAdapterCatalogRelease, ConversationAdapterReleaseChannel,
};
use assetiweave::error::AppError;
use assetiweave::models::ConversationAdapterPackageRecordKind;

fn cached(version: &str, fetched_at: &str) -> ConversationAdapterCatalogRelease {
    ConversationAdapterCatalogRelease {
        catalog_url: "https://example.test/index.json".to_string(),
        package_id: "io.github.util6.codex-session".to_string(),
        adapter_id: "codex".to_string(),
        name: "Codex".to_string(),
        publisher: "util6".to_string(),
        version: version.to_string(),
        channel: ConversationAdapterReleaseChannel::Stable,
        released_at: None,
        core_compatibility: ">=0.5.0".to_string(),
        artifact_url: "https://example.test/a.zip".to_string(),
        artifact_size: None,
        artifact_sha256: "0".repeat(64),
        changelog_markdown: String::new(),
        breaking_change: false,
        runtime_protocol: "v1".to_string(),
        record_kind: ConversationAdapterPackageRecordKind::Session,
        package_manifest_file: "conversation-adapter-package.json".to_string(),
        adapter_manifest_file: "conversation-adapter.json".to_string(),
        adapter_manifest_json: None,
        source_json: None,
        etag: None,
        fetched_at: fetched_at.to_string(),
    }
}

#[test]
fn releases_are_listed_newest_first_with_unparsable_versions_last() {
    let mut releases = vec![
        cached("1.2.0", "a"),
        cached("not-a-version", "b"),
        cached("1.10.0", "c"),
        cached("1.2.0-beta.1", "d"),
        cached("0.9.0", "e"),
        cached("junk", "f"),
    ];
    sort_releases_newest_first(&mut releases);
    let order: Vec<(&str, &str)> =
        releases.iter().map(|release| (release.version.as_str(), release.fetched_at.as_str())).collect();
    assert_eq!(
        order,
        vec![
            ("1.10.0", "c"),
            ("1.2.0", "a"),
            ("1.2.0-beta.1", "d"),
            ("0.9.0", "e"),
            ("not-a-version", "b"),
            ("junk", "f"),
        ]
    );
    let mut empty: Vec<ConversationAdapterCatalogRelease> = Vec::new();
    sort_releases_newest_first(&mut empty);
    assert!(empty.is_empty());
}

#[test]
fn history_urls_resolve_against_the_index() {
    assert_eq!(
        resolve_remote_catalog_document_url("https://example.test/catalog/index.json", "history/a.json")
            .unwrap()
            .unwrap(),
        "https://example.test/catalog/history/a.json"
    );
    assert_eq!(
        resolve_remote_catalog_document_url("/local/index.json", "https://cdn.test/h.json").unwrap().unwrap(),
        "https://cdn.test/h.json"
    );
    assert!(resolve_remote_catalog_document_url("/local/index.json", "history/a.json").is_none());
    match resolve_remote_catalog_document_url("http://", "history/a.json") {
        Some(Err(AppError::Other(message))) => {
            assert!(message.starts_with("resolve Catalog v2 history URL failed: "))
        }
        _ => panic!("an unparsable index URL must be reported"),
    }
    assert_eq!(local_catalog_document_path("/local/catalog/index.json", "history/a.json"), "/local/catalog/history/a.json");
    assert_eq!(local_catalog_document_path("index.json", "history/a.json"), "history/a.json");
    assert_eq!(local_catalog_document_path("/", "history/a.json"), "./history/a.json");
}

#[test]
fn cached_releases_go_stale_after_a_day() {
    let now = "2026-03-02T12:00:00Z";
    assert!(catalog_cache_is_stale_at(&[], now));
    assert!(!catalog_cache_is_stale_at(&[cached("1.0.0", "2026-03-02T00:00:00Z")], now));
    assert!(catalog_cache_is_stale_at(&[cached("1.0.0", "2026-03-01T11:59:59Z")], now));
    assert!(!catalog_cache_is_stale_at(&[cached("1.0.0", "2026-03-01T12:00:00Z")], now));
    assert!(catalog_cache_is_stale_at(&[cached("1.0.0", "garbage")], now));
    assert!(!catalog_cache_is_stale_at(
        &[cached("1.0.0", "2026-02-01T00:00:00Z"), cached("1.0.0", "2026-03-02T06:00:00+02:00")],
        now
    ));
}

#[test]
fn tied_releases_keep_their_order() {
    let mut releases = vec![
        cached("junk-1", "first-junk"),
        cached("1.0.0", "first-one"),
        cached("2.0.0", "two"),
        cached("junk-2", "second-junk"),
        cached("1.0.0", "second-one"),
    ];
    sort_releases_newest_first(&mut releases);
    let order: Vec<&str> = releases.iter().map(|r| r.fetched_at.as_str()).collect();
    assert_eq!(order, vec!["two", "first-one", "second-one", "first-junk", "second-junk"]);
}
