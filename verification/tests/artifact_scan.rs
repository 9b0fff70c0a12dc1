use assetiweave::artifact_scan::{check_artifact_entries, ArtifactEntry, MAX_ARTIFACT_BYTES};
use assetiweave::error::AppError;

fn entry(name: &str, key: Result<&str, &str>, mode: Option<u32>, size: u64) -> ArtifactEntry {
    ArtifactEntry {
        name: name.to_string(),
        path_key: key.map(str::to_string).map_err(str::to_string),
        unix_mode: mode,
        size,
    }
}

fn message(result: Result<(), AppError>) -> String {
    match result {
        Err(AppError::Validation(message)) => message,
        other => panic!("expected a validation error, got {other:?}"),
    }
}

#[test]
fn plain_artifacts_pass() {
    let entries = vec![
        entry("package/", Ok("package"), Some(0o040755), 0),
        entry("package/adapter.js", Ok("package/adapter.js"), Some(0o100644), 1200),
    ];
    assert!(check_artifact_entries(&entries).is_ok());
    assert!(check_artifact_entries(&Vec::new()).is_ok());
}

#[test]
fn unsafe_paths_are_reported_with_the_reason() {
    let entries = vec![entry("../escape.txt", Err("path escapes its root"), None, 6)];
    assert_eq!(
        message(check_artifact_entries(&entries)),
        "conversation adapter package artifact contains an unsafe path: path escapes its root"
    );
}

#[test]
fn colliding_keys_name_both_entries() {
    let entries = vec![
        entry("Package/Adapter.js", Ok("package/adapter.js"), None, 5),
        entry("other.js", Ok("other.js"), None, 5),
        entry("package/adapter.js", Ok("package/adapter.js"), None, 5),
    ];
    let text = message(check_artifact_entries(&entries));
    assert!(text.contains("colliding paths"));
    assert_eq!(
        text,
        "conversation adapter package artifact contains colliding paths: Package/Adapter.js and package/adapter.js"
    );
}

#[test]
fn symlinks_and_oversized_artifacts_are_refused() {
    let link = vec![entry("package/link", Ok("package/link"), Some(0o120777), 10)];
    assert_eq!(
        message(check_artifact_entries(&link)),
        "conversation adapter package artifact must not contain symlinks"
    );
    let exact = vec![entry("a", Ok("a"), None, MAX_ARTIFACT_BYTES)];
    assert!(check_artifact_entries(&exact).is_ok());
    let big = vec![entry("a", Ok("a"), None, MAX_ARTIFACT_BYTES), entry("b", Ok("b"), None, 1)];
    assert_eq!(
        message(check_artifact_entries(&big)),
        "conversation adapter package artifact expands beyond 1 GiB"
    );
    let huge = vec![entry("a", Ok("a"), None, 10), entry("b", Ok("b"), None, u64::MAX)];
    assert_eq!(
        message(check_artifact_entries(&huge)),
        "conversation adapter package artifact expands beyond 1 GiB"
    );
}

#[test]
fn artifacts_hold_at_most_ten_thousand_entries() {
    let many: Vec<ArtifactEntry> =
        (0..10_001).map(|i| entry(&format!("f{i}"), Ok(&format!("f{i}")), None, 0)).collect();
    assert_eq!(
        message(check_artifact_entries(&many)),
        "conversation adapter package artifact contains too many entries"
    );
}
