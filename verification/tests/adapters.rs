use assetiweave::adapters::{
    clean_non_empty_string, conversation_external_error, is_web_record_adapter,
    normalize_sync_record_kind, sync_source_matches_record_kind,
};
use assetiweave::error::AppError;
use assetiweave::models::{ConversationAdapter, ConversationAdapterTrustState, ConversationRecordKind};

fn adapter(id: &str, capabilities: &[&str]) -> ConversationAdapter {
    ConversationAdapter {
        id: id.to_string(),
        name: id.to_string(),
        version: "0.1.0".to_string(),
        enabled: true,
        manifest_path: None,
        trusted_hash: None,
        trust_state: ConversationAdapterTrustState::Trusted,
        capabilities: capabilities.iter().map(|value| value.to_string()).collect(),
        card_contract_version: None,
    }
}

#[test]
fn sync_record_kind_filters_session_and_web_sources_by_adapter_capability() {
    let session_adapter = adapter("codex", &["read_session"]);
    let web_adapter = adapter("qwen-web", &["read_session", "web_records"]);

    assert!(sync_source_matches_record_kind(
        Some(&session_adapter),
        "codex",
        normalize_sync_record_kind(Some("session")).unwrap(),
    ));
    assert!(!sync_source_matches_record_kind(
        Some(&web_adapter),
        "qwen-web",
        normalize_sync_record_kind(Some("session")).unwrap(),
    ));
    assert!(!sync_source_matches_record_kind(
        Some(&session_adapter),
        "codex",
        normalize_sync_record_kind(Some("web_records")).unwrap(),
    ));
    assert!(sync_source_matches_record_kind(
        Some(&web_adapter),
        "qwen-web",
        normalize_sync_record_kind(Some("web")).unwrap(),
    ));
    assert!(matches!(
        normalize_sync_record_kind(Some("assets")),
        Err(AppError::Validation(_))
    ));
}

#[test]
fn absent_or_blank_sync_record_kind_means_every_source() {
    assert!(matches!(normalize_sync_record_kind(None), Ok(None)));
    assert!(matches!(normalize_sync_record_kind(Some("   ")), Ok(None)));
    assert!(matches!(
        normalize_sync_record_kind(Some(" Web-Records ")),
        Ok(Some(ConversationRecordKind::Web))
    ));
    let codex = adapter("codex", &["read_session"]);
    assert!(sync_source_matches_record_kind(Some(&codex), "codex", None));
}

#[test]
fn web_record_adapters_are_known_by_capability_or_id() {
    let plain = adapter("codex", &["read_session"]);
    assert!(!is_web_record_adapter(Some(&plain), "codex"));
    assert!(is_web_record_adapter(None, "qwen-web"));
    assert!(!is_web_record_adapter(None, "codex"));
}

#[test]
fn sync_text_is_cleaned_and_lowercased() {
    assert_eq!(clean_non_empty_string("  Session ").as_deref(), Some("session"));
    assert_eq!(clean_non_empty_string("   "), None);
    match conversation_external_error("boom") {
        AppError::External(message) => assert_eq!(message, "boom"),
        other => panic!("unexpected error {other:?}"),
    }
}
