use assetiweave::agent_errors::{app_error_from_agent_market, AgentMarketError};
use assetiweave::error::AppError;

fn domain(e: AppError) -> (String, String, bool, Option<String>) {
    match e {
        AppError::Domain { code, message, retryable, details } => (code, message, retryable, details),
        other => panic!("expected a domain error, got {other:?}"),
    }
}

#[test]
fn agent_market_missing_installation_names_the_agent() {
    let (code, message, retryable, details) =
        domain(app_error_from_agent_market(AgentMarketError::InstallationNotFound { agent_id: "codex".to_string() }));
    assert_eq!(code, "agent_not_installed");
    assert_eq!(message, "Agent installation 'codex' not found");
    assert!(!retryable);
    assert_eq!(details.as_deref(), Some(r#"{"agentId":"codex"}"#));
}

#[test]
fn agent_market_distribution_retry_depends_on_code() {
    let missing = domain(app_error_from_agent_market(AgentMarketError::Distribution {
        code: "runtime_missing".to_string(),
        message: "node is required".to_string(),
        agent_id: Some("codex".to_string()),
        distribution_id: None,
        details: None,
    }));
    assert_eq!(missing.0, "runtime_missing");
    assert_eq!(missing.1, "node is required");
    assert!(missing.2);
    assert_eq!(missing.3.as_deref(), Some(r#"{"agentId":"codex","distributionId":null}"#));

    let other = domain(app_error_from_agent_market(AgentMarketError::Distribution {
        code: "checksum_mismatch".to_string(),
        message: "bad archive".to_string(),
        agent_id: None,
        distribution_id: None,
        details: None,
    }));
    assert!(!other.2);
    assert_eq!(other.3, None);

    let given = domain(app_error_from_agent_market(AgentMarketError::Distribution {
        code: "system_version_incompatible".to_string(),
        message: "too old".to_string(),
        agent_id: Some("codex".to_string()),
        distribution_id: Some("npm".to_string()),
        details: Some(r#"{"found":"1.0"}"#.to_string()),
    }));
    assert!(given.2);
    assert_eq!(given.3.as_deref(), Some(r#"{"found":"1.0"}"#));
}

#[test]
fn agent_market_lifecycle_and_timeout_details() {
    let lifecycle = domain(app_error_from_agent_market(AgentMarketError::Lifecycle {
        code: "agent_reinstall_required".to_string(),
        message: "reinstall".to_string(),
        agent_id: Some("antigravity".to_string()),
        phase: None,
        retryable: false,
        action: Some("update".to_string()),
        details: None,
    }));
    assert_eq!(lifecycle.0, "agent_reinstall_required");
    assert_eq!(lifecycle.3.as_deref(), Some(r#"{"action":"update","agentId":"antigravity","phase":null}"#));

    let timeout = domain(app_error_from_agent_market(AgentMarketError::Timeout {
        message: "probe timed out".to_string(),
        agent_id: None,
    }));
    assert_eq!(timeout.0, "timeout");
    assert!(timeout.2);
    assert_eq!(timeout.3, None);
}

#[test]
fn agent_market_plain_failures_keep_their_kind() {
    assert!(matches!(app_error_from_agent_market(AgentMarketError::Database("locked".to_string())), AppError::Db(m) if m == "locked"));
    assert!(matches!(app_error_from_agent_market(AgentMarketError::Io("denied".to_string())), AppError::Io(m) if m == "denied"));
    assert!(matches!(
        app_error_from_agent_market(AgentMarketError::Serialization("bad json".to_string())),
        AppError::Storage(m) if m == "bad json"
    ));
    assert!(matches!(
        app_error_from_agent_market(AgentMarketError::Process(AppError::External("spawn failed".to_string()))),
        AppError::External(m) if m == "spawn failed"
    ));
    let catalog = domain(app_error_from_agent_market(AgentMarketError::Catalog("bad catalog".to_string())));
    assert_eq!(catalog, ("invalid_catalog".to_string(), "bad catalog".to_string(), false, None));
    let validation = domain(app_error_from_agent_market(AgentMarketError::CatalogValidation {
        message: "missing version".to_string(),
        agent_id: None,
        field: Some("version".to_string()),
        details: None,
    }));
    assert_eq!(validation.0, "catalog_validation_failed");
    assert_eq!(validation.3.as_deref(), Some(r#"{"agentId":null,"field":"version"}"#));
}
