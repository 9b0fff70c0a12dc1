use assetiweave::agent_market::{
    agent_check_stale_at, agent_runtime_health, connected_installation_state, installation_error,
    installation_health_at, shown_installation_status, AgentRuntimeStatus, InstallationStatusChange, RuntimeProbe,
};

const NOW: &str = "2026-05-01T12:00:00Z";

#[test]
fn health_checks_go_stale_after_half_an_hour() {
    assert!(agent_check_stale_at(None, NOW));
    assert!(agent_check_stale_at(Some("yesterday"), NOW));
    assert!(!agent_check_stale_at(Some("2026-05-01T11:30:00Z"), NOW));
    assert!(agent_check_stale_at(Some("2026-05-01T11:29:59Z"), NOW));
    assert!(!agent_check_stale_at(Some("2026-05-01T13:45:00+02:00"), NOW));
}

#[test]
fn installations_show_their_latest_check_and_staleness() {
    let (last, stale) = installation_health_at(false, Some("ready"), Some("2026-05-01T11:50:00Z"), Some("2026-05-01T09:00:00Z"), NOW);
    assert_eq!(last.as_deref(), Some("2026-05-01T11:50:00Z"));
    assert!(!stale);
    let (last, stale) = installation_health_at(false, None, None, Some("2026-05-01T09:00:00Z"), NOW);
    assert_eq!(last.as_deref(), Some("2026-05-01T09:00:00Z"));
    assert!(stale);
    assert!(installation_health_at(true, None, Some("2026-05-01T11:59:00Z"), None, NOW).1);
    assert!(installation_health_at(false, Some("unchecked"), Some("2026-05-01T11:59:00Z"), None, NOW).1);
    assert_eq!(installation_health_at(false, None, None, None, NOW), (None, true));
    assert_eq!(shown_installation_status(true, "ready"), "ready");
    assert_eq!(shown_installation_status(false, "ready"), "disabled");
}

#[test]
fn installation_errors_prefer_the_protocol_check() {
    assert_eq!(
        installation_error(Some("acp_timeout"), None, Some("runtime_missing"), Some("node not found")),
        Some(("acp_timeout".to_string(), "Agent protocol health check failed.".to_string()))
    );
    assert_eq!(
        installation_error(None, None, Some("runtime_missing"), None),
        Some(("runtime_missing".to_string(), "Agent runtime health check failed.".to_string()))
    );
    assert_eq!(
        installation_error(Some("x"), Some("custom"), None, None),
        Some(("x".to_string(), "custom".to_string()))
    );
    assert_eq!(installation_error(None, Some("ignored"), None, Some("ignored")), None);
    assert_eq!(connected_installation_state(true, true, true, true, "unchecked"), ("ready".to_string(), true));
    assert_eq!(connected_installation_state(false, true, true, true, "failed"), ("failed".to_string(), false));
    assert_eq!(connected_installation_state(true, false, true, true, "unchecked"), ("ready".to_string(), false));
}

#[test]
fn runtime_probe_outcomes_set_health() {
    let missing = agent_runtime_health(true, false, RuntimeProbe::EntryMissing);
    assert_eq!(missing.runtime_status, AgentRuntimeStatus::EntryMissing);
    assert_eq!(missing.runtime_error_code.as_deref(), Some("agent_entry_missing"));
    assert_eq!(missing.runtime_error_message.as_deref(), Some("The resolved Agent entry is missing."));
    assert_eq!(missing.installation_status, InstallationStatusChange::Broken);
    assert_eq!(
        agent_runtime_health(false, false, RuntimeProbe::EntryMissing).runtime_status,
        AgentRuntimeStatus::RuntimeMissing
    );

    let clean = agent_runtime_health(
        true,
        true,
        RuntimeProbe::Finished { success: true, stdout_truncated: false, stderr_truncated: false },
    );
    assert_eq!(clean.runtime_status, AgentRuntimeStatus::Ready);
    assert_eq!(clean.runtime_error_code, None);
    assert_eq!(clean.installation_status, InstallationStatusChange::Ready);
    let clean_ready = agent_runtime_health(
        true,
        false,
        RuntimeProbe::Finished { success: true, stdout_truncated: false, stderr_truncated: false },
    );
    assert_eq!(clean_ready.installation_status, InstallationStatusChange::Unchanged);

    let overflow = agent_runtime_health(
        true,
        false,
        RuntimeProbe::Finished { success: true, stdout_truncated: false, stderr_truncated: true },
    );
    assert_eq!(overflow.runtime_status, AgentRuntimeStatus::Failed);
    assert_eq!(overflow.runtime_error_code.as_deref(), Some("runtime_probe_output_limit"));
    assert_eq!(
        overflow.runtime_error_message.as_deref(),
        Some("The Agent runtime version probe did not complete successfully.")
    );
    let failed_exit = agent_runtime_health(
        true,
        false,
        RuntimeProbe::Finished { success: false, stdout_truncated: false, stderr_truncated: false },
    );
    assert_eq!(failed_exit.runtime_error_code.as_deref(), Some("runtime_probe_failed"));
    assert_eq!(failed_exit.installation_status, InstallationStatusChange::Broken);

    let timeout = agent_runtime_health(false, false, RuntimeProbe::TimedOut);
    assert_eq!(timeout.runtime_error_code.as_deref(), Some("runtime_probe_timeout"));
    assert_eq!(timeout.runtime_error_message.as_deref(), Some("The Agent runtime version probe failed."));
    let spawn = agent_runtime_health(false, false, RuntimeProbe::Failed);
    assert_eq!(spawn.runtime_error_code.as_deref(), Some("runtime_probe_failed"));
    let not_run = agent_runtime_health(false, true, RuntimeProbe::NotRun);
    assert_eq!(not_run.runtime_status, AgentRuntimeStatus::Ready);
    assert_eq!(not_run.installation_status, InstallationStatusChange::Ready);
}
