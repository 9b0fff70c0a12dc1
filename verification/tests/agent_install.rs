use assetiweave::agent_install::{
    check_install_action, check_install_preview_request, check_uninstall_assignments, check_uninstall_preview,
    install_preview_notes, select_install_distribution, uninstall_conflicts, CurrentInstallation, InstallChoice,
};
use assetiweave::error::AppError;

fn code_of(r: Result<(), AppError>) -> (String, String) {
    match r {
        Err(AppError::Domain { code, message, retryable, details }) => {
            assert!(!retryable);
            assert!(details.is_none());
            (code, message)
        }
        other => panic!("expected a refusal, got {other:?}"),
    }
}

#[test]
fn incompatible_installation_update_needs_reinstall() {
    let incompatible = || Some(CurrentInstallation { incompatible: true, same_protocol: true });
    let (code, message) = code_of(check_install_action("update", incompatible()));
    assert_eq!(code, "agent_reinstall_required");
    assert_eq!(
        message,
        "The installed Agent is incompatible with the active catalog definition; choose reinstall instead of update."
    );
    assert!(check_install_action("reinstall", incompatible()).is_ok());
    let other_protocol = Some(CurrentInstallation { incompatible: false, same_protocol: false });
    assert_eq!(code_of(check_install_action("update", other_protocol)).0, "agent_reinstall_required");
    assert!(check_install_action("update", Some(CurrentInstallation { incompatible: false, same_protocol: true })).is_ok());
}

#[test]
fn install_actions_follow_the_current_installation() {
    let (code, message) =
        code_of(check_install_action("install", Some(CurrentInstallation { incompatible: false, same_protocol: true })));
    assert_eq!(code, "agent_already_installed");
    assert_eq!(message, "The Agent is already installed; choose update or reinstall.");
    assert!(check_install_action("install", None).is_ok());
    let (code, message) = code_of(check_install_action("update", None));
    assert_eq!(code, "agent_not_installed");
    assert_eq!(message, "The Agent is not installed; choose install.");
    assert_eq!(code_of(check_install_action("reinstall", None)).0, "agent_not_installed");
}

#[test]
fn install_preview_requests_are_checked_first() {
    let (code, message) = code_of(check_install_preview_request(false, "install"));
    assert_eq!(code, "agent_not_found");
    assert_eq!(message, "The selected Agent is not in the curated catalog.");
    let (code, message) = code_of(check_install_preview_request(true, "upgrade"));
    assert_eq!(code, "invalid_action");
    assert_eq!(message, "Unsupported Agent installation action.");
    assert!(check_install_preview_request(true, "reinstall").is_ok());
}

fn choice(id: &str, recommended: bool) -> InstallChoice {
    InstallChoice { distribution_id: id.to_string(), recommended }
}

#[test]
fn install_distribution_prefers_recommended_or_requested() {
    let choices = vec![choice("npm", false), choice("binary", true), choice("npm", false), choice("uv", false)];
    let (selected, alternatives) = select_install_distribution("codex", &choices, None).ok().unwrap();
    assert_eq!(selected, 1);
    assert_eq!(alternatives, vec![0, 2, 3]);
    let (selected, alternatives) =
        select_install_distribution("codex", &choices, Some("npm".to_string())).ok().unwrap();
    assert_eq!(selected, 0);
    assert_eq!(alternatives, vec![1, 3]);

    let plain = vec![choice("npm", false)];
    match select_install_distribution("codex", &plain, Some("docker".to_string())) {
        Err(AppError::Domain { code, message, retryable, details }) => {
            assert_eq!(code, "distribution_unsupported");
            assert_eq!(message, "The selected Agent distribution is unavailable on this platform.");
            assert!(!retryable);
            assert_eq!(details.as_deref(), Some(r#"{"agentId":"codex","distributionId":"docker"}"#));
        }
        _ => panic!("expected an unsupported distribution"),
    }
}

#[test]
fn install_preview_notes_list_use_and_confirmation() {
    let (conflicts, warnings) = install_preview_notes(true, true);
    assert_eq!(conflicts, vec!["agent_in_use".to_string()]);
    assert_eq!(warnings, vec!["experimental_verification".to_string()]);
    let (conflicts, warnings) = install_preview_notes(false, false);
    assert!(conflicts.is_empty() && warnings.is_empty());
}

#[test]
fn uninstall_preview_checks_and_conflicts() {
    let (code, message) = code_of(check_uninstall_preview(false, true));
    assert_eq!(code, "agent_not_installed");
    assert_eq!(message, "The Agent is not installed.");
    let (code, message) = code_of(check_uninstall_preview(true, false));
    assert_eq!(code, "agent_not_found");
    assert_eq!(message, "The installed Agent is no longer in the curated catalog.");
    assert!(check_uninstall_preview(true, true).is_ok());

    let assignments = vec!["translation".to_string(), "memory".to_string()];
    assert_eq!(
        uninstall_conflicts(&assignments, true, true, false),
        vec!["assignment:translation", "assignment:memory", "agent_in_use", "unsafe_install_path"]
    );
    assert_eq!(uninstall_conflicts(&vec![], false, true, true), Vec::<String>::new());
    assert_eq!(uninstall_conflicts(&vec![], false, false, false), Vec::<String>::new());
}

#[test]
fn uninstall_must_clear_every_assignment() {
    let assignments = vec!["translation".to_string(), "memory".to_string()];
    let (code, message) = code_of(check_uninstall_assignments(&assignments, &vec!["memory".to_string()]));
    assert_eq!(code, "assignment_conflict");
    assert_eq!(message, "The Agent is still assigned to one or more capabilities.");
    assert!(check_uninstall_assignments(&assignments, &vec!["memory".to_string(), "translation".to_string()]).is_ok());
    assert!(check_uninstall_assignments(&vec![], &vec![]).is_ok());
}
