use assetiweave::error::AppError;
use assetiweave::models::{
    ConversationAdapterPackageChangeAction as Action, ConversationAdapterPackageChangeRisk as Risk,
    ConversationAdapterPackageOrigin as Origin, ConversationSource,
};
use assetiweave::models::ConversationAdapterRuntimeGateStatus as Gate;
use assetiweave::models::ConversationAdapterTrustState as Trust;
use assetiweave::order::sorted_distinct_texts;
use assetiweave::adapter_installer::{
    ConversationAdapterPackageManifestSummary, ConversationAdapterPackageValidationResult,
    ExternalAdapterManifestSummary, ExternalAdapterValidationResult,
};
use assetiweave::package_change::{
    evaluate_package_runtime, record_package_runtime,
    check_local_registration_request, check_local_registration_target, check_package_uninstall,
    conversation_adapter_package_inspection, inspection_lookup_key, local_package_record, plan_adapter_unregister,
    AdapterUnregisterStep, PackageLookupKey,
    activated_package_record, check_activation_validation, check_version_activation, plan_package_version_delete,
    check_package_change_allowed, package_change_adapter_id, package_change_needs_inspection,
    package_change_origin, package_change_preflight, package_change_risk, PackageInspectionSummary,
};
use assetiweave::script_catalog::reject_conversation_package_task_conflicts;

fn some(text: &str) -> Option<String> {
    Some(text.to_string())
}

#[test]
fn installs_and_registrations_that_name_their_target_skip_the_lookup() {
    assert!(!package_change_needs_inspection(Action::Install, &some("pkg"), &None));
    assert!(package_change_needs_inspection(Action::Install, &None, &some("codex")));
    assert!(!package_change_needs_inspection(Action::Register, &None, &some("codex")));
    assert!(package_change_needs_inspection(Action::Uninstall, &some("pkg"), &some("codex")));
    assert_eq!(package_change_origin(Action::Register, None), Origin::LocalDirectory);
    assert_eq!(package_change_origin(Action::Install, None), Origin::ManagedRelease);
    assert_eq!(package_change_origin(Action::Install, Some(Origin::GitRef)), Origin::GitRef);
}

fn refusal(action: Action, origin: Origin) -> String {
    match check_package_change_allowed(action, origin) {
        Err(AppError::Validation(message)) => message,
        other => panic!("unexpected {other:?}"),
    }
}

#[test]
fn origins_decide_which_changes_are_allowed() {
    assert_eq!(
        refusal(Action::Uninstall, Origin::BuiltIn),
        "built-in conversation adapters use disable, not package uninstall"
    );
    assert_eq!(
        refusal(Action::Unregister, Origin::ManagedRelease),
        "managed conversation adapter packages must be uninstalled, not unregistered"
    );
    assert_eq!(
        refusal(Action::Uninstall, Origin::LocalDirectory),
        "only managed conversation adapter packages can be uninstalled"
    );
    assert!(check_package_change_allowed(Action::Uninstall, Origin::ManagedRelease).is_ok());
    assert!(check_package_change_allowed(Action::Unregister, Origin::LocalDirectory).is_ok());
    assert!(check_package_change_allowed(Action::Register, Origin::BuiltIn).is_ok());
}

#[test]
fn change_risks_follow_what_the_change_writes() {
    assert_eq!(package_change_risk(Action::Revalidate), Risk::ReadOnly);
    assert_eq!(package_change_risk(Action::Unregister), Risk::Write);
    for action in [Action::Register, Action::Install, Action::Update, Action::Uninstall, Action::SwitchVersion, Action::Rollback, Action::DeleteVersion] {
        assert_eq!(package_change_risk(action), Risk::HighRiskWrite);
    }
}

#[test]
fn preflight_lists_distinct_paths_and_running_syncs() {
    let inspection = Some(PackageInspectionSummary {
        origin: Origin::ManagedRelease,
        package_id: some("io.github.util6.codex-session"),
        adapter_id: some("codex"),
        affected_sources: vec![ConversationSource { id: "src-1".to_string(), adapter_id: "codex".to_string(), name: "src-1".to_string(), enabled: true }],
    });
    let adapter = package_change_adapter_id(&inspection, &some("ignored"));
    assert_eq!(adapter.as_deref(), Some("codex"));
    let paths = vec!["/m/packages/b".to_string(), "/m/packages/a".to_string(), "/m/packages/b".to_string()];
    let preflight =
        package_change_preflight(Action::Uninstall, Origin::ManagedRelease, None, adapter, inspection, &paths, true);
    assert_eq!(preflight.package_id.as_deref(), Some("io.github.util6.codex-session"));
    assert_eq!(preflight.managed_paths, vec!["/m/packages/a".to_string(), "/m/packages/b".to_string()]);
    assert_eq!(preflight.affected_sources.len(), 1);
    assert_eq!(preflight.task_conflicts, vec!["conversation_sync".to_string()]);
    assert_eq!(preflight.risk, Risk::HighRiskWrite);
    assert!(preflight.confirmation_required);
    assert!(preflight.preserves_conversation_records);
    match reject_conversation_package_task_conflicts(&preflight) {
        Err(AppError::Conflict(message)) => assert_eq!(
            message,
            "conversation adapter package change conflicts with running tasks: conversation_sync"
        ),
        other => panic!("unexpected {other:?}"),
    }

    let quiet = package_change_preflight(Action::Revalidate, Origin::LocalDirectory, some("p"), None, None, &Vec::new(), false);
    assert_eq!(quiet.package_id.as_deref(), Some("p"));
    assert!(quiet.task_conflicts.is_empty());
    assert!(quiet.managed_paths.is_empty());
    assert!(!quiet.confirmation_required);
    assert!(reject_conversation_package_task_conflicts(&quiet).is_ok());
}

#[test]
fn distinct_texts_come_out_in_byte_order() {
    let texts: Vec<String> = ["b", "a", "ä", "B", "a", ""].iter().map(|t| t.to_string()).collect();
    assert_eq!(sorted_distinct_texts(&texts), vec!["", "B", "a", "b", "ä"]);
}

fn managed_package(version: &str) -> assetiweave::models::ConversationAdapterPackage {
    assetiweave::models::ConversationAdapterPackage {
        package_id: "p".to_string(),
        adapter_id: "codex".to_string(),
        name: "Codex".to_string(),
        version: version.to_string(),
        record_kind: assetiweave::models::ConversationAdapterPackageRecordKind::Session,
        install_dir: format!("/m/packages/p/versions/{version}"),
        manifest_path: format!("/m/packages/p/versions/{version}/conversation-adapter-package.json"),
        adapter_manifest_path: format!("/m/packages/p/versions/{version}/conversation-adapter.json"),
        runtime_protocol: "stdio-ndjson-v1".to_string(),
        runtime_ready: true,
        origin: Origin::ManagedRelease,
        source_url: None,
        git_ref: None,
        git_commit: None,
        catalog_url: None,
        update_policy: assetiweave::models::ConversationPackageUpdatePolicy::Manual,
        latest_version: None,
        last_checked_at: None,
        runtime_gate_status: assetiweave::models::ConversationAdapterRuntimeGateStatus::Ready,
        runtime_validated_at: None,
        installed_content_hash: Some(format!("hash-{version}")),
        trusted_package_hash: Some(format!("hash-{version}")),
        error_message: None,
        created_at: "2026-01-01T00:00:00Z".to_string(),
        updated_at: "2026-01-01T00:00:00Z".to_string(),
    }
}

fn installed(version: &str) -> assetiweave::models::ConversationAdapterPackageVersion {
    assetiweave::models::ConversationAdapterPackageVersion {
        package_id: "p".to_string(),
        version: version.to_string(),
        install_dir: format!("/m/packages/p/versions/{version}"),
        artifact_hash: None,
        content_hash: format!("hash-{version}"),
        runtime_gate_status: assetiweave::models::ConversationAdapterRuntimeGateStatus::Ready,
        installed_at: "2026-01-01T00:00:00Z".to_string(),
    }
}

fn error_text<T>(result: Result<T, AppError>) -> (bool, String) {
    match result {
        Err(AppError::Validation(message)) => (true, message),
        Err(AppError::Other(message)) => (false, message),
        Err(other) => panic!("unexpected {other:?}"),
        Ok(_) => panic!("expected an error"),
    }
}

#[test]
fn version_deletes_hand_the_package_to_a_remaining_version() {
    let active = managed_package("1.0.0");
    let versions = vec![installed("1.0.0"), installed("1.1.0")];
    let inactive = plan_package_version_delete(" p ", Some(" 1.1.0 "), Some(&active), true, &versions).unwrap();
    assert_eq!(inactive.version, "1.1.0");
    assert_eq!(inactive.target, 1);
    assert!(inactive.replacement.is_none());
    assert!(!inactive.delete_package_record);

    let handed = plan_package_version_delete("p", Some("1.0.0"), Some(&active), false, &versions).unwrap();
    let replacement = handed.replacement.unwrap();
    assert_eq!(replacement.version, "1.1.0");
    assert_eq!(replacement.install_dir, "/m/packages/p/versions/1.1.0");
    assert_eq!(replacement.manifest_path, "/m/packages/p/versions/1.1.0/conversation-adapter-package.json");
    assert!(!handed.delete_package_record);

    let last = plan_package_version_delete("p", Some("1.0.0"), Some(&active), false, &vec![installed("1.0.0")]).unwrap();
    assert!(last.replacement.is_none());
    assert!(last.delete_package_record);

    assert_eq!(
        error_text(plan_package_version_delete("p", Some("  "), Some(&active), false, &versions)),
        (false, "conversation adapter package version is required".to_string())
    );
    assert_eq!(
        error_text(plan_package_version_delete("p", Some("1.0.0"), None, false, &versions)),
        (false, "conversation adapter package not found: p".to_string())
    );
    let mut local = managed_package("1.0.0");
    local.origin = Origin::LocalDirectory;
    assert_eq!(
        error_text(plan_package_version_delete("p", Some("1.0.0"), Some(&local), false, &versions)),
        (true, "only managed package versions can be deleted".to_string())
    );
    assert_eq!(
        error_text(plan_package_version_delete("p", Some("1.0.0"), Some(&active), true, &versions)),
        (true, "active conversation adapter package version must be uninstalled or switched before deletion".to_string())
    );
    assert_eq!(
        error_text(plan_package_version_delete("p", Some("2.0.0"), Some(&active), false, &versions)),
        (false, "installed package version not found: p@2.0.0".to_string())
    );
}

#[test]
fn version_switches_need_confirmation_and_an_unchanged_version() {
    let active = managed_package("1.0.0");
    let versions = vec![installed("1.0.0"), installed("1.1.0")];
    assert_eq!(check_version_activation(false, true, "p", "1.1.0", Some(&active), &versions).unwrap(), 1);
    assert_eq!(check_version_activation(true, false, "p", "1.0.0", Some(&active), &versions).unwrap(), 0);
    assert_eq!(
        error_text(check_version_activation(false, false, "p", "1.1.0", Some(&active), &versions)),
        (true, "conversation adapter package version activation requires --yes".to_string())
    );
    assert_eq!(
        error_text(check_version_activation(true, true, "p", "1.1.0", None, &versions)),
        (false, "conversation adapter package not found: p".to_string())
    );
    assert_eq!(
        error_text(check_version_activation(true, true, "p", "3.0.0", Some(&active), &versions)),
        (false, "installed package version not found: p@3.0.0".to_string())
    );

    let validation = ConversationAdapterPackageValidationResult {
        manifest: ConversationAdapterPackageManifestSummary {
            package_id: "p".to_string(),
            name: "Codex".to_string(),
            version: "1.1.0".to_string(),
            record_kind: assetiweave::models::ConversationAdapterPackageRecordKind::Session,
            runtime_protocol: "stdio-ndjson-v1".to_string(),
        },
        adapter_validation: ExternalAdapterValidationResult {
            manifest: ExternalAdapterManifestSummary { id: "codex".to_string(), version: "1.1.0".to_string(), capabilities: Vec::new() },
            content_hash: "hash-1.1.0".to_string(),
        },
        content_hash: "hash-1.1.0".to_string(),
        manifest_path: "/m/packages/p/versions/1.1.0/conversation-adapter-package.json".to_string(),
        adapter_manifest_path: "/m/packages/p/versions/1.1.0/conversation-adapter.json".to_string(),
    };
    assert!(check_activation_validation("p", "1.1.0", "hash-1.1.0", &validation).is_ok());
    assert_eq!(
        error_text(check_activation_validation("p", "1.1.0", "other", &validation)),
        (true, "installed conversation adapter package version failed immutable validation".to_string())
    );
    let record = activated_package_record(&active, &versions[1], &validation);
    assert_eq!(record.version, "1.1.0");
    assert_eq!(record.install_dir, "/m/packages/p/versions/1.1.0");
    assert_eq!(record.trusted_package_hash.as_deref(), Some("hash-1.1.0"));
    assert_eq!(record.created_at, active.created_at);
    assert_eq!(record.runtime_validated_at.as_deref(), Some(record.updated_at.as_str()));
}

fn adapter(id: &str, trust_state: assetiweave::models::ConversationAdapterTrustState) -> assetiweave::models::ConversationAdapter {
    assetiweave::models::ConversationAdapter {
        id: id.to_string(),
        name: id.to_string(),
        version: "1.0.0".to_string(),
        enabled: true,
        manifest_path: None,
        trusted_hash: None,
        trust_state,
        capabilities: vec!["read_session".to_string()],
        card_contract_version: Some(1),
    }
}

fn sources() -> Vec<ConversationSource> {
    vec![
        ConversationSource { id: "s1".to_string(), adapter_id: "codex".to_string(), name: "s1".to_string(), enabled: true },
        ConversationSource { id: "s2".to_string(), adapter_id: "other".to_string(), name: "s2".to_string(), enabled: true },
        ConversationSource { id: "s3".to_string(), adapter_id: "codex".to_string(), name: "s3".to_string(), enabled: true },
    ]
}

#[test]
fn inspections_find_the_package_or_the_adapter() {
    assert!(matches!(inspection_lookup_key(&some("p"), &some("codex")), Ok(PackageLookupKey::ByPackage(id)) if id == "p"));
    assert!(matches!(inspection_lookup_key(&None, &some("codex")), Ok(PackageLookupKey::ByAdapter(id)) if id == "codex"));
    assert_eq!(
        error_text(inspection_lookup_key(&None, &None)),
        (true, "conversation adapter package inspection requires package_id or adapter_id".to_string())
    );

    let found = conversation_adapter_package_inspection(some("p"), None, Some(managed_package("1.0.0")), None, sources()).unwrap();
    assert_eq!(found.origin, Origin::ManagedRelease);
    let ids: Vec<&str> = found.affected_sources.iter().map(|s| s.id.as_str()).collect();
    assert_eq!(ids, vec!["s1", "s3"]);

    let builtin = conversation_adapter_package_inspection(
        None,
        some("codex"),
        None,
        Some(adapter("codex", assetiweave::models::ConversationAdapterTrustState::BuiltIn)),
        sources(),
    )
    .unwrap();
    assert_eq!(builtin.origin, Origin::BuiltIn);
    assert_eq!(builtin.affected_sources.len(), 2);
    let legacy = conversation_adapter_package_inspection(
        None,
        some("codex"),
        None,
        Some(adapter("codex", assetiweave::models::ConversationAdapterTrustState::Trusted)),
        Vec::new(),
    )
    .unwrap();
    assert_eq!(legacy.origin, Origin::LegacyExternal);
    match conversation_adapter_package_inspection(some("p"), some("codex"), None, None, sources()) {
        Err(AppError::NotFound(message)) => assert_eq!(message, "conversation adapter package not found: p"),
        other => panic!("unexpected {:?}", other.map(|_| ())),
    }
}

#[test]
fn local_registrations_need_a_local_origin_confirmation_and_a_git_ref() {
    assert!(check_local_registration_request(Origin::LocalDirectory, false, true, None).is_ok());
    assert!(check_local_registration_request(Origin::DevOverride, true, false, None).is_ok());
    assert_eq!(
        error_text(check_local_registration_request(Origin::ManagedRelease, true, true, None)),
        (true, "local conversation adapter registration requires local_directory, git_ref, or dev_override origin".to_string())
    );
    assert_eq!(
        error_text(check_local_registration_request(Origin::LocalDirectory, false, false, None)),
        (true, "conversation adapter local registration requires confirmation".to_string())
    );
    assert_eq!(
        error_text(check_local_registration_request(Origin::GitRef, true, true, Some("  "))),
        (true, "git_ref conversation adapter registration requires git_ref".to_string())
    );
    assert!(check_local_registration_request(Origin::GitRef, true, true, Some("main")).is_ok());
    assert!(check_local_registration_target(None).is_ok());
    let mut local = managed_package("1.0.0");
    local.origin = Origin::LocalDirectory;
    assert!(check_local_registration_target(Some(&local)).is_ok());
    assert_eq!(
        error_text(check_local_registration_target(Some(&managed_package("1.0.0")))),
        (true, "managed conversation adapter package is already installed: p".to_string())
    );
}

#[test]
fn local_records_are_pinned_and_overrides_are_not_trusted() {
    let validation = ConversationAdapterPackageValidationResult {
        manifest: ConversationAdapterPackageManifestSummary {
            package_id: "p".to_string(),
            name: "Codex".to_string(),
            version: "1.1.0".to_string(),
            record_kind: assetiweave::models::ConversationAdapterPackageRecordKind::Session,
            runtime_protocol: "stdio-ndjson-v1".to_string(),
        },
        adapter_validation: ExternalAdapterValidationResult {
            manifest: ExternalAdapterManifestSummary { id: "codex".to_string(), version: "1.1.0".to_string(), capabilities: Vec::new() },
            content_hash: "h".to_string(),
        },
        content_hash: "h".to_string(),
        manifest_path: "/w/conversation-adapter-package.json".to_string(),
        adapter_manifest_path: "/w/conversation-adapter.json".to_string(),
    };
    let git = local_package_record(&validation, "codex", "/w", Origin::GitRef, Some(" https://g "), Some(" main "), Some("  "));
    assert_eq!(git.source_url.as_deref(), Some("https://g"));
    assert_eq!(git.git_ref.as_deref(), Some("main"));
    assert_eq!(git.git_commit, None);
    assert_eq!(git.trusted_package_hash.as_deref(), Some("h"));
    assert_eq!(git.update_policy, assetiweave::models::ConversationPackageUpdatePolicy::PinExact);
    assert_eq!(git.install_dir, "/w");
    let dev = local_package_record(&validation, "codex", "/w", Origin::DevOverride, None, None, None);
    assert_eq!(dev.trusted_package_hash, None);
    assert_eq!(dev.installed_content_hash.as_deref(), Some("h"));
}

#[test]
fn unregister_and_uninstall_requests_are_checked_in_order() {
    let quiet = package_change_preflight(Action::Unregister, Origin::LocalDirectory, None, some("codex"), None, &Vec::new(), false);
    let busy = package_change_preflight(Action::Unregister, Origin::LocalDirectory, None, some("codex"), None, &Vec::new(), true);
    let trusted = adapter("codex", assetiweave::models::ConversationAdapterTrustState::Trusted);
    let builtin = adapter("codex", assetiweave::models::ConversationAdapterTrustState::BuiltIn);
    match plan_adapter_unregister(&busy, false, true, "codex", Some(&trusted)) {
        Err(AppError::Conflict(message)) => {
            assert_eq!(message, "conversation adapter unregister conflicts with running tasks: conversation_sync")
        }
        other => panic!("unexpected {other:?}"),
    }
    assert_eq!(
        error_text(plan_adapter_unregister(&quiet, false, false, "codex", Some(&trusted))),
        (true, "conversation.adapter.unregister requires --yes".to_string())
    );
    match plan_adapter_unregister(&quiet, false, true, "codex", None) {
        Err(AppError::NotFound(message)) => assert_eq!(message, "conversation adapter not found: codex"),
        other => panic!("unexpected {other:?}"),
    }
    assert_eq!(plan_adapter_unregister(&quiet, true, false, "codex", Some(&trusted)).unwrap(), AdapterUnregisterStep::Preview);
    assert_eq!(plan_adapter_unregister(&quiet, false, true, "codex", Some(&builtin)).unwrap(), AdapterUnregisterStep::DisableBuiltIn);
    assert_eq!(plan_adapter_unregister(&quiet, false, true, "codex", Some(&trusted)).unwrap(), AdapterUnregisterStep::DeleteRegistration);

    let package = managed_package("1.0.0");
    assert_eq!(
        error_text(check_package_uninstall(false, false, "p", Some(&package))),
        (true, "conversation adapter package uninstall requires --yes".to_string())
    );
    assert_eq!(
        error_text(check_package_uninstall(true, false, "  ", Some(&package))),
        (true, "conversation adapter package id is required".to_string())
    );
    assert_eq!(
        error_text(check_package_uninstall(false, true, " p ", None)),
        (false, "conversation adapter package not found: p".to_string())
    );
    assert_eq!(check_package_uninstall(false, true, " p ", Some(&package)).unwrap(), "p");
}

fn package_validation(package_id: &str, version: &str, adapter_id: &str, hash: &str) -> ConversationAdapterPackageValidationResult {
    ConversationAdapterPackageValidationResult {
        manifest: ConversationAdapterPackageManifestSummary {
            package_id: package_id.to_string(),
            name: "Codex".to_string(),
            version: version.to_string(),
            record_kind: assetiweave::models::ConversationAdapterPackageRecordKind::Session,
            runtime_protocol: "stdio-ndjson-v1".to_string(),
        },
        adapter_validation: ExternalAdapterValidationResult {
            manifest: ExternalAdapterManifestSummary { id: adapter_id.to_string(), version: version.to_string(), capabilities: Vec::new() },
            content_hash: hash.to_string(),
        },
        content_hash: hash.to_string(),
        manifest_path: "/m/conversation-adapter-package.json".to_string(),
        adapter_manifest_path: "/m/conversation-adapter.json".to_string(),
    }
}

#[test]
fn runtime_gates_hold_packages_to_their_registration_and_hash() {
    let package = managed_package("1.0.0");
    let codex = adapter("codex", Trust::Trusted);
    assert_eq!(
        evaluate_package_runtime(&package, Some(&codex), Ok(package_validation("p", "1.0.0", "codex", "hash-1.0.0"))),
        Ok("hash-1.0.0".to_string())
    );
    assert_eq!(
        evaluate_package_runtime(&package, Some(&codex), Ok(package_validation("q", "1.0.0", "codex", "hash-1.0.0"))),
        Err("conversation adapter package manifest id q does not match registered package p".to_string())
    );
    assert_eq!(
        evaluate_package_runtime(&package, Some(&codex), Ok(package_validation("p", "2.0.0", "codex", "hash-1.0.0"))),
        Err("conversation adapter package manifest version 2.0.0 does not match active version 1.0.0".to_string())
    );
    assert_eq!(
        evaluate_package_runtime(&package, None, Ok(package_validation("p", "1.0.0", "codex", "hash-1.0.0"))),
        Err("conversation adapter runtime is not registered: codex".to_string())
    );
    assert_eq!(
        evaluate_package_runtime(&package, Some(&codex), Ok(package_validation("p", "1.0.0", "other", "hash-1.0.0"))),
        Err("conversation adapter package p manifest adapter id other does not match registered adapter codex".to_string())
    );
    assert_eq!(
        evaluate_package_runtime(&package, Some(&codex), Ok(package_validation("p", "1.0.0", "codex", "changed"))),
        Err("conversation adapter package content hash mismatch: p".to_string())
    );
    let mut untrusted = managed_package("1.0.0");
    untrusted.trusted_package_hash = None;
    untrusted.installed_content_hash = None;
    assert_eq!(
        evaluate_package_runtime(&untrusted, Some(&codex), Ok(package_validation("p", "1.0.0", "codex", "x"))),
        Err("conversation adapter package has no trusted hash: p".to_string())
    );
    untrusted.origin = Origin::DevOverride;
    assert_eq!(
        evaluate_package_runtime(&untrusted, Some(&codex), Ok(package_validation("p", "1.0.0", "codex", "x"))),
        Ok("x".to_string())
    );
    assert_eq!(
        evaluate_package_runtime(&package, Some(&codex), Err("conversation adapter package root is not a directory".to_string())),
        Err("conversation adapter package root is not a directory".to_string())
    );

    let mut recorded = managed_package("1.0.0");
    record_package_runtime(&mut recorded, "/m", Err("conversation adapter package content hash mismatch: p".to_string()));
    assert!(!recorded.runtime_ready);
    assert_eq!(recorded.runtime_gate_status, Gate::HashMismatch);
    assert_eq!(recorded.error_message.as_deref(), Some("conversation adapter package content hash mismatch: p"));
    record_package_runtime(&mut recorded, "/m", Err("conversation adapter runtime is not registered: codex".to_string()));
    assert_eq!(recorded.runtime_gate_status, Gate::RuntimeMissing);
    record_package_runtime(&mut recorded, "/m", Ok("fresh".to_string()));
    assert!(recorded.runtime_ready);
    assert_eq!(recorded.runtime_gate_status, Gate::Ready);
    assert_eq!(recorded.installed_content_hash.as_deref(), Some("fresh"));
    assert_eq!(recorded.error_message, None);
    assert_eq!(recorded.runtime_validated_at.as_deref(), Some(recorded.updated_at.as_str()));
}
