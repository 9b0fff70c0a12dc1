use assetiweave::error::AppError;
use assetiweave::global_memory::{
    check_global_memory_output_length, global_memory_failure_code, global_memory_next_action,
    global_memory_prompt, GlobalMemoryAction as A, GlobalMemoryEvent as E,
};
use assetiweave::memory_context::memory_context_token_budget;
use assetiweave::generation_skill::{
    check_skill_asset, check_skill_entry_size, check_skill_source, validate_skill_frontmatter, MAX_SKILL_FILE_SIZE_BYTES,
};

fn validation(result: Result<(), AppError>) -> String {
    match result {
        Err(AppError::Validation(message)) => message,
        other => panic!("unexpected {other:?}"),
    }
}

#[test]
fn skills_need_a_named_and_described_frontmatter() {
    assert!(validate_skill_frontmatter("---\nname: memory\ndescription: builds memory\n---\nbody").is_ok());
    assert_eq!(
        validation(validate_skill_frontmatter("name: memory\n")),
        "MEMORY_SKILL_INVALID_FRONTMATTER: missing opening frontmatter delimiter"
    );
    assert_eq!(
        validation(validate_skill_frontmatter("---\nname: memory\ndescription: x\n")),
        "MEMORY_SKILL_INVALID_FRONTMATTER: missing closing frontmatter delimiter"
    );
    assert_eq!(
        validation(validate_skill_frontmatter("---\nname: memory\n---\ndescription: after the block\n")),
        "MEMORY_SKILL_INVALID_FRONTMATTER: frontmatter must contain name and description"
    );
    assert!(validate_skill_frontmatter("---\n---").is_err());
    assert!(validate_skill_frontmatter("---name:description:\n---").is_ok());
}

#[test]
fn skills_must_be_enabled_skills_within_the_size_budget() {
    assert!(check_skill_asset("a1", true, true).is_ok());
    match check_skill_asset("a1", false, true) {
        Err(AppError::NotFound(message)) => assert_eq!(message, "MEMORY_SKILL_NOT_FOUND: asset not found: a1"),
        other => panic!("unexpected {other:?}"),
    }
    assert_eq!(validation(check_skill_asset("a1", true, false)), "MEMORY_SKILL_WRONG_TYPE: asset a1 is not a skill");
    assert!(check_skill_source("s1", true, true).is_ok());
    match check_skill_source("s1", false, true) {
        Err(AppError::NotFound(message)) => assert_eq!(message, "source not found for asset: s1"),
        other => panic!("unexpected {other:?}"),
    }
    assert_eq!(
        validation(check_skill_source("s1", true, false)),
        "MEMORY_SKILL_UNTRUSTED: source s1 is disabled or untrusted"
    );
    assert!(check_skill_entry_size(MAX_SKILL_FILE_SIZE_BYTES).is_ok());
    assert_eq!(
        validation(check_skill_entry_size(MAX_SKILL_FILE_SIZE_BYTES + 1)),
        "MEMORY_SKILL_TOO_LARGE: SKILL.md size 131073 exceeds budget 131072"
    );
}

#[test]
fn global_memory_runs_step_through_claim_agent_and_persist() {
    assert_eq!(global_memory_next_action(&E::JobLoaded { found: false, finished: false }, false), A::ReportNotFound);
    assert_eq!(global_memory_next_action(&E::JobLoaded { found: true, finished: true }, true), A::Skip);
    assert_eq!(global_memory_next_action(&E::JobLoaded { found: true, finished: false }, true), A::CancelAndReport);
    assert_eq!(global_memory_next_action(&E::JobLoaded { found: true, finished: false }, false), A::Claim);
    assert_eq!(global_memory_next_action(&E::Claimed { claimed: false }, false), A::Skip);
    assert_eq!(global_memory_next_action(&E::Claimed { claimed: true }, true), A::LoadInputs);
    assert_eq!(global_memory_next_action(&E::InputsLoaded { project_count: 0 }, false), A::CancelQuietly);
    assert_eq!(global_memory_next_action(&E::InputsLoaded { project_count: 2 }, false), A::RunAgent);
    assert_eq!(global_memory_next_action(&E::AgentReturned { succeeded: false }, false), A::FailAgent);
    assert_eq!(global_memory_next_action(&E::AgentReturned { succeeded: true }, true), A::CancelAndReport);
    assert_eq!(global_memory_next_action(&E::AgentReturned { succeeded: true }, false), A::WriteAndPersist);
    assert_eq!(global_memory_next_action(&E::Persisted { succeeded: false }, false), A::FailPersist);
    assert_eq!(global_memory_next_action(&E::Persisted { succeeded: false }, true), A::CancelAndReport);
    assert_eq!(global_memory_next_action(&E::Persisted { succeeded: true }, true), A::Publish);
    assert_eq!(global_memory_failure_code(A::FailAgent), Some("global_memory_agent_failed"));
    assert_eq!(global_memory_failure_code(A::FailPersist), Some("global_memory_persist_failed"));
    assert_eq!(global_memory_failure_code(A::Publish), None);
    let prompt = global_memory_prompt("{\"projects\":[]}");
    assert!(prompt.starts_with("Build the light cross-project Global Memory"));
    assert!(prompt.ends_with("\nBEGIN_GLOBAL_MEMORY_JSON\n{\"projects\":[]}\nEND_GLOBAL_MEMORY_JSON"));
    assert!(check_global_memory_output_length(&"é".repeat(100_000)).is_ok());
    match check_global_memory_output_length(&"x".repeat(100_001)) {
        Err(AppError::Validation(message)) => assert_eq!(message, "Global Memory Agent output is too large"),
        other => panic!("unexpected {other:?}"),
    }
}

#[test]
fn context_budgets_default_to_two_thousand_tokens_within_bounds() {
    assert_eq!(memory_context_token_budget(None), 2000);
    assert_eq!(memory_context_token_budget(Some(1)), 64);
    assert_eq!(memory_context_token_budget(Some(5000)), 5000);
    assert_eq!(memory_context_token_budget(Some(1_000_000)), 32000);
}
