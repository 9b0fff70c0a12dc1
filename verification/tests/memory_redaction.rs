use assetiweave::global_memory::{check_global_memory_output_length, clean_global_markdown, global_memory_prompt};
use assetiweave::memory_redaction::redact_memory_text;

#[test]
fn baseline_redaction_precision_gap_identifies_git_sha_over_redaction() {
    let git_sha = "bc5c14e1234567890abcdef1234567890abcdef1";
    let result = redact_memory_text(git_sha);
    assert!(
        result.text.contains("[REDACTED:high_entropy]"),
        "Baseline confirms that current high_entropy regex over-redacts 40-char git commit SHA"
    );
}

#[test]
fn redaction_keeps_ordinary_text() {
    let text = "Use the conversation_adapter_package_catalog module; see docs/v2 and 1234.";
    assert_eq!(redact_memory_text(text).text, text);
    let letters_only = "abcdefghijklmnopqrstuvwxyzabcdefghijklmn";
    assert_eq!(redact_memory_text(letters_only).text, letters_only);
    let short = "a1b2c3d4e5f6a7b8c9d0e1f2a3b4c5d";
    assert_eq!(short.len(), 31);
    assert_eq!(redact_memory_text(short).text, short);
}

#[test]
fn redaction_replaces_each_secret_run() {
    let text = "token=sk0123456789abcdefABCDEF0123456789xyz; next: 0123456789abcdef0123456789abcdef!";
    assert_eq!(
        redact_memory_text(text).text,
        "token=[REDACTED:high_entropy]; next: [REDACTED:high_entropy]!"
    );
}

#[test]
fn global_memory_text_is_redacted_before_it_is_kept_or_sent() {
    let sha = "bc5c14e1234567890abcdef1234567890abcdef1";
    assert_eq!(clean_global_markdown(&format!("  commit {sha}  ")).unwrap(), "commit [REDACTED:high_entropy]");
    let prompt = global_memory_prompt(&format!("{{\"memory_markdown\":\"{sha}\"}}"));
    assert!(prompt.contains("{\"memory_markdown\":\"[REDACTED:high_entropy]\"}"));
    assert!(!prompt.contains(sha));
    assert_eq!(
        check_global_memory_output_length(&format!("{{\"summary_markdown\":\"{sha}\"}}")).ok().unwrap(),
        "{\"summary_markdown\":\"[REDACTED:high_entropy]\"}"
    );
}

#[test]
fn redacting_twice_changes_nothing_more() {
    let text = "key 0123456789abcdef0123456789abcdefXYZ and [REDACTED:high_entropy] again";
    let once = redact_memory_text(text).text;
    assert_eq!(redact_memory_text(&once).text, once);
    let cleaned = clean_global_markdown(&format!("  {text}  ")).unwrap();
    assert_eq!(clean_global_markdown(&cleaned).unwrap(), cleaned);
}
