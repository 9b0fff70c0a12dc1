use assetiweave::error::AppError;
use assetiweave::export_markdown::export_conversation_rendered_markdown;
use assetiweave::models::ConversationRecordKind;
use assetiweave::records::{
    check_part_translation_update, conversation_record_kind_from_locator, default_export_relative_path, export_format_label,
    export_question_title, humanize_card_kind, normalize_conversation_record_kind,
    relative_path_text, sanitize_path_segment, validate_export_question_ids,
    validate_export_relative_path, ConversationCardRenderer, ConversationContentNode,
    ConversationExportFormat, ConversationQuestion, ConversationQuestionDetail,
    ConversationSession, ConversationSessionDetail, ConversationTurn,
};

fn node(kind: &str, renderer: ConversationCardRenderer, content: &str, visible: bool) -> ConversationContentNode {
    ConversationContentNode {
        node_type: kind.to_string(),
        renderer,
        content: content.to_string(),
        language: None,
        visible,
    }
}

fn question(id: &str, title: Option<&str>, turns: &[&str], nodes: Vec<ConversationContentNode>) -> ConversationQuestionDetail {
    ConversationQuestionDetail {
        question: ConversationQuestion {
            id: id.to_string(),
            session_id: "conversation-session-1234567890".to_string(),
            title: title.map(str::to_string),
        },
        turns: turns
            .iter()
            .map(|text| ConversationTurn { user_text: text.to_string() })
            .collect(),
        projected_content_nodes: nodes,
    }
}

fn detail(project_path: Option<&str>, questions: Vec<ConversationQuestionDetail>) -> ConversationSessionDetail {
    ConversationSessionDetail {
        session: ConversationSession {
            id: "conversation-session-1234567890".to_string(),
            title: "My Session".to_string(),
            adapter_id: "codex".to_string(),
            source_id: "source-1".to_string(),
            project_path: project_path.map(str::to_string),
        },
        questions,
    }
}

#[test]
fn path_segments_keep_letters_digits_underscores_and_dots() {
    assert_eq!(sanitize_path_segment("  Hello, World! "), "Hello-World");
    assert_eq!(sanitize_path_segment("a/b\\c"), "a-b-c");
    assert_eq!(sanitize_path_segment("..."), "untitled");
    assert_eq!(sanitize_path_segment(""), "untitled");
    assert_eq!(sanitize_path_segment("日本語 テスト"), "日本語-テスト");
    assert_eq!(sanitize_path_segment("-.v1.2_x.-"), "v1.2_x");
    assert_eq!(sanitize_path_segment(&"x".repeat(200)), "x".repeat(96));
}

#[test]
fn default_export_path_names_adapter_project_title_and_id() {
    let d = detail(Some("/home/u/proj"), Vec::new());
    assert_eq!(
        default_export_relative_path(&d, &[], "unknown", ConversationExportFormat::Rendered),
        "codex/proj/My-Session-34567890.md"
    );
    let ids = vec!["q1".to_string(), "q2".to_string()];
    assert_eq!(
        default_export_relative_path(&d, &ids, "unknown", ConversationExportFormat::Raw),
        "codex/proj/My-Session-selected-2-34567890.json"
    );
    let no_project = detail(None, Vec::new());
    assert_eq!(
        default_export_relative_path(&no_project, &[], "unknown project", ConversationExportFormat::Rendered),
        "codex/unknown-project/My-Session-34567890.md"
    );
}

#[test]
fn export_relative_paths_must_be_plain_relative_names() {
    assert_eq!(validate_export_relative_path("  notes/out.md ").unwrap(), "notes/out.md");
    assert_eq!(validate_export_relative_path("a//b/").unwrap(), "a/b");
    assert_eq!(validate_export_relative_path("a/./b").unwrap(), "a/b");
    for refused in ["", "   ", "/abs/out.md", "a/../b", "./a", ".."] {
        assert!(matches!(
            validate_export_relative_path(refused),
            Err(AppError::Validation(_))
        ));
    }
    match validate_export_relative_path("/abs") {
        Err(AppError::Validation(message)) => {
            assert_eq!(message, "markdown_export relative_path must be relative")
        }
        other => panic!("unexpected {other:?}"),
    }
    assert_eq!(relative_path_text("/a/./b/../c"), "a/b/c");
}

#[test]
fn card_kinds_and_question_titles_read_naturally() {
    assert_eq!(humanize_card_kind("assistant.tool-call_result"), "tool call result");
    assert_eq!(humanize_card_kind("plain"), "plain");
    assert_eq!(humanize_card_kind("a."), "");
    assert_eq!(
        export_question_title(&question("q", Some("  "), &["", "  Hello there  "], Vec::new())),
        "Hello there"
    );
    assert_eq!(export_question_title(&question("q", Some("Title"), &["x"], Vec::new())), "Title");
    assert_eq!(export_question_title(&question("q", None, &[], Vec::new())), "Question");
    let long = "a".repeat(100);
    assert_eq!(export_question_title(&question("q", None, &[&long], Vec::new())), "a".repeat(96));
}

#[test]
fn requested_questions_must_belong_to_the_session() {
    let d = detail(None, vec![question("q1", None, &[], Vec::new())]);
    assert!(validate_export_question_ids(&d, &[]).is_ok());
    assert!(validate_export_question_ids(&d, &["q1".to_string()]).is_ok());
    match validate_export_question_ids(&d, &["q1".to_string(), "zz".to_string(), "yy".to_string()]) {
        Err(AppError::NotFound(message)) => {
            assert_eq!(message, "conversation question not found in session: zz")
        }
        other => panic!("unexpected {other:?}"),
    }
}

#[test]
fn record_kinds_are_named_and_read_from_locators() {
    assert!(matches!(
        normalize_conversation_record_kind(None),
        Ok((ref label, ConversationRecordKind::Session)) if label == "session"
    ));
    assert!(matches!(
        normalize_conversation_record_kind(Some(" web_records ")),
        Ok((ref label, ConversationRecordKind::Web)) if label == "web"
    ));
    assert!(matches!(
        normalize_conversation_record_kind(Some("Web")),
        Err(AppError::Validation(_))
    ));
    assert!(matches!(
        conversation_record_kind_from_locator(" web-record-turn-9 "),
        Ok(ConversationRecordKind::Web)
    ));
    assert!(matches!(
        conversation_record_kind_from_locator("conversation-part-1"),
        Ok(ConversationRecordKind::Session)
    ));
    assert!(matches!(
        conversation_record_kind_from_locator("session-1"),
        Err(AppError::Validation(_))
    ));
    assert_eq!(export_format_label(ConversationExportFormat::Raw), "raw");
    assert_eq!(export_format_label(ConversationExportFormat::Rendered), "rendered");
}

#[test]
fn rendered_markdown_lists_selected_questions_with_visible_cards() {
    let mut code = node("assistant.code", ConversationCardRenderer::Code, "fn main() {}  \n", true);
    code.language = Some("rust".to_string());
    let d = ConversationSessionDetail {
        session: ConversationSession {
            id: "s".to_string(),
            title: "  Demo  ".to_string(),
            adapter_id: "codex".to_string(),
            source_id: "src".to_string(),
            project_path: None,
        },
        questions: vec![
            question(
                "q1",
                None,
                &["  ask one ", "  "],
                vec![
                    node("assistant.markdown", ConversationCardRenderer::Markdown, " Answer body \n", true),
                    node("tool.run-command", ConversationCardRenderer::Command, "ls -la\n\n", true),
                    node("tool.hidden", ConversationCardRenderer::Plain, "secret", false),
                    code,
                ],
            ),
            question("q2", Some("Second"), &["x", "y "], Vec::new()),
        ],
    };
    assert_eq!(
        export_conversation_rendered_markdown(&d, &[]),
        "# Demo\n\n## 1. ask one\n\nask one\n\n### markdown\n\nAnswer body\n\n### run command\n\n```sh\nls -la\n```\n\n### code\n\n```rust\nfn main() {}\n```\n\n## 2. Second\n\nx\n\ny\n"
    );
    assert_eq!(
        export_conversation_rendered_markdown(&d, &["q2".to_string()]),
        "# Demo\n\n## 2. Second\n\nx\n\ny\n"
    );
}

#[test]
fn part_translation_update_checks() {
    match check_part_translation_update("  ", "text", None) {
        Err(AppError::Validation(m)) => assert_eq!(m, "conversation part id is required"),
        _ => panic!("expected a blank id to be refused"),
    }
    let big = "é".repeat(100_001);
    match check_part_translation_update("part-1", &big, None) {
        Err(AppError::Validation(m)) => assert_eq!(m, "conversation part translation is too large"),
        _ => panic!("expected a too large translation to be refused"),
    }
    let fits = "a".repeat(200_000);
    assert!(matches!(check_part_translation_update("part-1", &fits, None), Ok(ConversationRecordKind::Session)));
    assert!(matches!(
        check_part_translation_update("part-1", "hola", Some(" web_record ")),
        Ok(ConversationRecordKind::Web)
    ));
    match check_part_translation_update("part-1", "hola", Some("cards")) {
        Err(AppError::Validation(m)) => assert_eq!(m, "unsupported conversation record kind: cards"),
        _ => panic!("expected an unknown record kind to be refused"),
    }
}
