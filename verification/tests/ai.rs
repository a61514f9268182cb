use gitbuddy::ai::{format_commit_subject_diagnostic, preview};
use gitbuddy::prompt::Prompt;

#[test]
fn commit_subject_diagnostic_includes_llm_request_and_response_context() {
    let content = format_commit_subject_diagnostic(
        "LLM did not return a valid conventional commit subject.",
        "Here is my analysis instead.",
        Some(r#"{"subject":"fix(ai): repair malformed response"}"#),
        Some(r#"Return only JSON in this exact shape: {"subject":"<type>(<scope>): <subject>"}"#),
        "diff content: \ndiff --git a/src/main.rs b/src/main.rs",
        Prompt::P1,
        "deepseek-chat",
    );

    assert!(content.contains("LLM did not return a valid conventional commit subject."));
    assert!(content.contains("Model: deepseek-chat"));
    assert!(content.contains("Prompt preset: p1"));
    assert!(content.contains("Original LLM response:"));
    assert!(content.contains("Here is my analysis instead."));
    assert!(content.contains("Repair LLM response:"));
    assert!(content.contains(r#"{"subject":"fix(ai): repair malformed response"}"#));
    assert!(content.contains("Repair prompt:"));
    assert!(content.contains("Return only JSON in this exact shape"));
    assert!(content.contains("Original LLM request:"));
    assert!(content.contains("System prompt:"));
    assert!(content.contains("User prompt:"));
    assert!(content.contains("diff --git a/src/main.rs b/src/main.rs"));
}

#[test]
fn diagnostic_preview_truncates_large_values() {
    let value = "a".repeat(50_001);

    let preview = preview(&value);

    let (body, notice) = preview.split_once('\n').unwrap();
    assert_eq!(body.len(), 50_000);
    assert!(body.chars().all(|ch| ch == 'a'));
    assert_eq!(notice, "[truncated after 50000 chars]");
    assert!(preview.ends_with("[truncated after 50000 chars]"));
}
