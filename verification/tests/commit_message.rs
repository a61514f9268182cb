use gitbuddy::commit_message::{extract_commit_subject, extract_commit_subject_from_json_or_text};

#[test]
fn extracts_clean_subject() {
    let raw = "fix(api): handle empty response";

    let subject = extract_commit_subject(raw).unwrap();

    assert_eq!(subject, "fix(api): handle empty response");
}

#[test]
fn extracts_final_subject_from_analysis_output() {
    let raw = r#"Let me analyze the code changes:

1. AGENTS.md changes:
   - Replaced "Temporal" with "River" throughout the documentation

Let me craft a good message:

refactor(workflow): migrate from Temporal to River for PostgreSQL-based execution"#;

    let subject = extract_commit_subject(raw).unwrap();

    assert_eq!(
        subject,
        "refactor(workflow): migrate from Temporal to River for PostgreSQL-based execution"
    );
}

#[test]
fn extracts_subject_after_thinking_block() {
    let raw = r#"<think>
I should compare possible commit messages.
</think>

docs(readme): clarify installation steps"#;

    let subject = extract_commit_subject(raw).unwrap();

    assert_eq!(subject, "docs(readme): clarify installation steps");
}

#[test]
fn ignores_subject_inside_thinking_block() {
    let raw = r#"<think>
fix(api): use the first idea from private reasoning
</think>"#;

    let err = extract_commit_subject(raw).unwrap_err();

    assert_eq!(
        err.to_string(),
        "LLM did not return a valid conventional commit subject."
    );
}

#[test]
fn extracts_subject_from_markdown_code_block() {
    let raw = r#"```text
build(dev): add telepresence targets for local service interception
```"#;

    let subject = extract_commit_subject(raw).unwrap();

    assert_eq!(
        subject,
        "build(dev): add telepresence targets for local service interception"
    );
}

#[test]
fn returns_last_valid_subject() {
    let raw = r#"docs(agents): document River-based workflow execution

refactor(workflow): migrate from Temporal to River for PostgreSQL-based execution"#;

    let subject = extract_commit_subject(raw).unwrap();

    assert_eq!(
        subject,
        "refactor(workflow): migrate from Temporal to River for PostgreSQL-based execution"
    );
}

#[test]
fn rejects_unknown_type() {
    let err = extract_commit_subject("release: bump version").unwrap_err();

    assert_eq!(
        err.to_string(),
        "LLM did not return a valid conventional commit subject."
    );
}

#[test]
fn rejects_output_without_valid_subject() {
    let err = extract_commit_subject("Let me analyze the diff first.").unwrap_err();

    assert_eq!(
        err.to_string(),
        "LLM did not return a valid conventional commit subject."
    );
}

#[test]
fn accepts_breaking_change_markers() {
    let raw = r#"feat!: remove legacy config format
feat(api)!: require explicit base_url"#;

    let subject = extract_commit_subject(raw).unwrap();

    assert_eq!(subject, "feat(api)!: require explicit base_url");
}

#[test]
fn extracts_subject_embedded_in_analysis_sentence() {
    let raw = r#"We are asked to generate a conventional commit subject line. The type is likely "refactor" since it's cleaning up the UI. I'll go with "refactor(theme): remove box shadows from card containers and delete unused shadow tokens" or something like that."#;

    let subject = extract_commit_subject(raw).unwrap();

    assert_eq!(
        subject,
        "refactor(theme): remove box shadows from card containers and delete unused shadow tokens"
    );
}

#[test]
fn strict_match_takes_precedence_over_embedded_candidate() {
    let raw = r#"Embedded "refactor(theme): remove shadows" here.

refactor(ui): strip box shadows across widgets"#;

    let subject = extract_commit_subject(raw).unwrap();

    assert_eq!(subject, "refactor(ui): strip box shadows across widgets");
}

#[test]
fn extracts_last_embedded_candidate() {
    let raw = r#"Option A is "fix(api): handle empty response" and option B is "feat(ui): add loading spinner"."#;

    let subject = extract_commit_subject(raw).unwrap();

    assert_eq!(subject, "feat(ui): add loading spinner");
}

#[test]
fn ignores_candidates_inside_thinking_block_in_relaxed_mode() {
    let raw = r#"<think>
Maybe "fix(api): patch auth" would work.
</think>

No final answer here, only thoughts."#;

    let err = extract_commit_subject(raw).unwrap_err();

    assert_eq!(
        err.to_string(),
        "LLM did not return a valid conventional commit subject."
    );
}

#[test]
fn extracts_subject_from_json_response() {
    let raw = r#"{"subject":"fix(ai): handle invalid json response"}"#;

    let subject = extract_commit_subject_from_json_or_text(raw).unwrap();

    assert_eq!(subject, "fix(ai): handle invalid json response");
}

#[test]
fn extracts_subject_from_json_code_block() {
    let raw = r#"```json
{"subject":"feat(ai): request structured commit responses"}
```"#;

    let subject = extract_commit_subject_from_json_or_text(raw).unwrap();

    assert_eq!(subject, "feat(ai): request structured commit responses");
}

#[test]
fn rejects_json_subject_that_is_not_conventional() {
    let err = extract_commit_subject_from_json_or_text(r#"{"subject":"update response handling"}"#).unwrap_err();

    assert_eq!(
        err.to_string(),
        "LLM did not return a valid conventional commit subject."
    );
}

#[test]
fn falls_back_to_text_subject_when_json_parse_fails() {
    let subject = extract_commit_subject_from_json_or_text("fix(ai): keep text fallback").unwrap();

    assert_eq!(subject, "fix(ai): keep text fallback");
}

#[test]
fn thinking_block_does_not_change_the_subject() {
    let a = "Looking at the diff.\nfeat(api): add endpoint";
    let b = "fix: wrong guess\nchore: another";
    let c = "That is all.";
    let with_block = format!("{a}\n<think>\n{b}\n</think>\n{c}");
    let without = format!("{a}\n{c}");
    assert_eq!(extract_commit_subject(&with_block).unwrap(), "feat(api): add endpoint");
    assert_eq!(extract_commit_subject(&without).unwrap(), "feat(api): add endpoint");
    let only_block = format!("intro\n<think>\nfix: hidden\n</think>\noutro");
    assert!(extract_commit_subject(&only_block).is_err());
    assert!(extract_commit_subject("intro\noutro").is_err());
}

#[test]
fn extracted_subjects_start_with_a_type() {
    for raw in ["I think feat(ui)!: add dark mode.", "fix(a: b): x", "docs: readme"] {
        let s = extract_commit_subject(raw).unwrap();
        let t = ["feat", "fix", "docs"].into_iter().find(|t| s.starts_with(t)).unwrap();
        assert!(matches!(s[t.len()..].chars().next(), Some('(') | Some('!') | Some(':')));
    }
}
