use gitbuddy::ai::{
    classify_answer, commit_box_inner_width, compose_diff_context, diagnostic_file_name,
    diagnostic_outcome_message, format_commit_subject_diagnostic_at, is_affirmative, join_names,
    plan_prompt, push_answer_accepts, repair_failure_cause, resolve_display_model, smart_truncate_diff,
    stat_summary, stats_prompt, AnswerOutcome, PromptPlan,
};
use gitbuddy::commit_message::{
    clean_json_response_text, extract_commit_subject, extract_commit_subject_from_json_or_text,
    is_conventional_commit_subject, select_commit_subject, validate_commit_subject, SubjectError,
};
use gitbuddy::config::{configure_vendor, default_base_url, GlobalConfig, ModelConfig};
use gitbuddy::git::{
    command_line, commit_args, exclude_pathspec, git_failure_message, ignore_filenames, parse_name_list, push_args,
    shell_word,
};
use gitbuddy::llm::{
    anthropic_error_message, anthropic_result, integer_limits, openai_error_message, openai_result, resolve_request,
    AnthropicBaseResp, AnthropicCompatible, ApiErrorDetail, ContentBlock, LlmError, OpenAICompatibleBuilder,
    PromptModel, Protocol, StreamChunk, StreamCollector, StreamStep, TokenUsage,
};
use gitbuddy::prompt::{build_repair_user_prompt, build_user_prompt, Prompt};
use gitbuddy::text::{decimal_string, signed_decimal_string};

#[test]
fn clean_valid_subject_is_returned_unchanged() {
    for s in ["feat: add login", "fix(api)!: drop v1", "build(ci): pin toolchain"] {
        assert_eq!(extract_commit_subject(s).unwrap(), s);
    }
}

#[test]
fn subject_with_colon_space_in_scope_is_extracted_but_not_valid() {
    let s = extract_commit_subject("fix(a: b): x").unwrap();
    assert_eq!(s, "fix(a: b): x");
    assert!(!is_conventional_commit_subject(&s));
}

#[test]
fn extracted_subjects_are_valid_for_ordinary_answers() {
    for raw in ["Use \"docs(readme): explain setup.\" please", "```\nci: cache deps\n```"] {
        let s = extract_commit_subject(raw).unwrap();
        assert!(is_conventional_commit_subject(&s), "{}", s);
        assert!(!s.contains('\n'));
    }
}

#[test]
fn relaxed_candidate_is_cut_at_quote_and_punctuation() {
    assert_eq!(extract_commit_subject("Maybe perf(db): add index\", said he.").unwrap(), "perf(db): add index");
    assert_eq!(extract_commit_subject("so style: tidy up.;").unwrap(), "style: tidy up");
}

#[test]
fn think_tags_are_case_insensitive_and_cleaned() {
    let raw = "<THINK>\nfix: hidden\n</Think>\n`chore: visible`";
    assert_eq!(extract_commit_subject(raw).unwrap(), "chore: visible");
}

#[test]
fn crlf_lines_are_split_like_lines() {
    assert_eq!(extract_commit_subject("test: one\r\ntest: two\r\n").unwrap(), "test: two");
}

#[test]
fn conventional_checks() {
    assert!(is_conventional_commit_subject("feat(x): y"));
    assert!(is_conventional_commit_subject("feat!: y"));
    assert!(!is_conventional_commit_subject("feat(): y"));
    assert!(!is_conventional_commit_subject("feat(x: y"));
    assert!(!is_conventional_commit_subject("feat:    "));
    assert!(!is_conventional_commit_subject("feature: y"));
    assert!(!is_conventional_commit_subject("feat:y"));
}

#[test]
fn validate_cleans_quotes_and_rejects_invalid() {
    assert_eq!(validate_commit_subject("  \"fix: quoted\"  ").unwrap(), "fix: quoted");
    assert_eq!(validate_commit_subject("nope").unwrap_err(), SubjectError::InvalidSubject);
    assert_eq!(
        SubjectError::InvalidSubject.to_string(),
        "LLM did not return a valid conventional commit subject."
    );
}

#[test]
fn json_field_takes_precedence_over_text() {
    assert_eq!(select_commit_subject("fix: text", Some("feat: json".to_string())).unwrap(), "feat: json");
    assert!(select_commit_subject("fix: text", Some("bad".to_string())).is_err());
    assert_eq!(select_commit_subject("fix: text", None).unwrap(), "fix: text");
    assert!(extract_commit_subject_from_json_or_text("{\"subject\":\"bad\"}\nfix: text").is_ok());
    assert_eq!(extract_commit_subject_from_json_or_text("{\"other\":\"fix: a\"}").unwrap(), "fix: a");
}

#[test]
fn json_fences_are_removed() {
    assert_eq!(clean_json_response_text("  ```json\n{\"a\":1}\n```  "), "{\"a\":1}");
    assert_eq!(clean_json_response_text("```text\nx\n```"), "x");
    assert_eq!(clean_json_response_text("```\ny```"), "y");
    assert_eq!(clean_json_response_text("plain"), "plain");
}

fn model_config(model: &str) -> ModelConfig {
    ModelConfig { api_key: Some("k".to_string()), model: model.to_string(), base_url: String::new() }
}

#[test]
fn configured_vendor_is_selected_and_others_kept() {
    let mut cfg = GlobalConfig::new();
    assert!(cfg.model(None).is_none());
    configure_vendor(&mut cfg, PromptModel::OpenAI, "sk-1", "gpt-4o");
    let (c, v) = cfg.model(Some(PromptModel::OpenAI)).unwrap();
    assert_eq!(v, PromptModel::OpenAI);
    assert_eq!(c.model, "gpt-4o");
    assert_eq!(c.api_key.as_deref(), Some("sk-1"));
    // No endpoint is stored for OpenAI: the client library's default applies.
    assert_eq!(c.base_url, "");
    assert_eq!(default_base_url(PromptModel::OpenAI), "");
    assert!(cfg.model(Some(PromptModel::DeepSeek)).is_none());
    configure_vendor(&mut cfg, PromptModel::Ollama, "", "llama3.1");
    assert_eq!(cfg.model(Some(PromptModel::Ollama)).unwrap().0.api_key, None);
    assert_eq!(cfg.model(Some(PromptModel::OpenAI)).unwrap().0.model, "gpt-4o");
}

#[test]
fn default_vendor_is_used_without_override() {
    let mut cfg = GlobalConfig::default();
    cfg.set_model_config(PromptModel::DeepSeek, model_config("deepseek-chat"));
    let (c, v) = cfg.model(None).unwrap();
    assert_eq!(v, PromptModel::DeepSeek);
    assert_eq!(c.model, "deepseek-chat");
    assert_eq!(default_base_url(PromptModel::MiniMax), "https://api.minimaxi.com/anthropic");
}

#[test]
fn new_config_serializes() {
    let cfg = GlobalConfig::new();
    let mut default = toml::Table::new();
    default.insert("default_service".into(), cfg.default.default_service.config_name().into());
    default.insert("timeout".into(), (cfg.default.timeout as i64).into());
    let mut file = toml::Table::new();
    file.insert("default".into(), default.into());
    let toml_str = toml::to_string(&file).unwrap();

    assert!(toml_str.contains("[default]"));
    assert!(toml_str.contains("default_service = \"deepseek\""));
}

#[test]
fn config_deserializes_vendor_sections() {
    let toml_str = r#"
[default]
default_service = "deepseek"
timeout = 30

[deepseek]
model = "deepseek-chat"
api_key = "sk-12345678"
base_url = "https://api.deepseek.com"
        "#;

    let table: toml::Table = toml::from_str(toml_str).unwrap();
    let default = table["default"].as_table().unwrap();
    let mut cfg = GlobalConfig::new();
    cfg.default.default_service =
        PromptModel::from_config_name(default["default_service"].as_str().unwrap()).unwrap();
    cfg.default.timeout = default["timeout"].as_integer().unwrap() as u64;
    for vendor in [PromptModel::OpenAI, PromptModel::DeepSeek, PromptModel::Ollama, PromptModel::MiniMax] {
        if let Some(section) = table.get(vendor.config_name()).and_then(|v| v.as_table()) {
            cfg.set_model_config(
                vendor,
                ModelConfig {
                    api_key: section.get("api_key").and_then(|v| v.as_str()).map(|s| s.to_string()),
                    model: section["model"].as_str().unwrap().to_string(),
                    base_url: section["base_url"].as_str().unwrap().to_string(),
                },
            );
        }
    }
    let (model_config, vendor) = cfg.model(None).unwrap();

    assert_eq!(vendor, PromptModel::DeepSeek);
    assert_eq!(model_config.model, "deepseek-chat");
    assert_eq!(model_config.api_key.as_deref(), Some("sk-12345678"));
}

#[test]
fn vendor_names_round_trip() {
    for v in [PromptModel::OpenAI, PromptModel::DeepSeek, PromptModel::Ollama, PromptModel::MiniMax] {
        assert_eq!(PromptModel::from_config_name(v.config_name()), Some(v));
    }
    assert_eq!(PromptModel::from_config_name("DeepSeek"), None);
}

#[test]
fn git_commands_and_how_they_are_shown() {
    assert_eq!(commit_args("fix: a"), vec!["commit", "-m", "fix: a"]);
    assert_eq!(push_args(), vec!["push", "origin", "HEAD"]);
    assert_eq!(shell_word("HEAD"), "HEAD");
    assert_eq!(shell_word(""), "''");
    assert_eq!(shell_word("a b"), "'a b'");
    assert_eq!(shell_word("it's"), "'it'\\''s'");
    assert_eq!(command_line(&push_args()), "git push origin HEAD");
    assert_eq!(command_line(&commit_args("feat(ui): add x")), "git commit -m 'feat(ui): add x'");
    assert_eq!(command_line(&vec![]), "git");
}

#[test]
fn openai_uses_the_client_default_endpoint() {
    let mut cfg = GlobalConfig::new();
    configure_vendor(&mut cfg, PromptModel::OpenAI, "sk-1", "gpt-4o");
    let s = resolve_request(&cfg, Some(PromptModel::OpenAI), None).unwrap();
    assert_eq!(s.base_url, None);
    configure_vendor(&mut cfg, PromptModel::DeepSeek, "sk-2", "deepseek-chat");
    let s = resolve_request(&cfg, Some(PromptModel::DeepSeek), None).unwrap();
    assert_eq!(s.base_url.as_deref(), Some("https://api.deepseek.com"));
}

#[test]
fn request_settings_follow_config_and_overrides() {
    let mut cfg = GlobalConfig::new();
    assert_eq!(resolve_request(&cfg, None, None).unwrap_err(), LlmError::NoModelSelected);
    assert_eq!(LlmError::NoModelSelected.to_string(), "No model selected. Run `gitbuddy config` first.");
    cfg.set_model_config(PromptModel::MiniMax, model_config("MiniMax-M2.7"));
    cfg.set_model_config(PromptModel::OpenAI, model_config("gpt-4o"));
    let s = resolve_request(&cfg, Some(PromptModel::MiniMax), Some("other".to_string())).unwrap();
    assert_eq!(s.protocol, Protocol::Anthropic);
    assert_eq!(s.model_name, "other");
    assert_eq!(s.base_url.as_deref(), Some("https://api.minimaxi.com/anthropic"));
    let s = resolve_request(&cfg, Some(PromptModel::OpenAI), None).unwrap();
    assert_eq!(s.protocol, Protocol::OpenAICompletions);
    assert_eq!(s.model_name, "gpt-4o");
    assert_eq!(s.api_key, "k");
    assert_eq!(s.base_url, None);
}

#[test]
fn default_models() {
    assert_eq!(PromptModel::OpenAI.default_model(), "gpt-3.5-turbo");
    assert_eq!(PromptModel::DeepSeek.default_model(), "deepseek v4 flash");
    assert_eq!(PromptModel::Ollama.default_model(), "ollama");
    assert_eq!(PromptModel::MiniMax.default_model(), "MiniMax-M2.7");
}

fn usage(i: u64, o: u64, t: u64, c: u64) -> StreamChunk {
    StreamChunk::Final(Some(TokenUsage { input_tokens: i, output_tokens: o, total_tokens: t, cached_input_tokens: c }))
}

#[test]
fn stream_falls_back_to_reasoning() {
    let mut c = StreamCollector::new();
    assert!(matches!(c.accept(StreamChunk::Text("  ".into())), StreamStep::Show(ref t) if t == "  "));
    assert!(matches!(c.accept(StreamChunk::Reasoning("think ".into())), StreamStep::Continue));
    assert!(matches!(c.accept(StreamChunk::Reasoning("more".into())), StreamStep::Continue));
    assert!(matches!(c.accept(StreamChunk::Other), StreamStep::Continue));
    assert!(matches!(c.accept(usage(3, 4, 7, 0)), StreamStep::Continue));
    let r = c.finish().unwrap();
    assert_eq!(r.commit_message, "think more");
    assert_eq!(r.reasoning_content.as_deref(), Some("think more"));
    assert_eq!((r.prompt_tokens, r.completion_tokens, r.total_tokens), (3, 4, 7));
    assert_eq!(r.prompt_cache_hit_tokens, None);

    let mut c = StreamCollector::new();
    c.accept(StreamChunk::Text("fix: ".into()));
    c.accept(StreamChunk::Text("a".into()));
    c.accept(usage(1, 1, 2, 5));
    let r = c.finish().unwrap();
    assert_eq!(r.commit_message, "fix: a");
    assert_eq!(r.reasoning_content, None);
    assert_eq!(r.prompt_cache_hit_tokens, Some(5));

    let r = StreamCollector::new().finish().unwrap();
    assert_eq!((r.commit_message.as_str(), r.total_tokens), ("", 0));
}

#[test]
fn stream_error_stops_the_stream() {
    let mut c = StreamCollector::new();
    assert!(matches!(c.accept(StreamChunk::Text("fix".into())), StreamStep::Show(_)));
    assert!(matches!(c.accept(StreamChunk::Error("reset".into())), StreamStep::Stop(ref m) if m == "Streaming error: reset"));
    // Nothing is shown or taken in after the error.
    assert!(matches!(c.accept(StreamChunk::Text(": a".into())), StreamStep::Stop(ref m) if m == "Streaming error: reset"));
    assert_eq!(c.text, "fix");
    assert_eq!(c.finish().unwrap_err(), "Streaming error: reset");
}

#[test]
fn requests_carry_key_prompts_and_limits() {
    let api = OpenAICompatibleBuilder::new(PromptModel::OpenAI, "gpt-4o", "sk-1", "").build("sys".to_string());
    assert_eq!(api.url, "https://api.openai.com");
    let r = api.prepare("D", 1024);
    assert_eq!(r.url, "https://api.openai.com/v1/chat/completions");
    assert_eq!(r.authorization, "Bearer sk-1");
    assert_eq!(r.model, "gpt-4o");
    assert_eq!(r.messages.len(), 2);
    assert_eq!((r.messages[0].role.as_str(), r.messages[0].content.as_str()), ("system", "sys"));
    assert_eq!((r.messages[1].role.as_str(), r.messages[1].content.as_str()), ("user", "diff content: \nD"));
    assert_eq!((r.keep_alive.as_str(), r.max_tokens, r.timeout_secs), ("30m", 1024, 120));

    let a = AnthropicCompatible { url: "https://x/v1".into(), model: "m".into(), prompt: "p".into(), api_key: "k".into() };
    let r = a.prepare("D", 7);
    assert_eq!(r.url, "https://x/v1/messages");
    assert_eq!((r.api_key.as_str(), r.model.as_str(), r.system.as_str()), ("k", "m", "p"));
    assert_eq!(r.messages.len(), 1);
    assert_eq!((r.messages[0].role.as_str(), r.messages[0].content.as_str()), ("user", "diff content: \nD"));
    assert_eq!((r.max_tokens, r.timeout_secs), (7, 120));
}

#[test]
fn endpoints_are_completed() {
    let b = OpenAICompatibleBuilder::new(PromptModel::Ollama, "m", "k", "http://h:1/v1//");
    assert_eq!(b.url, "http://h:1/v1");
    let api = b.build("sys".to_string());
    assert_eq!(api.endpoint(), "http://h:1/v1/chat/completions");
    let b = OpenAICompatibleBuilder::new(PromptModel::DeepSeek, "m", "k", "");
    assert_eq!(b.build(String::new()).endpoint(), "https://api.deepseek.com/v1/chat/completions");
    let a = AnthropicCompatible { url: "https://x/anthropic".into(), model: "m".into(), prompt: "p".into(), api_key: "k".into() };
    assert_eq!(a.endpoint(), "https://x/anthropic/v1/messages");
    let a = AnthropicCompatible { url: "https://x/v1/messages".into(), model: "m".into(), prompt: "p".into(), api_key: "k".into() };
    assert_eq!(a.endpoint(), "https://x/v1/messages");
}

#[test]
fn api_error_messages() {
    let e = ApiErrorDetail { message: "too long".into(), code: Some("context_length_exceeded".into()) };
    assert!(openai_error_message("400 Bad Request", "{}", Some(e)).starts_with("The staged changes are too large"));
    let e = ApiErrorDetail { message: "bad key".into(), code: None };
    assert_eq!(openai_error_message("401 Unauthorized", "{}", Some(e)), "API error (401 Unauthorized): bad key");
    assert_eq!(openai_error_message("500", "oops", None), "API error (500): oops");
    let b = AnthropicBaseResp { status_code: -7, status_msg: "denied".into() };
    assert_eq!(anthropic_error_message("403", "{}", Some(b)), "API error (403): denied (code: -7)");
    assert_eq!(anthropic_error_message("403", "raw", None), "API error (403): raw");
}

#[test]
fn anthropic_and_openai_results() {
    let blocks = vec![
        ContentBlock { block_type: "thinking".into(), text: None, thinking: Some(" plan ".into()) },
        ContentBlock { block_type: "text".into(), text: Some(" fix: a ".into()), thinking: None },
        ContentBlock { block_type: "text".into(), text: Some("b".into()), thinking: None },
    ];
    let r = anthropic_result(&blocks, 10, 5);
    assert_eq!(r.commit_message, "fix: ab");
    assert_eq!(r.reasoning_content.as_deref(), Some("plan"));
    assert_eq!(r.total_tokens, 15);
    let only_thinking = vec![ContentBlock { block_type: "thinking".into(), text: None, thinking: Some("x".into()) }];
    assert_eq!(anthropic_result(&only_thinking, 0, 0).commit_message, "x");
    let r = openai_result(&vec!["  fix: b \n".to_string(), "x".to_string()], 1, 2, 3, Some(4)).unwrap();
    assert_eq!(r.commit_message, "fix: b");
    assert_eq!(r.prompt_cache_hit_tokens, Some(4));
    assert_eq!(openai_result(&vec![], 1, 2, 3, None).unwrap_err(), "No choices returned from API");
}

#[test]
fn summary_keeps_headers_and_limits_code_lines() {
    let diff = "diff --git a/x b/x\nindex 1..2\n--- a/x\n+++ b/x\n@@ -1 +1 @@\n+a\n+b\n+c\ndiff --git a/y b/y\n+d\n";
    let out = smart_truncate_diff(diff, 2);
    assert_eq!(
        out,
        "diff --git a/x b/x\nindex 1..2\n--- a/x\n+++ b/x\n@@ -1 +1 @@\n+a\n+b\ndiff --git a/y b/y\n+d\n[Note: Diff was smart-truncated (max 2 code lines per file).]"
    );
    // The file name lines are headers: they use none of the budget.
    assert_eq!(smart_truncate_diff(diff, 3), diff);
    assert_eq!(smart_truncate_diff("---", 0), "---\n");
    // Inside a hunk, `---` and `+++` lines are removed and added code lines.
    assert_eq!(
        smart_truncate_diff("diff --git a b\n@@ -1 +1 @@\n-x\n--- c\n", 1),
        "diff --git a b\n@@ -1 +1 @@\n-x\n[Note: Diff was smart-truncated (max 1 code lines per file).]"
    );
    assert_eq!(
        smart_truncate_diff("diff --git a b\n--- a\n+++ b\n@@ -1 +1 @@\n+++ y\n+z\ndiff --git c d\n--- c\n", 1),
        "diff --git a b\n--- a\n+++ b\n@@ -1 +1 @@\n+++ y\ndiff --git c d\n--- c\n[Note: Diff was smart-truncated (max 1 code lines per file).]"
    );
    assert_eq!(smart_truncate_diff("diff --git a/x b/x\n--- a/x\n+++ b/x\n-old\n", 0),
        "diff --git a/x b/x\n--- a/x\n+++ b/x\n[Note: Diff was smart-truncated (max 0 code lines per file).]");
    assert_eq!(smart_truncate_diff(diff, 20), diff);
    assert_eq!(smart_truncate_diff("", 20), "");
}

#[test]
fn prompt_plan_thresholds() {
    let small = "a".repeat(8_000);
    assert!(matches!(plan_prompt(&small), PromptPlan::Full(ref t) if t == &small));
    let just_over = "a".repeat(8_001);
    assert!(matches!(plan_prompt(&just_over), PromptPlan::Summary { char_count: 8_001, .. }));
    let medium = format!("diff --git a\n{}", "+x\n".repeat(20_000));
    match plan_prompt(&medium) {
        PromptPlan::Summary { text, char_count } => {
            assert_eq!(char_count, medium.chars().count());
            assert!(text.ends_with("[Note: Diff was smart-truncated (max 20 code lines per file).]"));
        }
        _ => panic!("expected a summary"),
    }
    let large = "é".repeat(100_001);
    assert!(matches!(plan_prompt(&large), PromptPlan::StatsOnly { char_count: 100_001 }));
    assert_eq!(
        stats_prompt("", "a\nb"),
        "Generate a concise commit message for changes in these files:\n\na\nb"
    );
    assert!(stats_prompt(" 1 file changed", "a").ends_with("statistics:\n\n 1 file changed"));
}

#[test]
fn handler_helpers() {
    assert_eq!(compose_diff_context("f", "s", "d"), "Files changed:\nf\n\nChange statistics:\ns\n\nd");
    assert_eq!(join_names(&vec!["a".to_string(), "b".to_string()]), "a\nb");
    assert_eq!(join_names(&vec![]), "");
    assert_eq!(stat_summary(" a | 1 +\n 1 file changed, 1 insertion(+)\n"), "1 file changed, 1 insertion(+)");
    assert_eq!(stat_summary(""), "");
    assert_eq!(resolve_display_model(None, None, None), "unknown");
    assert_eq!(resolve_display_model(None, Some(PromptModel::Ollama), Some("x")), "ollama");
    let mut cfg = GlobalConfig::new();
    cfg.set_model_config(PromptModel::DeepSeek, model_config("deepseek-chat"));
    assert_eq!(resolve_display_model(Some(&cfg), None, None), "deepseek-chat");
    assert_eq!(resolve_display_model(Some(&cfg), None, Some("r1")), "r1");
    assert!(matches!(classify_answer(" \n "), AnswerOutcome::Blank));
    assert!(matches!(classify_answer("{\"subject\":\"fix: a\"}"), AnswerOutcome::Subject(ref s) if s == "fix: a"));
    assert!(matches!(classify_answer("nothing"), AnswerOutcome::NeedsRepair(SubjectError::InvalidSubject)));
    assert_eq!(repair_failure_cause("e", "r", true), "e\nRepair request failed: r");
    assert_eq!(repair_failure_cause("e", "r", false), "e\nRepair attempt also failed: r");
    assert!(is_affirmative(" y \n") && is_affirmative("\n") && is_affirmative("Y"));
    assert!(!is_affirmative("yes") && !is_affirmative("n"));
    assert!(push_answer_accepts("y\r\n") && push_answer_accepts("\n"));
    assert!(!push_answer_accepts(" y\n") && !push_answer_accepts("N\n"));
    assert_eq!(commit_box_inner_width("short"), 40);
    assert_eq!(commit_box_inner_width(&"é".repeat(45)), 45);
}

#[test]
fn diagnostic_messages_and_names() {
    assert_eq!(diagnostic_file_name(1700000000123), "llm-diagnostic-1700000000123.log");
    assert_eq!(diagnostic_outcome_message("c", Ok("/tmp/x.log")), "c\nDiagnostic written to: /tmp/x.log");
    assert_eq!(
        diagnostic_outcome_message("c", Err("failed to resolve config directory.")),
        "c\nDiagnostic file was not written: failed to resolve config directory."
    );
    let d = format_commit_subject_diagnostic_at("42", "cause", "raw", None, None, "user", Prompt::P2, "m");
    assert!(d.starts_with("GitBuddy LLM diagnostic\nCreated at (unix seconds): 42\n\ncause\n\nModel: m\nPrompt preset: p2"));
    assert!(!d.contains("Repair LLM response:"));
    assert!(d.ends_with("\n\nUser prompt:\nuser"));
    assert!(d.contains(Prompt::P2.value()));
}

#[test]
fn prompts() {
    assert_eq!(build_user_prompt("d"), "diff content: \nd");
    assert!(build_repair_user_prompt("raw", "user", "err").ends_with(
        "Return only JSON in this exact shape: {\"subject\":\"<type>(<scope>): <subject>\"}"
    ));
    assert_eq!(Prompt::P1.name(), "p1");
    assert!(Prompt::P1.value().contains("{\"subject\""));
}

#[test]
fn git_helpers() {
    assert_eq!(parse_name_list("a.rs\n\nb.rs\n"), vec!["a.rs".to_string(), "b.rs".to_string()]);
    assert!(parse_name_list("").is_empty());
    assert_eq!(exclude_pathspec("dist"), ":(exclude)dist");
    assert_eq!(ignore_filenames(), vec!["Cargo.lock", "node_modules", "dist", "package-lock.json", "pnpm-lock.json"]);
    assert_eq!(git_failure_message("push", "  denied\n"), "push failed: denied");
}

#[test]
fn decimals() {
    assert_eq!(decimal_string(0), "0");
    assert_eq!(decimal_string(u128::MAX), u128::MAX.to_string());
    assert_eq!(signed_decimal_string(i64::MIN), i64::MIN.to_string());
    assert_eq!(signed_decimal_string(305), "305");
}

#[test]
fn integer_limits_are_sent_only_when_positive() {
    let l = integer_limits(1024, 5);
    assert_eq!((l.max_tokens, l.top_k), (Some(1024), Some(5)));
    let l = integer_limits(0, 0);
    assert_eq!((l.max_tokens, l.top_k), (None, None));
}
