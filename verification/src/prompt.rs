//! The prompt presets and the user prompts a request is sent with.
use vstd::prelude::*;
use vstd::string::StringExecFns;

verus! {

/// A built-in prompt preset.
#[derive(Debug, Clone, Copy, PartialEq, Eq, Structural)]
pub enum Prompt {
    P1,
    P2,
    P3,
    P4,
    P5,
}

/// Asks for a JSON object holding one Conventional Commit subject.
pub const PROMPT_JSON: &'static str = "You are an expert at writing Git commit messages. Read the staged diff and write one Conventional Commit subject for it: `<type>(<scope>): <subject>`, where <type> is one of feat, fix, docs, style, refactor, perf, test, chore, ci or build, the scope is optional, and the subject is an imperative summary of at most 72 characters. Return only JSON in this exact shape: {\"subject\":\"<type>(<scope>): <subject>\"}. Do not add explanations, analysis or Markdown.";

/// Asks for the subject line alone.
pub const PROMPT_PLAIN: &'static str = "You are an expert at writing Git commit messages. Write one Conventional Commit subject for the staged diff in the form `<type>(<scope>): <subject>`, using one of the types feat, fix, docs, style, refactor, perf, test, chore, ci or build. Reply with that single line and nothing else.";

/// Asks for a short subject without a scope.
pub const PROMPT_SHORT: &'static str = "Summarize the staged diff as one short Conventional Commit subject `<type>: <subject>` (types: feat, fix, docs, style, refactor, perf, test, chore, ci, build). Keep it under 50 characters. Reply with the subject only.";

/// Asks for a subject that names the scope of the change.
pub const PROMPT_SCOPED: &'static str = "You review staged changes of a software project. Identify the main module that changed and write one Conventional Commit subject `<type>(<module>): <subject>` with a type among feat, fix, docs, style, refactor, perf, test, chore, ci and build. Use the imperative mood and answer with the subject line only.";

/// Asks for a subject that marks breaking changes.
pub const PROMPT_BREAKING: &'static str = "Write one Conventional Commit subject for the staged diff: `<type>(<scope>)!: <subject>` when the change breaks compatibility, `<type>(<scope>): <subject>` otherwise, with a type among feat, fix, docs, style, refactor, perf, test, chore, ci and build. Reply with the subject line only.";

/// The system prompt of a preset.
pub open spec fn prompt_text(p: Prompt) -> Seq<char> {
    match p {
        Prompt::P1 => PROMPT_JSON@,
        Prompt::P2 => PROMPT_PLAIN@,
        Prompt::P3 => PROMPT_SHORT@,
        Prompt::P4 => PROMPT_SCOPED@,
        Prompt::P5 => PROMPT_BREAKING@,
    }
}

/// The name of a preset as it is shown.
pub open spec fn prompt_name(p: Prompt) -> Seq<char> {
    match p {
        Prompt::P1 => "p1"@,
        Prompt::P2 => "p2"@,
        Prompt::P3 => "p3"@,
        Prompt::P4 => "p4"@,
        Prompt::P5 => "p5"@,
    }
}

impl Prompt {
    /// The system prompt of the preset.
    pub fn value(&self) -> (r: &'static str)
        ensures
            r@ == prompt_text(*self),
    {
        match self {
            Prompt::P1 => PROMPT_JSON,
            Prompt::P2 => PROMPT_PLAIN,
            Prompt::P3 => PROMPT_SHORT,
            Prompt::P4 => PROMPT_SCOPED,
            Prompt::P5 => PROMPT_BREAKING,
        }
    }

    /// The name of the preset, as it is shown: `p1` to `p5`.
    pub fn name(&self) -> (r: &'static str)
        ensures
            r@ == prompt_name(*self),
    {
        match self {
            Prompt::P1 => "p1",
            Prompt::P2 => "p2",
            Prompt::P3 => "p3",
            Prompt::P4 => "p4",
            Prompt::P5 => "p5",
        }
    }
}

/// The repair instruction that closes a repair request.
pub open spec fn repair_instruction() -> Seq<char> {
    "Return only JSON in this exact shape: {\"subject\":\"<type>(<scope>): <subject>\"}"@
}

/// The user prompt of a commit request.
pub open spec fn user_prompt_text(diff: Seq<char>) -> Seq<char> {
    "diff content: \n"@ + diff
}

/// The user prompt of a repair request.
pub open spec fn repair_prompt_text(raw: Seq<char>, user_prompt: Seq<char>, error: Seq<char>) -> Seq<
    char,
> {
    "The previous answer could not be used: "@ + error + "\n\nPrevious answer:\n"@ + raw
        + "\n\nOriginal request:\n"@ + user_prompt + "\n\n"@ + repair_instruction()
}

/// Builds the user prompt that carries the diff.
pub fn build_user_prompt(diff_content: &str) -> (r: String)
    ensures
        r@ == user_prompt_text(diff_content@),
{
    let mut s = String::from_str("diff content: \n");
    s.append(diff_content);
    s
}

/// Builds the user prompt that asks the model to repair an answer that held
/// no valid subject.
pub fn build_repair_user_prompt(raw_response: &str, user_prompt: &str, error: &str) -> (r: String)
    ensures
        r@ == repair_prompt_text(raw_response@, user_prompt@, error@),
{
    let mut s = String::from_str("The previous answer could not be used: ");
    s.append(error);
    s.append("\n\nPrevious answer:\n");
    s.append(raw_response);
    s.append("\n\nOriginal request:\n");
    s.append(user_prompt);
    s.append("\n\n");
    s.append("Return only JSON in this exact shape: {\"subject\":\"<type>(<scope>): <subject>\"}");
    s
}

} // verus!
