//! The decisions of `gitbuddy ai`: how much of the diff goes into the
//! prompt, what the diagnostic file says, and what an answer leads to.
use crate::commit_message::{extract_commit_subject_from_json_or_text, SubjectError};
use crate::config::GlobalConfig;
use crate::llm::{default_model_name, PromptModel};
use crate::prompt::{prompt_name, prompt_text, Prompt};
use crate::text::{
    chars_of, decimal, decimal_string, find_in, line_ranges, lines, lines_from, push_all, push_decimal, skip_back,
    slice, string_of, trim, trim_end, trim_vec, CharClass,
};
use vstd::prelude::*;
use vstd::string::StringExecFns;

verus! {

broadcast use vstd::string::group_string_axioms;

/// Up to this many characters the whole diff is sent.
pub const MAX_DIFF_CHARS_FULL: usize = 8000;

/// Up to this many characters the diff is sent with its headers and a few
/// code lines per file.
pub const MAX_DIFF_CHARS_SUMMARY: usize = 100000;

/// The code lines kept per file when the diff is summarized.
pub const MAX_LINES_PER_FILE: usize = 20;

/// How many characters a diagnostic shows of each value.
pub const PREVIEW_MAX_CHARS: usize = 50000;

/// Whether `s` starts with `p`.
pub open spec fn starts_with(s: Seq<char>, p: Seq<char>) -> bool {
    p.len() <= s.len() && s.subrange(0, p.len() as int) == p
}

/// The kinds of lines of a unified diff.
#[derive(Debug, Clone, Copy, PartialEq, Eq, Structural)]
pub enum LineKind {
    /// `diff --git ...`: starts a file and renews the code line budget.
    FileHeader,
    /// `@@ ...`: a hunk header.
    HunkHeader,
    /// `--- ...` or `+++ ...`: before a file's first hunk, the names of the
    /// old and the new file; inside a hunk, a code line.
    FileNames,
    /// A line starting with `+`, `-` or a space.
    Code,
    /// Any other line.
    Other,
}

pub open spec fn line_kind(l: Seq<char>) -> LineKind {
    if starts_with(l, "diff --git"@) {
        LineKind::FileHeader
    } else if starts_with(l, "@@ "@) {
        LineKind::HunkHeader
    } else if starts_with(l, "---"@) || starts_with(l, "+++"@) {
        LineKind::FileNames
    } else if l.len() > 0 && (l[0] == '+' || l[0] == '-' || l[0] == ' ') {
        LineKind::Code
    } else {
        LineKind::Other
    }
}

/// What line `l` counts as, `in_hunk` telling whether a hunk of the
/// current file has begun: a `---` or `+++` line is a code line there.
pub open spec fn effective_kind(l: Seq<char>, in_hunk: bool) -> LineKind {
    if line_kind(l) == LineKind::FileNames && in_hunk {
        LineKind::Code
    } else {
        line_kind(l)
    }
}

/// Whether a hunk of the current file has begun after line `l`: a file
/// header ends it, a hunk header begins it.
pub open spec fn next_in_hunk(l: Seq<char>, in_hunk: bool) -> bool {
    match line_kind(l) {
        LineKind::FileHeader => false,
        LineKind::HunkHeader => true,
        _ => in_hunk,
    }
}

/// The code line budget after line `l`, from `remaining` before it.
pub open spec fn next_budget(l: Seq<char>, in_hunk: bool, remaining: nat, max: nat) -> nat {
    match effective_kind(l, in_hunk) {
        LineKind::FileHeader => max,
        LineKind::Code => if remaining > 0 {
            (remaining - 1) as nat
        } else {
            0
        },
        _ => remaining,
    }
}

/// Whether line `l` is kept with `remaining` code lines of budget left.
pub open spec fn kept_line(l: Seq<char>, in_hunk: bool, remaining: nat) -> bool {
    effective_kind(l, in_hunk) != LineKind::Code || remaining > 0
}

/// Which of the lines from `i` on are kept, when `remaining` code lines of
/// the current file may still be kept, `in_hunk` tells whether a hunk of
/// it has begun, and each file allows `max`.
pub open spec fn keep_flags(ls: Seq<Seq<char>>, i: int, remaining: nat, in_hunk: bool, max: nat) -> Seq<
    bool,
>
    decreases ls.len() - i,
{
    if i < 0 || i >= ls.len() {
        Seq::empty()
    } else {
        let l = ls[i];
        seq![kept_line(l, in_hunk, remaining)] + keep_flags(
            ls,
            i + 1,
            next_budget(l, in_hunk, remaining, max),
            next_in_hunk(l, in_hunk),
            max,
        )
    }
}

/// The kept lines among the first `n`, each followed by a line feed.
pub open spec fn join_kept(ls: Seq<Seq<char>>, flags: Seq<bool>, n: int) -> Seq<char>
    decreases n,
{
    if n <= 0 {
        Seq::empty()
    } else if flags[n - 1] {
        join_kept(ls, flags, n - 1) + ls[n - 1] + seq!['\n']
    } else {
        join_kept(ls, flags, n - 1)
    }
}

/// Which lines of `diff` a summary with `max` code lines per file keeps.
pub open spec fn truncation_flags(diff: Seq<char>, max: nat) -> Seq<bool> {
    keep_flags(lines(diff), 0, 0, false, max)
}

/// The note that ends a summarized diff.
pub open spec fn truncation_note(max: nat) -> Seq<char> {
    "\n[Note: Diff was smart-truncated (max "@ + decimal(max) + " code lines per file).]"@
}

/// A diff with all its headers and at most `max` code lines per file; a
/// note says when lines were left out.
pub open spec fn smart_truncated(diff: Seq<char>, max: nat) -> Seq<char> {
    let ls = lines(diff);
    let flags = truncation_flags(diff, max);
    let kept = join_kept(ls, flags, ls.len() as int);
    if flags.contains(false) {
        trim_end(kept) + truncation_note(max)
    } else {
        kept
    }
}

proof fn lemma_keep_flags_len(ls: Seq<Seq<char>>, i: int, remaining: nat, in_hunk: bool, max: nat)
    requires
        0 <= i <= ls.len(),
    ensures
        keep_flags(ls, i, remaining, in_hunk, max).len() == ls.len() - i,
    decreases ls.len() - i,
{
    if i < ls.len() {
        let l = ls[i];
        lemma_keep_flags_len(
            ls,
            i + 1,
            next_budget(l, in_hunk, remaining, max),
            next_in_hunk(l, in_hunk),
            max,
        );
    }
}

fn line_kind_of(s: &Vec<char>, lo: usize, hi: usize) -> (r: LineKind)
    requires
        lo <= hi <= s.len(),
    ensures
        r == line_kind(s@.subrange(lo as int, hi as int)),
{
    let ghost l = s@.subrange(lo as int, hi as int);
    let header: Vec<char> = vec!['d', 'i', 'f', 'f', ' ', '-', '-', 'g', 'i', 't'];
    let hunk: Vec<char> = vec!['@', '@', ' '];
    let old_name: Vec<char> = vec!['-', '-', '-'];
    let new_name: Vec<char> = vec!['+', '+', '+'];
    proof {
        reveal_strlit("diff --git");
        reveal_strlit("@@ ");
        reveal_strlit("---");
        reveal_strlit("+++");
        assert(header@ =~= "diff --git"@);
        assert(hunk@ =~= "@@ "@);
        assert(old_name@ =~= "---"@);
        assert(new_name@ =~= "+++"@);
    }
    if has_prefix_at(s, lo, hi, &header) {
        LineKind::FileHeader
    } else if has_prefix_at(s, lo, hi, &hunk) {
        LineKind::HunkHeader
    } else if has_prefix_at(s, lo, hi, &old_name) || has_prefix_at(s, lo, hi, &new_name) {
        LineKind::FileNames
    } else if lo < hi && (s[lo] == '+' || s[lo] == '-' || s[lo] == ' ') {
        LineKind::Code
    } else {
        LineKind::Other
    }
}

fn has_prefix_at(s: &Vec<char>, lo: usize, hi: usize, p: &Vec<char>) -> (r: bool)
    requires
        lo <= hi <= s.len(),
    ensures
        r == starts_with(s@.subrange(lo as int, hi as int), p@),
{
    if p.len() > hi - lo {
        return false;
    }
    let mut k: usize = 0;
    while k < p.len()
        invariant
            lo + p.len() <= hi <= s.len(),
            k <= p.len(),
            forall|j: int| 0 <= j < k ==> s@[lo + j] == p@[j],
        decreases p.len() - k,
    {
        if s[lo + k] != p[k] {
            assert(s@.subrange(lo as int, hi as int).subrange(0, p.len() as int)[k as int]
                != p@[k as int]);
            return false;
        }
        k = k + 1;
    }
    assert(s@.subrange(lo as int, hi as int).subrange(0, p.len() as int) =~= p@);
    true
}

/// Keeps every diff header and at most `max_lines` code lines per file,
/// and appends a note when code lines were left out.
pub fn smart_truncate_diff(diff: &str, max_lines: usize) -> (r: String)
    ensures
        r@ == smart_truncated(diff@, max_lines as nat),
{
    let s = chars_of(diff);
    let ranges = line_ranges(&s);
    let ghost ls = lines(s@);
    let ghost all = keep_flags(ls, 0, 0, false, max_lines as nat);
    let ghost mut done: Seq<bool> = Seq::empty();
    proof {
        lemma_keep_flags_len(ls, 0, 0, false, max_lines as nat);
    }
    let mut out: Vec<char> = Vec::new();
    let mut remaining: usize = 0;
    let mut in_hunk = false;
    let mut skipped = false;
    let mut i: usize = 0;
    while i < ranges.len()
        invariant
            s@ == diff@,
            ls == lines(s@),
            all == keep_flags(ls, 0, 0, false, max_lines as nat),
            all.len() == ls.len(),
            ranges.len() == ls.len(),
            forall|k: int|
                0 <= k < ranges.len() ==> {
                    &&& (#[trigger] ranges[k]).0 <= ranges[k].1 <= s.len()
                    &&& s@.subrange(ranges[k].0 as int, ranges[k].1 as int) == ls[k]
                },
            i <= ranges.len(),
            done.len() == i,
            all == done + keep_flags(ls, i as int, remaining as nat, in_hunk, max_lines as nat),
            remaining <= max_lines,
            out@ == join_kept(ls, all, i as int),
            skipped == done.contains(false),
        decreases ranges.len() - i,
    {
        let (lo, hi) = ranges[i];
        let raw_kind = line_kind_of(&s, lo, hi);
        let kind = match raw_kind {
            LineKind::FileNames => if in_hunk {
                LineKind::Code
            } else {
                LineKind::FileNames
            },
            _ => raw_kind,
        };
        let ghost before = done;
        let ghost rem0 = remaining;
        let ghost hunk0 = in_hunk;
        match raw_kind {
            LineKind::FileHeader => {
                in_hunk = false;
            },
            LineKind::HunkHeader => {
                in_hunk = true;
            },
            _ => {},
        }
        let keep = match kind {
            LineKind::FileHeader => {
                remaining = max_lines;
                true
            },
            LineKind::Code => if remaining > 0 {
                remaining = remaining - 1;
                true
            } else {
                false
            },
            _ => true,
        };
        proof {
            assert(ls[i as int] == s@.subrange(lo as int, hi as int));
            assert(kind == effective_kind(ls[i as int], hunk0));
            assert(keep_flags(ls, i as int, rem0 as nat, hunk0, max_lines as nat) == seq![keep]
                + keep_flags(ls, i + 1, remaining as nat, in_hunk, max_lines as nat));
            assert(all =~= done.push(keep) + keep_flags(
                ls,
                i + 1,
                remaining as nat,
                in_hunk,
                max_lines as nat,
            ));
        }
        if keep {
            let piece = slice(&s, lo, hi);
            push_all(&mut out, &piece);
            out.push('\n');
        } else {
            skipped = true;
        }
        proof {
            done = done.push(keep);
            assert(all[i as int] == done[i as int]);
            assert(out@ =~= join_kept(ls, all, i + 1));
            if keep {
                assert(done.contains(false) == before.contains(false)) by {
                    if before.contains(false) {
                        let w = choose|w: int| 0 <= w < before.len() && before[w] == false;
                        assert(done[w] == false);
                    }
                    if done.contains(false) {
                        let w = choose|w: int| 0 <= w < done.len() && done[w] == false;
                        assert(w < before.len());
                        assert(before[w] == false);
                    }
                }
            } else {
                assert(done[i as int] == false);
            }
        }
        i = i + 1;
    }
    proof {
        assert(done =~= all);
    }
    if skipped {
        let e = skip_back(&out, 0, out.len(), CharClass::Whitespace);
        assert(out@.subrange(0, out.len() as int) =~= out@);
        let mut res = slice(&out, 0, e);
        let note_head = chars_of("\n[Note: Diff was smart-truncated (max ");
        let note_tail = chars_of(" code lines per file).]");
        push_all(&mut res, &note_head);
        push_decimal(&mut res, max_lines as u128);
        push_all(&mut res, &note_tail);
        assert(res@ =~= smart_truncated(diff@, max_lines as nat));
        string_of(&res)
    } else {
        string_of(&out)
    }
}

/// A value as a diagnostic shows it: at most `PREVIEW_MAX_CHARS`
/// characters, with a note when it was cut.
pub open spec fn preview_text(v: Seq<char>) -> Seq<char> {
    if v.len() > PREVIEW_MAX_CHARS {
        v.subrange(0, PREVIEW_MAX_CHARS as int) + "\n[truncated after 50000 chars]"@
    } else {
        v
    }
}

/// Shows at most the first 50000 characters of `value`, noting a cut.
pub fn preview(value: &str) -> (r: String)
    ensures
        r@ == preview_text(value@),
{
    let v = chars_of(value);
    if v.len() > PREVIEW_MAX_CHARS {
        let head = slice(&v, 0, PREVIEW_MAX_CHARS);
        let mut s = string_of(&head);
        s.append("\n[truncated after 50000 chars]");
        s
    } else {
        value.to_string()
    }
}

pub open spec fn opt_str(o: Option<&str>) -> Option<Seq<char>> {
    match o {
        Some(s) => Some(s@),
        None => None,
    }
}

/// A labelled section of the diagnostic, present only with its value.
pub open spec fn optional_section(label: Seq<char>, value: Option<Seq<char>>) -> Seq<char> {
    match value {
        Some(v) => label + preview_text(v),
        None => Seq::empty(),
    }
}

/// The text of the diagnostic file written when no valid subject came back.
pub open spec fn diagnostic_text(
    created_at: Seq<char>,
    cause: Seq<char>,
    raw_response: Seq<char>,
    repair_response: Option<Seq<char>>,
    repair_prompt: Option<Seq<char>>,
    user_prompt: Seq<char>,
    prompt: Prompt,
    model: Seq<char>,
) -> Seq<char> {
    "GitBuddy LLM diagnostic\nCreated at (unix seconds): "@ + created_at + "\n\n"@ + cause
        + "\n\nModel: "@ + model + "\nPrompt preset: "@ + prompt_name(prompt)
        + "\n\nOriginal LLM response:\n"@ + preview_text(raw_response) + optional_section(
        "\n\nRepair LLM response:\n"@,
        repair_response,
    ) + optional_section("\n\nRepair prompt:\n"@, repair_prompt)
        + "\n\nOriginal LLM request:\nSystem prompt:\n"@ + preview_text(prompt_text(prompt))
        + "\n\nUser prompt:\n"@ + preview_text(user_prompt)
}

/// Formats the diagnostic, given when it was created.
pub fn format_commit_subject_diagnostic_at(
    created_at: &str,
    cause: &str,
    raw_response: &str,
    repair_response: Option<&str>,
    repair_prompt: Option<&str>,
    user_prompt: &str,
    prompt: Prompt,
    model: &str,
) -> (r: String)
    ensures
        r@ == diagnostic_text(
            created_at@,
            cause@,
            raw_response@,
            opt_str(repair_response),
            opt_str(repair_prompt),
            user_prompt@,
            prompt,
            model@,
        ),
{
    let mut s = String::from_str("GitBuddy LLM diagnostic\nCreated at (unix seconds): ");
    s.append(created_at);
    s.append("\n\n");
    s.append(cause);
    s.append("\n\nModel: ");
    s.append(model);
    s.append("\nPrompt preset: ");
    s.append(prompt.name());
    s.append("\n\nOriginal LLM response:\n");
    let p = preview(raw_response);
    s.append(p.as_str());
    match repair_response {
        Some(r) => {
            s.append("\n\nRepair LLM response:\n");
            let p = preview(r);
            s.append(p.as_str());
        },
        None => {},
    }
    match repair_prompt {
        Some(r) => {
            s.append("\n\nRepair prompt:\n");
            let p = preview(r);
            s.append(p.as_str());
        },
        None => {},
    }
    s.append("\n\nOriginal LLM request:\nSystem prompt:\n");
    let p = preview(prompt.value());
    s.append(p.as_str());
    s.append("\n\nUser prompt:\n");
    let p = preview(user_prompt);
    s.append(p.as_str());
    s
}

/// The creation time a diagnostic shows: the seconds since the Unix epoch,
/// or `unknown` when the clock is before it.
pub open spec fn created_at_text(secs: Option<u64>) -> Seq<char> {
    match secs {
        Some(n) => decimal(n as nat),
        None => "unknown"@,
    }
}

/// `SystemTime::now` measured against `UNIX_EPOCH` with
/// `SystemTime::duration_since`, in whole seconds (`Duration::as_secs`);
/// `None` when the clock is before the epoch. Nothing is promised of the
/// value: it is the time.
#[verifier::external_body]
fn unix_seconds() -> Option<u64> {
    std::time::SystemTime::now().duration_since(std::time::UNIX_EPOCH).ok().map(|d| d.as_secs())
}

/// Formats the diagnostic, stamped with the current time.
pub fn format_commit_subject_diagnostic(
    cause: &str,
    raw_response: &str,
    repair_response: Option<&str>,
    repair_prompt: Option<&str>,
    user_prompt: &str,
    prompt: Prompt,
    model: &str,
) -> (r: String)
    ensures
        exists|secs: Option<u64>|
            r@ == diagnostic_text(
                #[trigger] created_at_text(secs),
                cause@,
                raw_response@,
                opt_str(repair_response),
                opt_str(repair_prompt),
                user_prompt@,
                prompt,
                model@,
            ),
{
    let secs = unix_seconds();
    let created = match secs {
        Some(n) => decimal_string(n as u128),
        None => "unknown".to_string(),
    };
    let r = format_commit_subject_diagnostic_at(
        created.as_str(),
        cause,
        raw_response,
        repair_response,
        repair_prompt,
        user_prompt,
        prompt,
        model,
    );
    assert(created@ == created_at_text(secs));
    r
}

/// The name of the diagnostic file for a timestamp.
pub fn diagnostic_file_name(timestamp: u128) -> (r: String)
    ensures
        r@ == "llm-diagnostic-"@ + decimal(timestamp as nat) + ".log"@,
{
    let mut s = String::from_str("llm-diagnostic-");
    let d = decimal_string(timestamp);
    s.append(d.as_str());
    s.append(".log");
    s
}

/// The error message once the diagnostic file was written to `path`, or
/// could not be written for the reason `err`.
pub open spec fn diagnostic_outcome_text(cause: Seq<char>, written: Result<Seq<char>, Seq<char>>) -> Seq<char> {
    match written {
        Ok(path) => cause + "\nDiagnostic written to: "@ + path,
        Err(err) => cause + "\nDiagnostic file was not written: "@ + err,
    }
}

/// The error message that reports an invalid subject and where its
/// diagnostic went.
pub fn diagnostic_outcome_message(cause: &str, written: Result<&str, &str>) -> (r: String)
    ensures
        r@ == diagnostic_outcome_text(
            cause@,
            match written {
                Ok(p) => Ok(p@),
                Err(e) => Err(e@),
            },
        ),
{
    let mut s = String::from_str(cause);
    match written {
        Ok(path) => {
            s.append("\nDiagnostic written to: ");
            s.append(path);
        },
        Err(err) => {
            s.append("\nDiagnostic file was not written: ");
            s.append(err);
        },
    }
    s
}

/// How much of the diff the prompt carries.
#[derive(Debug)]
pub enum PromptPlan {
    /// The whole diff.
    Full(String),
    /// The diff with its headers and a few code lines per file.
    Summary { text: String, char_count: usize },
    /// Only the change statistics: the diff is too large.
    StatsOnly { char_count: usize },
}

/// The plan for a diff: whole up to 8000 characters, summarized up to
/// 100000, else statistics only.
pub open spec fn prompt_plan_is(diff: Seq<char>, p: PromptPlan) -> bool {
    if diff.len() <= MAX_DIFF_CHARS_FULL {
        p matches PromptPlan::Full(t) && t@ == diff
    } else if diff.len() <= MAX_DIFF_CHARS_SUMMARY {
        p matches PromptPlan::Summary { text, char_count } && text@ == smart_truncated(
            diff,
            MAX_LINES_PER_FILE as nat,
        ) && char_count == diff.len()
    } else {
        p matches PromptPlan::StatsOnly { char_count } && char_count == diff.len()
    }
}

/// Decides how much of the diff the prompt carries.
pub fn plan_prompt(diff: &str) -> (r: PromptPlan)
    ensures
        prompt_plan_is(diff@, r),
{
    let v = chars_of(diff);
    let n = v.len();
    if n <= MAX_DIFF_CHARS_FULL {
        PromptPlan::Full(diff.to_string())
    } else if n <= MAX_DIFF_CHARS_SUMMARY {
        PromptPlan::Summary { text: smart_truncate_diff(diff, MAX_LINES_PER_FILE), char_count: n }
    } else {
        PromptPlan::StatsOnly { char_count: n }
    }
}

/// The prompt for a diff too large to send: the statistics, or the file
/// names when there are none.
pub fn stats_prompt(stats: &str, filenames: &str) -> (r: String)
    ensures
        r@ == (if stats@.len() > 0 {
            "Generate a concise commit message based on the following file change statistics:\n\n"@
                + stats@
        } else {
            "Generate a concise commit message for changes in these files:\n\n"@ + filenames@
        }),
{
    if !stats.is_empty() {
        let mut s = String::from_str(
            "Generate a concise commit message based on the following file change statistics:\n\n",
        );
        s.append(stats);
        s
    } else {
        let mut s = String::from_str(
            "Generate a concise commit message for changes in these files:\n\n",
        );
        s.append(filenames);
        s
    }
}

/// The text the prompt is built from: file names, statistics and diff.
pub fn compose_diff_context(filenames: &str, stats: &str, diff: &str) -> (r: String)
    ensures
        r@ == "Files changed:\n"@ + filenames@ + "\n\nChange statistics:\n"@ + stats@ + "\n\n"@
            + diff@,
{
    let mut s = String::from_str("Files changed:\n");
    s.append(filenames);
    s.append("\n\nChange statistics:\n");
    s.append(stats);
    s.append("\n\n");
    s.append(diff);
    s
}

/// `names` joined with line feeds.
pub open spec fn joined_lines(names: Seq<Seq<char>>) -> Seq<char>
    decreases names.len(),
{
    if names.len() == 0 {
        Seq::empty()
    } else if names.len() == 1 {
        names[0]
    } else {
        joined_lines(names.drop_last()) + seq!['\n'] + names.last()
    }
}

/// Joins file names with line feeds.
pub fn join_names(names: &Vec<String>) -> (r: String)
    ensures
        r@ == joined_lines(names@.map_values(|n: String| n@)),
{
    let ghost views = names@.map_values(|n: String| n@);
    let mut s = String::new();
    let mut i: usize = 0;
    while i < names.len()
        invariant
            views == names@.map_values(|n: String| n@),
            i <= names.len(),
            s@ == joined_lines(views.subrange(0, i as int)),
        decreases names.len() - i,
    {
        if i > 0 {
            s.append("\n");
        }
        s.append(names[i].as_str());
        proof {
            reveal_strlit("\n");
            let next = views.subrange(0, i + 1);
            assert(next.drop_last() =~= views.subrange(0, i as int));
            assert(next.last() == names[i as int]@);
            if i == 0 {
                assert(s@ =~= joined_lines(next));
            } else {
                assert(s@ =~= joined_lines(next));
            }
        }
        i = i + 1;
    }
    assert(views.subrange(0, names.len() as int) =~= views);
    s
}

/// The last line of the change statistics, trimmed: their summary line.
pub open spec fn stat_summary_text(stats: Seq<char>) -> Seq<char> {
    let ls = lines(stats);
    if ls.len() == 0 {
        Seq::empty()
    } else {
        trim(ls.last())
    }
}

/// The summary line of `git diff --stat`.
pub fn stat_summary(stats: &str) -> (r: String)
    ensures
        r@ == stat_summary_text(stats@),
{
    let s = chars_of(stats);
    let ranges = line_ranges(&s);
    if ranges.len() == 0 {
        String::new()
    } else {
        let (lo, hi) = ranges[ranges.len() - 1];
        let piece = slice(&s, lo, hi);
        let t = trim_vec(&piece);
        string_of(&t)
    }
}

/// The model name shown before a request: the model asked for or the
/// configured one when the vendor is configured, else the vendor's default
/// model, else `unknown`.
pub open spec fn display_model_text(
    config: Option<GlobalConfig>,
    vendor: Option<PromptModel>,
    model: Option<Seq<char>>,
) -> Seq<char> {
    let configured = match config {
        Some(cfg) => match cfg.selected(vendor) {
            Some((c, _)) => Some(
                match model {
                    Some(m) => m,
                    None => c.model@,
                },
            ),
            None => None,
        },
        None => None,
    };
    match configured {
        Some(m) => m,
        None => match vendor {
            Some(v) => default_model_name(v),
            None => "unknown"@,
        },
    }
}

/// Resolves the model name shown before a request.
pub fn resolve_display_model(
    config: Option<&GlobalConfig>,
    vendor: Option<PromptModel>,
    model: Option<&str>,
) -> (r: String)
    ensures
        r@ == display_model_text(
            match config {
                Some(c) => Some(*c),
                None => None,
            },
            vendor,
            opt_str(model),
        ),
{
    let found = match config {
        Some(cfg) => match cfg.model(vendor) {
            Some((c, _)) => Some(
                match model {
                    Some(m) => m.to_string(),
                    None => c.model.clone(),
                },
            ),
            None => None,
        },
        None => None,
    };
    match found {
        Some(m) => m,
        None => match vendor {
            Some(v) => v.default_model(),
            None => "unknown".to_string(),
        },
    }
}

/// What the first answer of the model leads to.
#[derive(Debug)]
pub enum AnswerOutcome {
    /// The answer is blank: the request fails.
    Blank,
    /// A valid subject was found.
    Subject(String),
    /// No valid subject: a repair request follows.
    NeedsRepair(SubjectError),
}

/// Decides what the first answer of the model leads to.
pub fn classify_answer(commit_message: &str) -> (r: AnswerOutcome)
    ensures
        trim(commit_message@).len() == 0 ==> r is Blank,
        trim(commit_message@).len() > 0 ==> match r {
            AnswerOutcome::Subject(s) => crate::commit_message::answer_subject(commit_message@)
                == Some(s@),
            AnswerOutcome::NeedsRepair(_) => crate::commit_message::answer_subject(
                commit_message@,
            ) is None,
            AnswerOutcome::Blank => false,
        },
{
    let v = chars_of(commit_message);
    let t = trim_vec(&v);
    if t.len() == 0 {
        return AnswerOutcome::Blank;
    }
    match extract_commit_subject_from_json_or_text(commit_message) {
        Ok(s) => AnswerOutcome::Subject(s),
        Err(e) => AnswerOutcome::NeedsRepair(e),
    }
}

/// The cause reported when repairing an answer failed: the repair request
/// itself, or the subject of its answer.
pub fn repair_failure_cause(err: &str, repair_err: &str, request_failed: bool) -> (r: String)
    ensures
        r@ == err@ + (if request_failed {
            "\nRepair request failed: "@
        } else {
            "\nRepair attempt also failed: "@
        }) + repair_err@,
{
    let mut s = String::from_str(err);
    if request_failed {
        s.append("\nRepair request failed: ");
    } else {
        s.append("\nRepair attempt also failed: ");
    }
    s.append(repair_err);
    s
}

pub open spec fn is_yes_answer(s: Seq<char>) -> bool {
    s == "y"@ || s == "Y"@ || s.len() == 0
}

fn yes_answer(s: &Vec<char>) -> (r: bool)
    ensures
        r == is_yes_answer(s@),
{
    proof {
        reveal_strlit("y");
        reveal_strlit("Y");
    }
    if s.len() == 0 {
        true
    } else if s.len() == 1 {
        assert(s@ == "y"@ <==> s@[0] == 'y') by {
            if s@[0] == 'y' {
                assert(s@ =~= "y"@);
            }
        }
        assert(s@ == "Y"@ <==> s@[0] == 'Y') by {
            if s@[0] == 'Y' {
                assert(s@ =~= "Y"@);
            }
        }
        s[0] == 'y' || s[0] == 'Y'
    } else {
        false
    }
}

/// Whether the answer to "Commit with this message?" accepts: `y`, `Y` or
/// nothing, around white space.
pub fn is_affirmative(input: &str) -> (r: bool)
    ensures
        r == is_yes_answer(trim(input@)),
{
    let v = chars_of(input);
    let t = trim_vec(&v);
    yes_answer(&t)
}

/// Whether the answer to "Push to remote?" accepts: `y`, `Y` or nothing,
/// once trailing line feeds and then carriage returns are removed.
pub fn push_answer_accepts(input: &str) -> (r: bool)
    ensures
        r == is_yes_answer(
            crate::text::drop_back(
                crate::text::drop_back(input@, CharClass::Exactly('\n')),
                CharClass::Exactly('\r'),
            ),
        ),
{
    let v = chars_of(input);
    let a = crate::text::drop_back_vec(&v, CharClass::Exactly('\n'));
    let b = crate::text::drop_back_vec(&a, CharClass::Exactly('\r'));
    yes_answer(&b)
}

/// The widest line of `ls[..n]`, in characters.
pub open spec fn widest_line(ls: Seq<Seq<char>>, n: int) -> nat
    decreases n,
{
    if n <= 0 {
        0
    } else {
        let w = widest_line(ls, n - 1);
        if ls[n - 1].len() > w {
            ls[n - 1].len()
        } else {
            w
        }
    }
}

/// The inner width of the box a commit message is shown in: its widest
/// line, and at least 40 characters.
pub open spec fn box_inner_width(msg: Seq<char>) -> nat {
    let w = widest_line(lines(msg), lines(msg).len() as int);
    if w > 40 {
        w
    } else {
        40
    }
}

/// Computes the inner width of the box a commit message is shown in.
pub fn commit_box_inner_width(msg: &str) -> (r: usize)
    ensures
        r == box_inner_width(msg@),
{
    let s = chars_of(msg);
    let ranges = line_ranges(&s);
    let ghost ls = lines(s@);
    let mut w: usize = 0;
    let mut i: usize = 0;
    while i < ranges.len()
        invariant
            s@ == msg@,
            ls == lines(s@),
            ranges.len() == ls.len(),
            forall|k: int|
                0 <= k < ranges.len() ==> {
                    &&& (#[trigger] ranges[k]).0 <= ranges[k].1 <= s.len()
                    &&& s@.subrange(ranges[k].0 as int, ranges[k].1 as int) == ls[k]
                },
            i <= ranges.len(),
            w == widest_line(ls, i as int),
        decreases ranges.len() - i,
    {
        let (lo, hi) = ranges[i];
        assert(ls[i as int].len() == hi - lo);
        if hi - lo > w {
            w = hi - lo;
        }
        i = i + 1;
    }
    if w > 40 {
        w
    } else {
        40
    }
}

// ---------------------------------------------------------------------
// Laws of the diff summary
// ---------------------------------------------------------------------
/// The code line budget and whether a hunk has begun, on reaching line
/// `k` from line `i` with `rem` left and hunk state `hunk`.
pub open spec fn state_at(ls: Seq<Seq<char>>, rem: nat, hunk: bool, max: nat, i: int, k: int) -> (
    nat,
    bool,
)
    decreases k - i,
{
    if i < 0 || i >= k || i >= ls.len() {
        (rem, hunk)
    } else {
        state_at(
            ls,
            next_budget(ls[i], hunk, rem, max),
            next_in_hunk(ls[i], hunk),
            max,
            i + 1,
            k,
        )
    }
}

proof fn lemma_keep_flags_skip(ls: Seq<Seq<char>>, i: int, rem: nat, hunk: bool, max: nat, k: int)
    requires
        0 <= i <= k <= ls.len(),
    ensures
        keep_flags(ls, i, rem, hunk, max).subrange(k - i, ls.len() - i) == keep_flags(
            ls,
            k,
            state_at(ls, rem, hunk, max, i, k).0,
            state_at(ls, rem, hunk, max, i, k).1,
            max,
        ),
    decreases k - i,
{
    lemma_keep_flags_len(ls, i, rem, hunk, max);
    if i == k {
        assert(keep_flags(ls, i, rem, hunk, max).subrange(0, ls.len() - i) =~= keep_flags(
            ls,
            i,
            rem,
            hunk,
            max,
        ));
    } else {
        let nb = next_budget(ls[i], hunk, rem, max);
        let nh = next_in_hunk(ls[i], hunk);
        lemma_keep_flags_skip(ls, i + 1, nb, nh, max, k);
        lemma_keep_flags_len(ls, i + 1, nb, nh, max);
        let f = keep_flags(ls, i, rem, hunk, max);
        let g = keep_flags(ls, i + 1, nb, nh, max);
        assert(f.subrange(1, f.len() as int) =~= g);
        assert(f.subrange(k - i, ls.len() - i) =~= g.subrange(k - (i + 1), ls.len() - (i + 1)));
    }
}

/// File headers, hunk headers and the other header lines (`index ...`
/// and the like) are always kept by the summary.
pub proof fn law_summary_keeps_header_lines(diff: Seq<char>, max: nat, k: int)
    requires
        0 <= k < lines(diff).len(),
        line_kind(lines(diff)[k]) != LineKind::Code,
        line_kind(lines(diff)[k]) != LineKind::FileNames,
    ensures
        truncation_flags(diff, max)[k],
{
    let ls = lines(diff);
    lemma_keep_flags_skip(ls, 0, 0, false, max, k);
    lemma_keep_flags_len(ls, 0, 0, false, max);
    let f = keep_flags(ls, 0, 0, false, max);
    assert(f[k] == f.subrange(k, ls.len() as int)[0]);
}

proof fn lemma_hunk_unchanged(ls: Seq<Seq<char>>, rem: nat, hunk: bool, max: nat, j: int, k: int)
    requires
        0 <= j <= k <= ls.len(),
        forall|m: int|
            j <= m < k ==> line_kind(#[trigger] ls[m]) != LineKind::HunkHeader && line_kind(ls[m])
                != LineKind::FileHeader,
    ensures
        state_at(ls, rem, hunk, max, j, k).1 == hunk,
    decreases k - j,
{
    if j < k {
        lemma_hunk_unchanged(ls, next_budget(ls[j], hunk, rem, max), hunk, max, j + 1, k);
    }
}

proof fn lemma_state_after_header(ls: Seq<Seq<char>>, i: int, rem: nat, hunk: bool, max: nat, h: int)
    requires
        0 <= i <= h < ls.len(),
        line_kind(ls[h]) == LineKind::FileHeader,
    ensures
        state_at(ls, rem, hunk, max, i, h + 1) == (max, false),
    decreases h - i,
{
    if i < h {
        lemma_state_after_header(
            ls,
            i + 1,
            next_budget(ls[i], hunk, rem, max),
            next_in_hunk(ls[i], hunk),
            max,
            h,
        );
    } else {
        assert(state_at(ls, max, false, max, h + 1, h + 1) == (max, false));
    }
}

proof fn lemma_state_split(ls: Seq<Seq<char>>, rem: nat, hunk: bool, max: nat, i: int, m: int, k: int)
    requires
        0 <= i <= m <= k <= ls.len(),
    ensures
        state_at(ls, rem, hunk, max, i, k) == state_at(
            ls,
            state_at(ls, rem, hunk, max, i, m).0,
            state_at(ls, rem, hunk, max, i, m).1,
            max,
            m,
            k,
        ),
    decreases m - i,
{
    if i < m {
        lemma_state_split(
            ls,
            next_budget(ls[i], hunk, rem, max),
            next_in_hunk(ls[i], hunk),
            max,
            i + 1,
            m,
            k,
        );
    }
}

/// The `---` and `+++` lines between a file header and that file's first
/// hunk header (the names of the old and the new file) are always kept.
pub proof fn law_summary_keeps_file_names(diff: Seq<char>, max: nat, h: int, k: int)
    requires
        0 <= h < k < lines(diff).len(),
        line_kind(lines(diff)[h]) == LineKind::FileHeader,
        forall|m: int|
            h < m < k ==> line_kind(#[trigger] lines(diff)[m]) != LineKind::HunkHeader && line_kind(
                lines(diff)[m],
            ) != LineKind::FileHeader,
        line_kind(lines(diff)[k]) == LineKind::FileNames,
    ensures
        truncation_flags(diff, max)[k],
{
    let ls = lines(diff);
    lemma_state_split(ls, 0, false, max, 0, h + 1, k);
    lemma_state_after_header(ls, 0, 0, false, max, h);
    lemma_hunk_unchanged(ls, max, false, max, h + 1, k);
    assert(state_at(ls, 0, false, max, 0, k).1 == false);
    lemma_keep_flags_skip(ls, 0, 0, false, max, k);
    lemma_keep_flags_len(ls, 0, 0, false, max);
    let f = keep_flags(ls, 0, 0, false, max);
    assert(f[k] == f.subrange(k, ls.len() as int)[0]);
}

/// The kept code lines from line `i` up to the next file header, where
/// `f[0]` tells whether line `i` is kept and `hunk` whether a hunk of the
/// file has begun.
pub open spec fn segment_kept_code(ls: Seq<Seq<char>>, f: Seq<bool>, i: int, hunk: bool) -> nat
    decreases ls.len() - i,
{
    if i < 0 || i >= ls.len() || f.len() == 0 {
        0
    } else {
        let nh = next_in_hunk(ls[i], hunk);
        match effective_kind(ls[i], hunk) {
            LineKind::FileHeader => 0,
            LineKind::Code => (if f[0] {
                1nat
            } else {
                0nat
            }) + segment_kept_code(ls, f.drop_first(), i + 1, nh),
            _ => segment_kept_code(ls, f.drop_first(), i + 1, nh),
        }
    }
}

proof fn lemma_segment_within_budget(ls: Seq<Seq<char>>, i: int, rem: nat, hunk: bool, max: nat)
    requires
        0 <= i <= ls.len(),
    ensures
        segment_kept_code(ls, keep_flags(ls, i, rem, hunk, max), i, hunk) <= rem,
    decreases ls.len() - i,
{
    if i < ls.len() {
        let f = keep_flags(ls, i, rem, hunk, max);
        let nb = next_budget(ls[i], hunk, rem, max);
        let nh = next_in_hunk(ls[i], hunk);
        if effective_kind(ls[i], hunk) != LineKind::FileHeader {
            lemma_segment_within_budget(ls, i + 1, nb, nh, max);
            assert(f.drop_first() =~= keep_flags(ls, i + 1, nb, nh, max));
        }
    }
}

/// After each file header the summary keeps at most `max` code lines
/// before the next file header; a `---` or `+++` line counts as a code
/// line once a hunk of the file has begun.
pub proof fn law_summary_code_lines_per_file(diff: Seq<char>, max: nat, h: int)
    requires
        0 <= h < lines(diff).len(),
        line_kind(lines(diff)[h]) == LineKind::FileHeader,
    ensures
        segment_kept_code(
            lines(diff),
            truncation_flags(diff, max).subrange(h + 1, lines(diff).len() as int),
            h + 1,
            false,
        ) <= max,
{
    let ls = lines(diff);
    lemma_keep_flags_skip(ls, 0, 0, false, max, h + 1);
    lemma_state_after_header(ls, 0, 0, false, max, h);
    lemma_segment_within_budget(ls, h + 1, max, false, max);
}


/// The lines of `ls`, each followed by a line feed.
pub open spec fn join_with_newlines(ls: Seq<Seq<char>>) -> Seq<char>
    decreases ls.len(),
{
    if ls.len() == 0 {
        Seq::empty()
    } else {
        ls[0] + seq!['\n'] + join_with_newlines(ls.drop_first())
    }
}

proof fn lemma_join_push(ls: Seq<Seq<char>>, x: Seq<char>)
    ensures
        join_with_newlines(ls.push(x)) == join_with_newlines(ls) + x + seq!['\n'],
    decreases ls.len(),
{
    if ls.len() == 0 {
        assert(ls.push(x).drop_first() =~= Seq::<Seq<char>>::empty());
        assert(join_with_newlines(Seq::<Seq<char>>::empty()) == Seq::<char>::empty());
        assert(ls.push(x)[0] == x);
        assert(join_with_newlines(ls.push(x)) == x + seq!['\n'] + join_with_newlines(ls.push(x).drop_first()));
        assert(join_with_newlines(ls.push(x)) =~= x + seq!['\n']);
    } else {
        lemma_join_push(ls.drop_first(), x);
        assert(ls.push(x).drop_first() =~= ls.drop_first().push(x));
        assert(join_with_newlines(ls.push(x)) =~= join_with_newlines(ls) + x + seq!['\n']);
    }
}

proof fn lemma_join_kept_all(ls: Seq<Seq<char>>, f: Seq<bool>, n: int)
    requires
        0 <= n <= ls.len(),
        n <= f.len(),
        forall|k: int| 0 <= k < n ==> f[k],
    ensures
        join_kept(ls, f, n) == join_with_newlines(ls.subrange(0, n)),
    decreases n,
{
    if n > 0 {
        lemma_join_kept_all(ls, f, n - 1);
        lemma_join_push(ls.subrange(0, n - 1), ls[n - 1]);
        assert(ls.subrange(0, n - 1).push(ls[n - 1]) =~= ls.subrange(0, n));
    }
}

proof fn lemma_join_lines_from(s: Seq<char>, i: int)
    requires
        0 <= i <= s.len(),
        s.len() == 0 || s.last() == '\n',
        !s.contains('\r'),
    ensures
        join_with_newlines(lines_from(s, i)) == s.subrange(i, s.len() as int),
    decreases s.len() - i,
{
    if i < s.len() {
        crate::text::lemma_find_in(s, CharClass::Exactly('\n'), i);
        let j = find_in(s, CharClass::Exactly('\n'), i);
        if j == s.len() {
            assert(s[s.len() - 1] == '\n');
            assert(false);
        }
        let piece = s.subrange(i, j);
        if piece.len() > 0 && piece.last() == '\r' {
            assert(s[j - 1] == '\r');
            assert(s.contains('\r'));
        }
        lemma_join_lines_from(s, j + 1);
        let ls = lines_from(s, i);
        assert(ls.drop_first() =~= lines_from(s, j + 1));
        assert(s.subrange(i, s.len() as int) =~= piece + seq!['\n'] + s.subrange(
            j + 1,
            s.len() as int,
        ));
    } else {
        assert(s.subrange(i, s.len() as int) =~= Seq::<char>::empty());
    }
}

/// When the summary leaves no line out, it is the diff's lines, each
/// followed by a line feed; a diff that ends with a line feed and holds no
/// carriage return then passes through unchanged.
pub proof fn law_summary_without_drops_is_identity(diff: Seq<char>, max: nat)
    requires
        !truncation_flags(diff, max).contains(false),
    ensures
        smart_truncated(diff, max) == join_with_newlines(lines(diff)),
        (diff.len() == 0 || diff.last() == '\n') && !diff.contains('\r') ==> smart_truncated(
            diff,
            max,
        ) == diff,
{
    let ls = lines(diff);
    let f = truncation_flags(diff, max);
    lemma_keep_flags_len(ls, 0, 0, false, max);
    assert forall|k: int| 0 <= k < ls.len() implies f[k] by {
        if !f[k] {
            assert(f.contains(false));
        }
    }
    lemma_join_kept_all(ls, f, ls.len() as int);
    assert(ls.subrange(0, ls.len() as int) =~= ls);
    if (diff.len() == 0 || diff.last() == '\n') && !diff.contains('\r') {
        lemma_join_lines_from(diff, 0);
        assert(diff.subrange(0, diff.len() as int) =~= diff);
    }
}

/// The code lines from line `i` up to the next file header, `hunk`
/// telling whether a hunk of the file has begun.
pub open spec fn code_lines_until_header(ls: Seq<Seq<char>>, i: int, hunk: bool) -> nat
    decreases ls.len() - i,
{
    if i < 0 || i >= ls.len() {
        0
    } else {
        let nh = next_in_hunk(ls[i], hunk);
        match effective_kind(ls[i], hunk) {
            LineKind::FileHeader => 0,
            LineKind::Code => 1 + code_lines_until_header(ls, i + 1, nh),
            _ => code_lines_until_header(ls, i + 1, nh),
        }
    }
}

/// No code line comes before the first file header, and each file has at
/// most `max` code lines.
pub open spec fn files_within(ls: Seq<Seq<char>>, max: nat) -> bool {
    &&& code_lines_until_header(ls, 0, false) == 0
    &&& forall|h: int|
        0 <= h < ls.len() && line_kind(#[trigger] ls[h]) == LineKind::FileHeader
            ==> code_lines_until_header(ls, h + 1, false) <= max
}

proof fn lemma_keep_all_within(ls: Seq<Seq<char>>, i: int, remaining: nat, hunk: bool, max: nat)
    requires
        0 <= i <= ls.len(),
        code_lines_until_header(ls, i, hunk) <= remaining,
        forall|h: int|
            i <= h < ls.len() && line_kind(#[trigger] ls[h]) == LineKind::FileHeader
                ==> code_lines_until_header(ls, h + 1, false) <= max,
    ensures
        !keep_flags(ls, i, remaining, hunk, max).contains(false),
    decreases ls.len() - i,
{
    if i < ls.len() {
        let nb = next_budget(ls[i], hunk, remaining, max);
        let nh = next_in_hunk(ls[i], hunk);
        lemma_keep_all_within(ls, i + 1, nb, nh, max);
        let rest = keep_flags(ls, i + 1, nb, nh, max);
        let f = keep_flags(ls, i, remaining, hunk, max);
        assert(f == seq![true] + rest);
        if f.contains(false) {
            let w = choose|w: int| 0 <= w < f.len() && f[w] == false;
            assert(rest[w - 1] == false);
        }
    }
}

/// When no code line comes before the first file header and no file has
/// more than `max` code lines, the summary leaves nothing out: it is the
/// diff's lines, each followed by a line feed, and so the diff itself when
/// it ends with a line feed and holds no carriage return.
pub proof fn law_summary_of_small_files_is_identity(diff: Seq<char>, max: nat)
    requires
        files_within(lines(diff), max),
    ensures
        smart_truncated(diff, max) == join_with_newlines(lines(diff)),
        (diff.len() == 0 || diff.last() == '\n') && !diff.contains('\r') ==> smart_truncated(
            diff,
            max,
        ) == diff,
{
    lemma_keep_all_within(lines(diff), 0, 0, false, max);
    law_summary_without_drops_is_identity(diff, max);
}

/// Whether line `l` is a line of code (added `+`, removed `-` or context
/// ` `), `in_hunk` telling whether a hunk of its file has begun: before
/// the first hunk, `---` and `+++` lines name the files instead.
pub open spec fn is_code_text(l: Seq<char>, in_hunk: bool) -> bool {
    &&& l.len() > 0
    &&& (l[0] == '+' || l[0] == '-' || l[0] == ' ')
    &&& (in_hunk || !(starts_with(l, "---"@) || starts_with(l, "+++"@)))
}

/// Whether a hunk has begun after line `l`: `diff --git` starts a new file,
/// `@@ ` a hunk.
pub open spec fn hunk_begun_after(l: Seq<char>, in_hunk: bool) -> bool {
    if starts_with(l, "diff --git"@) {
        false
    } else if starts_with(l, "@@ "@) {
        true
    } else {
        in_hunk
    }
}

/// How many of the lines from `i` up to the next `diff --git` line are
/// lines of code that `f` (from its first entry on) marks kept.
pub open spec fn kept_code_lines(ls: Seq<Seq<char>>, f: Seq<bool>, i: int, in_hunk: bool) -> nat
    decreases ls.len() - i,
{
    if i < 0 || i >= ls.len() || f.len() == 0 || starts_with(ls[i], "diff --git"@) {
        0
    } else {
        (if f[0] && is_code_text(ls[i], in_hunk) {
            1nat
        } else {
            0nat
        }) + kept_code_lines(ls, f.drop_first(), i + 1, hunk_begun_after(ls[i], in_hunk))
    }
}

proof fn lemma_header_literals()
    ensures
        "diff --git"@.len() == 10 && "diff --git"@[0] == 'd',
        "@@ "@.len() == 3 && "@@ "@[0] == '@',
        "---"@.len() == 3 && "---"@[0] == '-',
        "+++"@.len() == 3 && "+++"@[0] == '+',
{
    reveal_strlit("diff --git");
    reveal_strlit("@@ ");
    reveal_strlit("---");
    reveal_strlit("+++");
}

proof fn lemma_code_text_is_code(l: Seq<char>, in_hunk: bool)
    ensures
        is_code_text(l, in_hunk) <==> effective_kind(l, in_hunk) == LineKind::Code,
        hunk_begun_after(l, in_hunk) == next_in_hunk(l, in_hunk),
        starts_with(l, "diff --git"@) <==> effective_kind(l, in_hunk) == LineKind::FileHeader,
{
    lemma_header_literals();
    if starts_with(l, "diff --git"@) {
        assert(l[0] == "diff --git"@[0]);
    }
    if starts_with(l, "@@ "@) {
        assert(l[0] == "@@ "@[0]);
    }
    if starts_with(l, "---"@) {
        assert(l[0] == "---"@[0]);
    }
    if starts_with(l, "+++"@) {
        assert(l[0] == "+++"@[0]);
    }
}

proof fn lemma_kept_code_is_segment(ls: Seq<Seq<char>>, f: Seq<bool>, i: int, in_hunk: bool)
    ensures
        kept_code_lines(ls, f, i, in_hunk) == segment_kept_code(ls, f, i, in_hunk),
    decreases ls.len() - i,
{
    if !(i < 0 || i >= ls.len() || f.len() == 0) {
        lemma_code_text_is_code(ls[i], in_hunk);
        lemma_kept_code_is_segment(ls, f.drop_first(), i + 1, hunk_begun_after(ls[i], in_hunk));
    }
}

/// After each `diff --git` line, the summary keeps at most `max` lines of
/// code (added, removed or context lines, and `---`/`+++` lines once a
/// hunk has begun) before the next `diff --git` line.
pub proof fn law_summary_keeps_at_most_max_code_lines_per_file(diff: Seq<char>, max: nat, h: int)
    requires
        0 <= h < lines(diff).len(),
        starts_with(lines(diff)[h], "diff --git"@),
    ensures
        kept_code_lines(
            lines(diff),
            truncation_flags(diff, max).subrange(h + 1, lines(diff).len() as int),
            h + 1,
            false,
        ) <= max,
{
    lemma_code_text_is_code(lines(diff)[h], false);
    law_summary_code_lines_per_file(diff, max, h);
    lemma_kept_code_is_segment(
        lines(diff),
        truncation_flags(diff, max).subrange(h + 1, lines(diff).len() as int),
        h + 1,
        false,
    );
}

/// A line the summary leaves out is a line of code of a file that already
/// had `max` lines of code kept: every other line is kept.
pub proof fn law_summary_drops_only_code_lines(diff: Seq<char>, max: nat, k: int)
    requires
        0 <= k < lines(diff).len(),
        !truncation_flags(diff, max)[k],
    ensures
        is_code_text(lines(diff)[k], state_at(lines(diff), 0, false, max, 0, k).1),
{
    let ls = lines(diff);
    lemma_keep_flags_skip(ls, 0, 0, false, max, k);
    lemma_keep_flags_len(ls, 0, 0, false, max);
    let f = keep_flags(ls, 0, 0, false, max);
    assert(f[k] == f.subrange(k, ls.len() as int)[0]);
    lemma_code_text_is_code(ls[k], state_at(ls, 0, false, max, 0, k).1);
}

} // verus!
