//! Extracting a Conventional Commit subject from what a language model
//! answered: first from a JSON object `{"subject": ...}`, then from the text.
use crate::text::{
    CharClass, chars_of, drop_back, drop_back_vec, drop_front, find_class, find_in, in_class, is_ws, lemma_find_in, lemma_lines_concat, lemma_lines_single, line_ranges, lines, opt_string_view, push_all,
    slice, string_of, trim, trim_char, trim_char_vec, trim_end, trim_end_vec, trim_vec,
};
use vstd::prelude::*;

verus! {

broadcast use vstd::string::group_string_axioms;

/// The one error of subject extraction.
#[derive(Debug, Clone, Copy, PartialEq, Eq, Structural)]
pub enum SubjectError {
    /// No valid Conventional Commit subject could be found.
    InvalidSubject,
}

impl SubjectError {
    /// The message shown for this error.
    pub fn to_string(&self) -> (s: String)
        ensures
            s@ == "LLM did not return a valid conventional commit subject."@,
    {
        "LLM did not return a valid conventional commit subject.".to_string()
    }
}

/// `Some` of the view of a present vector.
pub open spec fn opt_view(o: Option<Vec<char>>) -> Option<Seq<char>> {
    match o {
        Some(v) => Some(v@),
        None => None,
    }
}

/// `Ok` of a subject, or the error, as an `Option` of its view.
pub open spec fn result_view(r: Result<String, SubjectError>) -> Option<Seq<char>> {
    match r {
        Ok(s) => Some(s@),
        Err(_) => None,
    }
}

/// The commit types that a subject may start with, in the order in which
/// they are searched for.
pub open spec fn commit_type_names() -> Seq<Seq<char>> {
    seq![
        seq!['f', 'e', 'a', 't'],
        seq!['f', 'i', 'x'],
        seq!['d', 'o', 'c', 's'],
        seq!['s', 't', 'y', 'l', 'e'],
        seq!['r', 'e', 'f', 'a', 'c', 't', 'o', 'r'],
        seq!['p', 'e', 'r', 'f'],
        seq!['t', 'e', 's', 't'],
        seq!['c', 'h', 'o', 'r', 'e'],
        seq!['c', 'i'],
        seq!['b', 'u', 'i', 'l', 'd'],
    ]
}

pub open spec fn is_commit_type(t: Seq<char>) -> bool {
    commit_type_names().contains(t)
}

/// A line with surrounding white space, backticks and quotes removed.
pub open spec fn clean_line(l: Seq<char>) -> Seq<char> {
    trim(trim_char(trim_char(trim_char(trim(l), '`'), '"'), '\''))
}

/// The code of `c` with ASCII upper case folded to lower case.
pub open spec fn ascii_fold(c: char) -> u32 {
    if 'A' <= c && c <= 'Z' {
        (c as u32 + 32) as u32
    } else {
        c as u32
    }
}

/// `str::eq_ignore_ascii_case` against an ASCII pattern.
pub open spec fn eq_ignore_ascii_case(a: Seq<char>, b: Seq<char>) -> bool {
    &&& a.len() == b.len()
    &&& forall|i: int| 0 <= i < a.len() ==> ascii_fold(#[trigger] a[i]) == ascii_fold(b[i])
}

pub open spec fn think_open_tag() -> Seq<char> {
    seq!['<', 't', 'h', 'i', 'n', 'k', '>']
}

pub open spec fn think_close_tag() -> Seq<char> {
    seq!['<', '/', 't', 'h', 'i', 'n', 'k', '>']
}

/// The first index at or after `i` where `": "` starts, or the length of `l`.
pub open spec fn find_colon_space(l: Seq<char>, i: int) -> int
    decreases l.len() - i,
{
    if i + 1 >= l.len() {
        l.len() as int
    } else if l[i] == ':' && l[i + 1] == ' ' {
        i
    } else {
        find_colon_space(l, i + 1)
    }
}

/// `p` without one trailing `!`.
pub open spec fn strip_bang(p: Seq<char>) -> Seq<char> {
    if p.len() > 0 && p.last() == '!' {
        p.drop_last()
    } else {
        p
    }
}

/// Splits `type(scope)` into its type and non-empty scope, or reads `p`
/// whole as a type when it holds no `(`; `None` when the part after the
/// first `(` is not a non-empty scope closed by `)`.
pub open spec fn split_type_scope(p: Seq<char>) -> Option<(Seq<char>, Option<Seq<char>>)> {
    let k = find_in(p, CharClass::Exactly('('), 0);
    if k < p.len() {
        let rest = p.subrange(k + 1, p.len() as int);
        if rest.len() >= 2 && rest.last() == ')' {
            Some((p.subrange(0, k), Some(rest.drop_last())))
        } else {
            None
        }
    } else {
        Some((p, None))
    }
}

/// A Conventional Commit subject: `type(scope)!: subject` where the scope
/// and the `!` are optional, the type is one of the commit types, and the
/// subject after the first `": "` is not blank.
pub open spec fn is_conventional_subject(l: Seq<char>) -> bool {
    let j = find_colon_space(l, 0);
    &&& j < l.len()
    &&& trim(l.subrange(j + 2, l.len() as int)).len() > 0
    &&& match split_type_scope(strip_bang(l.subrange(0, j))) {
        Some((t, _)) => is_commit_type(t),
        None => false,
    }
}

/// Scanning the lines from `i` on, with or without an open `<think>` block,
/// for the last line that is a subject once cleaned.
pub open spec fn strict_from(
    ls: Seq<Seq<char>>,
    i: int,
    think: bool,
    last: Option<Seq<char>>,
) -> Option<Seq<char>>
    decreases ls.len() - i,
{
    if i < 0 || i >= ls.len() {
        last
    } else {
        let l = clean_line(ls[i]);
        if eq_ignore_ascii_case(l, think_open_tag()) {
            strict_from(ls, i + 1, true, last)
        } else if eq_ignore_ascii_case(l, think_close_tag()) {
            strict_from(ls, i + 1, false, last)
        } else if think {
            strict_from(ls, i + 1, think, last)
        } else if is_conventional_subject(l) {
            strict_from(ls, i + 1, think, Some(l))
        } else {
            strict_from(ls, i + 1, think, last)
        }
    }
}

/// The last line outside `<think>` blocks that, cleaned, is a subject.
pub open spec fn strict_subject(raw: Seq<char>) -> Option<Seq<char>> {
    strict_from(lines(raw), 0, false, None)
}

/// Whether `t` occurs in `p` at index `i`.
pub open spec fn occurs_at(p: Seq<char>, t: Seq<char>, i: int) -> bool {
    &&& 0 <= i
    &&& i + t.len() <= p.len()
    &&& p.subrange(i, i + t.len()) == t
}

/// The last index below `n` at which `t` occurs in `p`.
pub open spec fn rfind_below(p: Seq<char>, t: Seq<char>, n: nat) -> Option<int>
    decreases n,
{
    if n == 0 {
        None
    } else if occurs_at(p, t, n - 1) {
        Some(n - 1)
    } else {
        rfind_below(p, t, (n - 1) as nat)
    }
}

/// `str::rfind`: the last index at which `t` occurs in `p`.
pub open spec fn rfind(p: Seq<char>, t: Seq<char>) -> Option<int> {
    rfind_below(p, t, p.len())
}

/// The greatest last-occurrence index of the types `ts[k..]`, the earlier
/// type winning a tie, starting from `best`.
pub open spec fn best_type_start(
    p: Seq<char>,
    ts: Seq<Seq<char>>,
    k: int,
    best: Option<int>,
) -> Option<int>
    decreases ts.len() - k,
{
    if k < 0 || k >= ts.len() {
        best
    } else {
        match rfind(p, ts[k]) {
            Some(idx) => if best is None || idx > best->0 {
                best_type_start(p, ts, k + 1, Some(idx))
            } else {
                best_type_start(p, ts, k + 1, best)
            },
            None => best_type_start(p, ts, k + 1, best),
        }
    }
}

/// The part of `prefix` (trimmed at its end) from the last place where a
/// commit type starts.
pub open spec fn candidate_prefix(prefix: Seq<char>) -> Option<Seq<char>> {
    let p = trim_end(prefix);
    match best_type_start(p, commit_type_names(), 0, None) {
        Some(idx) => Some(trim_end(p.subrange(idx, p.len() as int))),
        None => None,
    }
}

/// A subject found in running text: trimmed, cut at the first quote and
/// stripped of trailing punctuation.
pub open spec fn clean_relaxed_subject(s: Seq<char>) -> Seq<char> {
    let t = trim(s);
    drop_back(t.subrange(0, find_in(t, CharClass::Quote, 0)), CharClass::TrailingPunct)
}

/// `type(scope)!: subject`, with the scope and the `!` where present.
pub open spec fn format_subject(
    t: Seq<char>,
    scope: Option<Seq<char>>,
    breaking: bool,
    subject: Seq<char>,
) -> Seq<char> {
    let head = match scope {
        Some(s) => t + seq!['('] + s + seq![')'],
        None => t,
    };
    head + (if breaking {
        seq!['!']
    } else {
        Seq::empty()
    }) + seq![':', ' '] + subject
}

/// The subject that the text around one `": "` of a line makes: `prefix`
/// is what stands before it, `subject` what follows it.
pub open spec fn build_candidate(prefix: Seq<char>, subject: Seq<char>) -> Option<Seq<char>> {
    match candidate_prefix(prefix) {
        None => None,
        Some(p) => {
            let breaking = p.len() > 0 && p.last() == '!';
            match split_type_scope(strip_bang(p)) {
                None => None,
                Some((t, scope)) => {
                    let subj = clean_relaxed_subject(subject);
                    if !is_commit_type(t) || subj.len() == 0 {
                        None
                    } else {
                        Some(format_subject(t, scope, breaking, subj))
                    }
                },
            }
        },
    }
}

/// The subject built at the last `": "` of `line` from index `i` on that
/// makes one, or `last`.
pub open spec fn line_candidate_from(line: Seq<char>, i: int, last: Option<Seq<char>>) -> Option<
    Seq<char>,
>
    decreases line.len() - i,
{
    if i < 0 || i + 1 >= line.len() {
        last
    } else if line[i] == ':' && line[i + 1] == ' ' {
        match build_candidate(line.subrange(0, i), line.subrange(i + 2, line.len() as int)) {
            Some(c) => line_candidate_from(line, i + 1, Some(c)),
            None => line_candidate_from(line, i + 1, last),
        }
    } else {
        line_candidate_from(line, i + 1, last)
    }
}

pub open spec fn line_candidate(line: Seq<char>) -> Option<Seq<char>> {
    line_candidate_from(line, 0, None)
}

/// Scanning the lines from `i` on for the last subject embedded in a line.
pub open spec fn relaxed_from(
    ls: Seq<Seq<char>>,
    i: int,
    think: bool,
    last: Option<Seq<char>>,
) -> Option<Seq<char>>
    decreases ls.len() - i,
{
    if i < 0 || i >= ls.len() {
        last
    } else {
        let l = trim(ls[i]);
        if eq_ignore_ascii_case(l, think_open_tag()) {
            relaxed_from(ls, i + 1, true, last)
        } else if eq_ignore_ascii_case(l, think_close_tag()) {
            relaxed_from(ls, i + 1, false, last)
        } else if think {
            relaxed_from(ls, i + 1, think, last)
        } else {
            match line_candidate(l) {
                Some(c) => relaxed_from(ls, i + 1, think, Some(c)),
                None => relaxed_from(ls, i + 1, think, last),
            }
        }
    }
}

/// The last subject embedded in a line outside `<think>` blocks.
pub open spec fn relaxed_subject(raw: Seq<char>) -> Option<Seq<char>> {
    relaxed_from(lines(raw), 0, false, None)
}

/// The subject of a model's text answer: a line that is a subject wins over
/// a subject embedded in running text.
pub open spec fn extracted_subject(raw: Seq<char>) -> Option<Seq<char>> {
    match strict_subject(raw) {
        Some(s) => Some(s),
        None => relaxed_subject(raw),
    }
}

/// A subject given on its own, cleaned, if it is valid.
pub open spec fn validated_subject(subject: Seq<char>) -> Option<Seq<char>> {
    let c = clean_line(subject);
    if is_conventional_subject(c) {
        Some(c)
    } else {
        None
    }
}

pub open spec fn fence() -> Seq<char> {
    seq!['`', '`', '`']
}

/// `s` without the prefix `p`, where it starts with it.
pub open spec fn strip_prefix(s: Seq<char>, p: Seq<char>) -> Seq<char> {
    if p.len() <= s.len() && s.subrange(0, p.len() as int) == p {
        s.subrange(p.len() as int, s.len() as int)
    } else {
        s
    }
}

/// `s` without the suffix `p`, where it ends with it.
pub open spec fn strip_suffix(s: Seq<char>, p: Seq<char>) -> Seq<char> {
    if p.len() <= s.len() && s.subrange(s.len() - p.len(), s.len() as int) == p {
        s.subrange(0, s.len() - p.len())
    } else {
        s
    }
}

/// A model's answer with a surrounding Markdown code fence removed.
pub open spec fn clean_json_response(raw: Seq<char>) -> Seq<char> {
    let a = strip_prefix(trim(raw), fence() + seq!['j', 's', 'o', 'n']);
    let b = strip_prefix(a, fence() + seq!['t', 'e', 'x', 't']);
    let c = strip_prefix(b, fence());
    trim(strip_suffix(c, fence()))
}

/// The subject of an answer: the JSON `subject` field when there is one
/// (valid or not), else the subject found in the text.
pub open spec fn subject_from_json_or_text(
    raw: Seq<char>,
    json_subject: Option<Seq<char>>,
) -> Option<Seq<char>> {
    match json_subject {
        Some(s) => validated_subject(s),
        None => extracted_subject(raw),
    }
}

/// The string value stored under `key` in the JSON object that `text`
/// holds, if `text` parses as JSON and that value is a string.
pub uninterp spec fn json_string_field(text: Seq<char>, key: Seq<char>) -> Option<Seq<char>>;

/// Parses `text` with `serde_json::from_str` into a `serde_json::Value`,
/// reads the entry `key` with `Value::get` and its string with
/// `Value::as_str`. The result is named `json_string_field`; nothing more
/// of JSON syntax is stated.
#[verifier::external_body]
fn json_object_string_field(text: &str, key: &str) -> (r: Option<String>)
    ensures
        opt_string_view(r) == json_string_field(text@, key@),
{
    let value: serde_json::Value = serde_json::from_str(text).ok()?;
    value.get(key)?.as_str().map(|v| v.to_string())
}

// ---------------------------------------------------------------------
// Executable counterparts
// ---------------------------------------------------------------------
fn same_chars(a: &Vec<char>, b: &Vec<char>) -> (r: bool)
    ensures
        r == (a@ == b@),
{
    if a.len() != b.len() {
        return false;
    }
    let mut i: usize = 0;
    while i < a.len()
        invariant
            a.len() == b.len(),
            i <= a.len(),
            forall|k: int| 0 <= k < i ==> a@[k] == b@[k],
        decreases a.len() - i,
    {
        if a[i] != b[i] {
            return false;
        }
        i = i + 1;
    }
    assert(a@ =~= b@);
    true
}

fn commit_types() -> (v: Vec<Vec<char>>)
    ensures
        v.len() == commit_type_names().len(),
        forall|k: int| 0 <= k < v.len() ==> (#[trigger] v[k])@ == commit_type_names()[k],
{
    let v: Vec<Vec<char>> = vec![
        vec!['f', 'e', 'a', 't'],
        vec!['f', 'i', 'x'],
        vec!['d', 'o', 'c', 's'],
        vec!['s', 't', 'y', 'l', 'e'],
        vec!['r', 'e', 'f', 'a', 'c', 't', 'o', 'r'],
        vec!['p', 'e', 'r', 'f'],
        vec!['t', 'e', 's', 't'],
        vec!['c', 'h', 'o', 'r', 'e'],
        vec!['c', 'i'],
        vec!['b', 'u', 'i', 'l', 'd'],
    ];
    v
}

fn is_commit_type_vec(t: &Vec<char>) -> (r: bool)
    ensures
        r == is_commit_type(t@),
{
    let types = commit_types();
    let mut k: usize = 0;
    while k < types.len()
        invariant
            types.len() == commit_type_names().len(),
            forall|j: int| 0 <= j < types.len() ==> (#[trigger] types[j])@ == commit_type_names()[j],
            k <= types.len(),
            forall|j: int| 0 <= j < k ==> commit_type_names()[j] != t@,
        decreases types.len() - k,
    {
        if same_chars(&types[k], t) {
            assert(commit_type_names()[k as int] == t@);
            return true;
        }
        k = k + 1;
    }
    false
}

fn clean_line_vec(l: &Vec<char>) -> (r: Vec<char>)
    ensures
        r@ == clean_line(l@),
{
    let a = trim_vec(l);
    let b = trim_char_vec(&a, '`');
    let c = trim_char_vec(&b, '"');
    let d = trim_char_vec(&c, '\'');
    trim_vec(&d)
}

fn fold_code(c: char) -> (r: u32)
    ensures
        r == ascii_fold(c),
{
    if 'A' <= c && c <= 'Z' {
        (c as u32) + 32
    } else {
        c as u32
    }
}

fn eq_ignore_case_vec(a: &Vec<char>, b: &Vec<char>) -> (r: bool)
    ensures
        r == eq_ignore_ascii_case(a@, b@),
{
    if a.len() != b.len() {
        return false;
    }
    let mut i: usize = 0;
    while i < a.len()
        invariant
            a.len() == b.len(),
            i <= a.len(),
            forall|k: int| 0 <= k < i ==> ascii_fold(#[trigger] a@[k]) == ascii_fold(b@[k]),
        decreases a.len() - i,
    {
        if fold_code(a[i]) != fold_code(b[i]) {
            return false;
        }
        i = i + 1;
    }
    true
}

fn is_think_open(l: &Vec<char>) -> (r: bool)
    ensures
        r == eq_ignore_ascii_case(l@, think_open_tag()),
{
    let tag: Vec<char> = vec!['<', 't', 'h', 'i', 'n', 'k', '>'];
    assert(tag@ == think_open_tag());
    eq_ignore_case_vec(l, &tag)
}

fn is_think_close(l: &Vec<char>) -> (r: bool)
    ensures
        r == eq_ignore_ascii_case(l@, think_close_tag()),
{
    let tag: Vec<char> = vec!['<', '/', 't', 'h', 'i', 'n', 'k', '>'];
    assert(tag@ == think_close_tag());
    eq_ignore_case_vec(l, &tag)
}

fn find_colon_space_vec(l: &Vec<char>) -> (r: usize)
    ensures
        r == find_colon_space(l@, 0),
        r <= l.len(),
{
    let mut i: usize = 0;
    while i < l.len() && i + 1 < l.len() && !(l[i] == ':' && l[i + 1] == ' ')
        invariant
            i <= l.len(),
            find_colon_space(l@, 0) == find_colon_space(l@, i as int),
        decreases l.len() - i,
    {
        i = i + 1;
    }
    if i < l.len() && i + 1 < l.len() {
        i
    } else {
        l.len()
    }
}

fn strip_bang_vec(p: &Vec<char>) -> (r: Vec<char>)
    ensures
        r@ == strip_bang(p@),
{
    if p.len() > 0 && p[p.len() - 1] == '!' {
        slice(p, 0, p.len() - 1)
    } else {
        slice(p, 0, p.len())
    }
}

/// The view of a split into type and scope.
pub open spec fn split_view(o: Option<(Vec<char>, Option<Vec<char>>)>) -> Option<
    (Seq<char>, Option<Seq<char>>),
> {
    match o {
        Some((t, s)) => Some((t@, opt_view(s))),
        None => None,
    }
}

fn split_type_scope_vec(p: &Vec<char>) -> (r: Option<(Vec<char>, Option<Vec<char>>)>)
    ensures
        split_view(r) == split_type_scope(p@),
{
    let k = find_class(p, 0, p.len(), CharClass::Exactly('('));
    assert(p@.subrange(0, p.len() as int) =~= p@);
    if k < p.len() {
        let rest = slice(p, k + 1, p.len());
        if rest.len() >= 2 && rest[rest.len() - 1] == ')' {
            let ty = slice(p, 0, k);
            let scope = slice(&rest, 0, rest.len() - 1);
            assert(scope@ =~= rest@.drop_last());
            Some((ty, Some(scope)))
        } else {
            None
        }
    } else {
        Some((slice(p, 0, p.len()), None))
    }
}

fn is_conventional_vec(l: &Vec<char>) -> (r: bool)
    ensures
        r == is_conventional_subject(l@),
{
    let j = find_colon_space_vec(l);
    if j >= l.len() {
        return false;
    }
    proof {
        lemma_find_colon_space(l@, 0);
    }
    let subject = slice(l, j + 2, l.len());
    let trimmed = trim_vec(&subject);
    if trimmed.len() == 0 {
        return false;
    }
    let prefix = slice(l, 0, j);
    let p = strip_bang_vec(&prefix);
    match split_type_scope_vec(&p) {
        Some((t, _)) => is_commit_type_vec(&t),
        None => false,
    }
}

pub proof fn lemma_find_colon_space(l: Seq<char>, i: int)
    requires
        0 <= i <= l.len(),
    ensures
        i <= find_colon_space(l, i) <= l.len(),
        find_colon_space(l, i) < l.len() ==> find_colon_space(l, i) + 1 < l.len() && l[find_colon_space(l, i)] == ':' && l[find_colon_space(l, i) + 1] == ' ',
    decreases l.len() - i,
{
    if i + 1 < l.len() && !(l[i] == ':' && l[i + 1] == ' ') {
        lemma_find_colon_space(l, i + 1);
    }
}

fn occurs_at_vec(p: &Vec<char>, t: &Vec<char>, i: usize) -> (r: bool)
    ensures
        r == occurs_at(p@, t@, i as int),
{
    if t.len() > p.len() || i > p.len() - t.len() {
        return false;
    }
    let mut k: usize = 0;
    while k < t.len()
        invariant
            i + t.len() <= p.len(),
            k <= t.len(),
            forall|j: int| 0 <= j < k ==> p@[i + j] == t@[j],
        decreases t.len() - k,
    {
        if p[i + k] != t[k] {
            assert(p@.subrange(i as int, i + t.len())[k as int] != t@[k as int]);
            return false;
        }
        k = k + 1;
    }
    assert(p@.subrange(i as int, i + t.len()) =~= t@);
    true
}

fn rfind_vec(p: &Vec<char>, t: &Vec<char>) -> (r: Option<usize>)
    ensures
        match r {
            Some(i) => rfind(p@, t@) == Some(i as int),
            None => rfind(p@, t@) is None,
        },
{
    let mut n: usize = p.len();
    while n > 0
        invariant
            n <= p.len(),
            rfind(p@, t@) == rfind_below(p@, t@, n as nat),
        decreases n,
    {
        if occurs_at_vec(p, t, n - 1) {
            return Some(n - 1);
        }
        n = n - 1;
    }
    None
}

fn candidate_prefix_vec(prefix: &Vec<char>) -> (r: Option<Vec<char>>)
    ensures
        opt_view(r) == candidate_prefix(prefix@),
{
    let p = trim_end_vec(prefix);
    let types = commit_types();
    let mut best: Option<usize> = None;
    let mut k: usize = 0;
    while k < types.len()
        invariant
            types.len() == commit_type_names().len(),
            forall|j: int| 0 <= j < types.len() ==> (#[trigger] types[j])@ == commit_type_names()[j],
            k <= types.len(),
            best_type_start(p@, commit_type_names(), 0, None) == best_type_start(
                p@,
                commit_type_names(),
                k as int,
                match best {
                    Some(b) => Some(b as int),
                    None => None,
                },
            ),
            best matches Some(b) ==> b <= p.len(),
        decreases types.len() - k,
    {
        let found = rfind_vec(&p, &types[k]);
        proof {
            lemma_rfind_bound(p@, types[k as int]@, p.len() as nat);
        }
        match found {
            Some(idx) => {
                let better = match best {
                    Some(b) => idx > b,
                    None => true,
                };
                if better {
                    best = Some(idx);
                }
            },
            None => {},
        }
        k = k + 1;
    }
    match best {
        Some(b) => {
            let tail = slice(&p, b, p.len());
            Some(trim_end_vec(&tail))
        },
        None => None,
    }
}

proof fn lemma_rfind_bound(p: Seq<char>, t: Seq<char>, n: nat)
    ensures
        rfind_below(p, t, n) matches Some(i) ==> 0 <= i < n && i <= p.len(),
    decreases n,
{
    if n > 0 && !occurs_at(p, t, n - 1) {
        lemma_rfind_bound(p, t, (n - 1) as nat);
    }
}

fn clean_relaxed_subject_vec(s: &Vec<char>) -> (r: Vec<char>)
    ensures
        r@ == clean_relaxed_subject(s@),
{
    let t = trim_vec(s);
    let e = find_class(&t, 0, t.len(), CharClass::Quote);
    assert(t@.subrange(0, t.len() as int) =~= t@);
    let u = slice(&t, 0, e);
    drop_back_vec(&u, CharClass::TrailingPunct)
}

fn build_candidate_vec(prefix: &Vec<char>, subject: &Vec<char>) -> (r: Option<Vec<char>>)
    ensures
        opt_view(r) == build_candidate(prefix@, subject@),
{
    let p = match candidate_prefix_vec(prefix) {
        Some(p) => p,
        None => {
            return None;
        },
    };
    let breaking = p.len() > 0 && p[p.len() - 1] == '!';
    let unbanged = strip_bang_vec(&p);
    let (t, scope) = match split_type_scope_vec(&unbanged) {
        Some(ts) => ts,
        None => {
            return None;
        },
    };
    let subj = clean_relaxed_subject_vec(subject);
    if !is_commit_type_vec(&t) || subj.len() == 0 {
        return None;
    }
    let mut out: Vec<char> = Vec::new();
    push_all(&mut out, &t);
    match scope {
        Some(s) => {
            out.push('(');
            push_all(&mut out, &s);
            out.push(')');
        },
        None => {},
    }
    if breaking {
        out.push('!');
    }
    out.push(':');
    out.push(' ');
    push_all(&mut out, &subj);
    assert(out@ =~= format_subject(t@, opt_view(scope), breaking, subj@));
    Some(out)
}

fn line_candidate_vec(line: &Vec<char>) -> (r: Option<Vec<char>>)
    ensures
        opt_view(r) == line_candidate(line@),
{
    let mut last: Option<Vec<char>> = None;
    let mut i: usize = 0;
    while i < line.len() && i + 1 < line.len()
        invariant
            i <= line.len(),
            line_candidate(line@) == line_candidate_from(line@, i as int, opt_view(last)),
        decreases line.len() - i,
    {
        if line[i] == ':' && line[i + 1] == ' ' {
            let prefix = slice(line, 0, i);
            let subject = slice(line, i + 2, line.len());
            match build_candidate_vec(&prefix, &subject) {
                Some(c) => {
                    last = Some(c);
                },
                None => {},
            }
        }
        i = i + 1;
    }
    last
}

fn extract_strict(raw: &Vec<char>) -> (r: Option<Vec<char>>)
    ensures
        opt_view(r) == strict_subject(raw@),
{
    let ranges = line_ranges(raw);
    let ghost ls = lines(raw@);
    let mut last: Option<Vec<char>> = None;
    let mut think = false;
    let mut i: usize = 0;
    while i < ranges.len()
        invariant
            ls == lines(raw@),
            ranges.len() == ls.len(),
            forall|k: int|
                0 <= k < ranges.len() ==> {
                    &&& (#[trigger] ranges[k]).0 <= ranges[k].1 <= raw.len()
                    &&& raw@.subrange(ranges[k].0 as int, ranges[k].1 as int) == ls[k]
                },
            i <= ranges.len(),
            strict_subject(raw@) == strict_from(ls, i as int, think, opt_view(last)),
        decreases ranges.len() - i,
    {
        let (lo, hi) = ranges[i];
        let piece = slice(raw, lo, hi);
        let l = clean_line_vec(&piece);
        if is_think_open(&l) {
            think = true;
        } else if is_think_close(&l) {
            think = false;
        } else if think {
        } else if is_conventional_vec(&l) {
            last = Some(l);
        }
        i = i + 1;
    }
    last
}

fn extract_relaxed(raw: &Vec<char>) -> (r: Option<Vec<char>>)
    ensures
        opt_view(r) == relaxed_subject(raw@),
{
    let ranges = line_ranges(raw);
    let ghost ls = lines(raw@);
    let mut last: Option<Vec<char>> = None;
    let mut think = false;
    let mut i: usize = 0;
    while i < ranges.len()
        invariant
            ls == lines(raw@),
            ranges.len() == ls.len(),
            forall|k: int|
                0 <= k < ranges.len() ==> {
                    &&& (#[trigger] ranges[k]).0 <= ranges[k].1 <= raw.len()
                    &&& raw@.subrange(ranges[k].0 as int, ranges[k].1 as int) == ls[k]
                },
            i <= ranges.len(),
            relaxed_subject(raw@) == relaxed_from(ls, i as int, think, opt_view(last)),
        decreases ranges.len() - i,
    {
        let (lo, hi) = ranges[i];
        let piece = slice(raw, lo, hi);
        let l = trim_vec(&piece);
        if is_think_open(&l) {
            think = true;
        } else if is_think_close(&l) {
            think = false;
        } else if think {
        } else {
            match line_candidate_vec(&l) {
                Some(c) => {
                    last = Some(c);
                },
                None => {},
            }
        }
        i = i + 1;
    }
    last
}

fn to_result(o: Option<Vec<char>>) -> (r: Result<String, SubjectError>)
    ensures
        result_view(r) == opt_view(o),
{
    match o {
        Some(v) => Ok(string_of(&v)),
        None => Err(SubjectError::InvalidSubject),
    }
}

/// Finds the Conventional Commit subject in a model's text answer: the last
/// line (outside `<think>` blocks) that is a subject, else the last subject
/// embedded in a line of running text.
pub fn extract_commit_subject(raw: &str) -> (r: Result<String, SubjectError>)
    ensures
        result_view(r) == extracted_subject(raw@),
{
    let v = chars_of(raw);
    match extract_strict(&v) {
        Some(s) => Ok(string_of(&s)),
        None => to_result(extract_relaxed(&v)),
    }
}

/// Whether `line` is a Conventional Commit subject as it stands.
pub fn is_conventional_commit_subject(line: &str) -> (r: bool)
    ensures
        r == is_conventional_subject(line@),
{
    let v = chars_of(line);
    is_conventional_vec(&v)
}

/// Validates a subject given on its own, after cleaning it.
pub fn validate_commit_subject(subject: &str) -> (r: Result<String, SubjectError>)
    ensures
        result_view(r) == validated_subject(subject@),
{
    let v = chars_of(subject);
    let c = clean_line_vec(&v);
    if is_conventional_vec(&c) {
        Ok(string_of(&c))
    } else {
        Err(SubjectError::InvalidSubject)
    }
}

fn strip_prefix_vec(s: &Vec<char>, p: &Vec<char>) -> (r: Vec<char>)
    ensures
        r@ == strip_prefix(s@, p@),
{
    if p.len() <= s.len() {
        let head = slice(s, 0, p.len());
        if same_chars(&head, p) {
            return slice(s, p.len(), s.len());
        }
    }
    slice(s, 0, s.len())
}

fn strip_suffix_vec(s: &Vec<char>, p: &Vec<char>) -> (r: Vec<char>)
    ensures
        r@ == strip_suffix(s@, p@),
{
    if p.len() <= s.len() {
        let tail = slice(s, s.len() - p.len(), s.len());
        if same_chars(&tail, p) {
            return slice(s, 0, s.len() - p.len());
        }
    }
    slice(s, 0, s.len())
}

/// Removes a Markdown code fence (```` ```json ````, ```` ```text ```` or
/// ```` ``` ````) and surrounding white space from a model's answer.
pub fn clean_json_response_text(raw: &str) -> (r: String)
    ensures
        r@ == clean_json_response(raw@),
{
    let v = chars_of(raw);
    let t = trim_vec(&v);
    let json_fence: Vec<char> = vec!['`', '`', '`', 'j', 's', 'o', 'n'];
    let text_fence: Vec<char> = vec!['`', '`', '`', 't', 'e', 'x', 't'];
    let plain_fence: Vec<char> = vec!['`', '`', '`'];
    assert(json_fence@ =~= fence() + seq!['j', 's', 'o', 'n']);
    assert(text_fence@ =~= fence() + seq!['t', 'e', 'x', 't']);
    assert(plain_fence@ =~= fence());
    let a = strip_prefix_vec(&t, &json_fence);
    let b = strip_prefix_vec(&a, &text_fence);
    let c = strip_prefix_vec(&b, &plain_fence);
    let d = strip_suffix_vec(&c, &plain_fence);
    let e = trim_vec(&d);
    string_of(&e)
}

/// Chooses the subject of an answer given the `subject` field that its JSON
/// form held, if any: that field must be valid; without it the text is
/// searched.
pub fn select_commit_subject(raw: &str, json_subject: Option<String>) -> (r: Result<
    String,
    SubjectError,
>)
    ensures
        result_view(r) == subject_from_json_or_text(raw@, opt_string_view(json_subject)),
{
    match json_subject {
        Some(s) => validate_commit_subject(s.as_str()),
        None => extract_commit_subject(raw),
    }
}

/// The subject of a model's answer: the `subject` field of the JSON object
/// it holds (inside an optional code fence), else the one in its text.
pub open spec fn answer_subject(raw: Seq<char>) -> Option<Seq<char>> {
    subject_from_json_or_text(raw, json_string_field(clean_json_response(raw), "subject"@))
}

/// Reads the subject of a model's answer: the `subject` field of the JSON
/// object it holds (inside an optional code fence), else the text itself.
pub fn extract_commit_subject_from_json_or_text(raw: &str) -> (r: Result<String, SubjectError>)
    ensures
        result_view(r) == answer_subject(raw@),
{
    let json = clean_json_response_text(raw);
    let field = json_object_string_field(json.as_str(), "subject");
    select_commit_subject(raw, field)
}

// ---------------------------------------------------------------------
// Laws
// ---------------------------------------------------------------------
proof fn lemma_lines_of_single_line(s: Seq<char>)
    requires
        s.len() > 0,
        !s.contains('\n'),
    ensures
        lines(s) == seq![s],
{
    lemma_find_in(s, CharClass::Exactly('\n'), 0);
    let j = find_in(s, CharClass::Exactly('\n'), 0);
    if j < s.len() {
        assert(s[j] == '\n');
        assert(s.contains('\n'));
    }
    assert(s.subrange(0, s.len() as int) =~= s);
}

proof fn lemma_subject_is_no_think_tag(l: Seq<char>)
    requires
        is_conventional_subject(l),
    ensures
        !eq_ignore_ascii_case(l, think_open_tag()),
        !eq_ignore_ascii_case(l, think_close_tag()),
{
    lemma_find_colon_space(l, 0);
    let j = find_colon_space(l, 0);
    assert(l[j] == ':');
    assert(ascii_fold(':') == 58);
    if eq_ignore_ascii_case(l, think_open_tag()) {
        assert(ascii_fold(l[j]) == ascii_fold(think_open_tag()[j]));
        assert(0 <= j < 7);
        assert(think_open_tag()[j] != ':');
    }
    if eq_ignore_ascii_case(l, think_close_tag()) {
        assert(ascii_fold(l[j]) == ascii_fold(think_close_tag()[j]));
        assert(0 <= j < 8);
        assert(think_close_tag()[j] != ':');
    }
}

/// A subject that is valid and clean as it stands, given alone, is
/// extracted unchanged.
pub proof fn law_clean_subject_extracted_unchanged(s: Seq<char>)
    requires
        is_conventional_subject(s),
        clean_line(s) == s,
        !s.contains('\n'),
    ensures
        extracted_subject(s) == Some(s),
{
    lemma_find_colon_space(s, 0);
    lemma_lines_of_single_line(s);
    lemma_subject_is_no_think_tag(s);
    let ls = lines(s);
    assert(strict_from(ls, 1, false, Some(s)) == Some(s));
    assert(strict_from(ls, 0, false, None) == strict_from(ls, 1, false, Some(s)));
}

proof fn lemma_commit_type_letters(t: Seq<char>)
    requires
        is_commit_type(t),
    ensures
        forall|k: int| 0 <= k < t.len() ==> 'a' <= #[trigger] t[k] && t[k] <= 'z',
{
    let names = commit_type_names();
    let i = choose|i: int| 0 <= i < names.len() && names[i] == t;
    assert(0 <= i < 10);
    if i == 0 {
        assert(t == seq!['f', 'e', 'a', 't']);
    } else if i == 1 {
        assert(t == seq!['f', 'i', 'x']);
    } else if i == 2 {
        assert(t == seq!['d', 'o', 'c', 's']);
    } else if i == 3 {
        assert(t == seq!['s', 't', 'y', 'l', 'e']);
    } else if i == 4 {
        assert(t == seq!['r', 'e', 'f', 'a', 'c', 't', 'o', 'r']);
    } else if i == 5 {
        assert(t == seq!['p', 'e', 'r', 'f']);
    } else if i == 6 {
        assert(t == seq!['t', 'e', 's', 't']);
    } else if i == 7 {
        assert(t == seq!['c', 'h', 'o', 'r', 'e']);
    } else if i == 8 {
        assert(t == seq!['c', 'i']);
    } else {
        assert(t == seq!['b', 'u', 'i', 'l', 'd']);
    }
}

proof fn lemma_drop_front_shape(s: Seq<char>, cls: CharClass)
    ensures
        exists|k: int| 0 <= k <= s.len() && drop_front(s, cls) == s.subrange(k, s.len() as int),
        drop_front(s, cls).len() > 0 ==> !in_class(cls, drop_front(s, cls)[0]),
    decreases s.len(),
{
    if s.len() > 0 && in_class(cls, s[0]) {
        lemma_drop_front_shape(s.drop_first(), cls);
        let k = choose|k: int|
            0 <= k <= s.drop_first().len() && drop_front(s.drop_first(), cls)
                == s.drop_first().subrange(k, s.drop_first().len() as int);
        assert(s.drop_first().subrange(k, s.drop_first().len() as int) =~= s.subrange(
            k + 1,
            s.len() as int,
        ));
    } else {
        assert(s.subrange(0, s.len() as int) =~= s);
    }
}

proof fn lemma_drop_back_shape(s: Seq<char>, cls: CharClass)
    ensures
        exists|k: int| 0 <= k <= s.len() && drop_back(s, cls) == s.subrange(0, k),
        s.len() > 0 && !in_class(cls, s[0]) ==> drop_back(s, cls).len() > 0,
    decreases s.len(),
{
    if s.len() > 0 && in_class(cls, s.last()) {
        lemma_drop_back_shape(s.drop_last(), cls);
        let k = choose|k: int|
            0 <= k <= s.drop_last().len() && drop_back(s.drop_last(), cls)
                == s.drop_last().subrange(0, k);
        assert(s.drop_last().subrange(0, k) =~= s.subrange(0, k));
        if s.len() > 0 && !in_class(cls, s[0]) {
            assert(s.len() > 1);
            assert(s.drop_last()[0] == s[0]);
        }
    } else {
        assert(s.subrange(0, s.len() as int) =~= s);
    }
}

/// A trimmed text that is not empty starts with a character that is not
/// white space; a text that starts with one trims to a non-empty text.
proof fn lemma_trim_first(s: Seq<char>)
    ensures
        trim(s).len() > 0 ==> !is_ws(trim(s)[0]),
        s.len() > 0 && !is_ws(s[0]) ==> trim(s).len() > 0,
{
    let f = drop_front(s, CharClass::Whitespace);
    lemma_drop_front_shape(s, CharClass::Whitespace);
    lemma_drop_back_shape(f, CharClass::Whitespace);
    if trim(s).len() > 0 {
        let k = choose|k: int| 0 <= k <= f.len() && drop_back(f, CharClass::Whitespace) == f.subrange(0, k);
        assert(trim(s)[0] == f[0]);
    }
    if s.len() > 0 && !is_ws(s[0]) {
        assert(f == s);
    }
}

proof fn lemma_clean_relaxed_first(subject: Seq<char>)
    ensures
        clean_relaxed_subject(subject).len() > 0 ==> !is_ws(clean_relaxed_subject(subject)[0]),
{
    let t = trim(subject);
    lemma_find_in(t, CharClass::Quote, 0);
    let u = t.subrange(0, find_in(t, CharClass::Quote, 0));
    lemma_drop_back_shape(u, CharClass::TrailingPunct);
    lemma_trim_first(subject);
    if clean_relaxed_subject(subject).len() > 0 {
        let k = choose|k: int| 0 <= k <= u.len() && drop_back(u, CharClass::TrailingPunct) == u.subrange(0, k);
        assert(clean_relaxed_subject(subject)[0] == t[0]);
    }
}

proof fn lemma_find_colon_space_at(l: Seq<char>, i: int, j: int)
    requires
        0 <= i <= j,
        j + 1 < l.len(),
        l[j] == ':' && l[j + 1] == ' ',
        forall|k: int| i <= k < j ==> !(l[k] == ':' && #[trigger] l[k + 1] == ' '),
    ensures
        find_colon_space(l, i) == j,
    decreases j - i,
{
    if i < j {
        assert(!(l[i] == ':' && l[i + 1] == ' '));
        lemma_find_colon_space_at(l, i + 1, j);
    }
}

proof fn lemma_no_colon_space(l: Seq<char>, i: int)
    requires
        0 <= i <= l.len(),
        find_colon_space(l, i) == l.len(),
    ensures
        forall|k: int| i <= k && k + 1 < l.len() ==> !(l[k] == ':' && #[trigger] l[k + 1] == ' '),
    decreases l.len() - i,
{
    if i + 1 < l.len() {
        lemma_no_colon_space(l, i + 1);
    }
}

proof fn lemma_find_in_at(s: Seq<char>, cls: CharClass, i: int, j: int)
    requires
        0 <= i <= j <= s.len(),
        j < s.len() ==> in_class(cls, s[j]),
        forall|k: int| i <= k < j ==> !in_class(cls, #[trigger] s[k]),
    ensures
        find_in(s, cls, i) == j,
    decreases j - i,
{
    if i < j {
        lemma_find_in_at(s, cls, i + 1, j);
    }
}

/// A subject built around a scope that itself holds `": "`.
pub open spec fn built_with_colon_scope(c: Seq<char>) -> bool {
    exists|t: Seq<char>, sc: Seq<char>, b: bool, subj: Seq<char>|
        c == format_subject(t, Some(sc), b, subj) && is_commit_type(t) && find_colon_space(sc, 0)
            < sc.len()
}

proof fn lemma_format_valid(t: Seq<char>, scope: Option<Seq<char>>, b: bool, subj: Seq<char>)
    requires
        is_commit_type(t),
        scope matches Some(sc) ==> sc.len() > 0 && find_colon_space(sc, 0) == sc.len(),
        subj.len() > 0,
        !is_ws(subj[0]),
    ensures
        is_conventional_subject(format_subject(t, scope, b, subj)),
{
    lemma_commit_type_letters(t);
    let head = match scope {
        Some(sc) => t + seq!['('] + sc + seq![')'],
        None => t,
    };
    let bang: Seq<char> = if b {
        seq!['!']
    } else {
        Seq::empty()
    };
    let c = format_subject(t, scope, b, subj);
    assert(c == head + bang + seq![':', ' '] + subj);
    let j: int = (head.len() + bang.len()) as int;
    assert(c[j] == ':' && c[j + 1] == ' ');
    if let Some(sc) = scope {
        lemma_no_colon_space(sc, 0);
    }
    assert forall|k: int| 0 <= k < j implies !(c[k] == ':' && #[trigger] c[k + 1] == ' ') by {
        if k < t.len() {
            assert(c[k] == t[k]);
        } else if let Some(sc) = scope {
            if k == t.len() {
                assert(c[k] == '(');
            } else if k <= t.len() + sc.len() {
                let m = k - t.len() - 1;
                assert(c[k] == sc[m]);
                if m + 1 < sc.len() {
                    assert(c[k + 1] == sc[m + 1]);
                } else {
                    assert(c[k + 1] == ')');
                }
            } else if k == t.len() + sc.len() + 1 {
                assert(c[k] == ')');
            } else {
                assert(c[k] == '!');
            }
        } else {
            assert(c[k] == '!');
        }
    }
    lemma_find_colon_space_at(c, 0, j);
    assert(c.subrange(j + 2, c.len() as int) =~= subj);
    lemma_trim_first(subj);
    assert(c.subrange(0, j) =~= head + bang);
    assert(strip_bang(head + bang) =~= head) by {
        if !b {
            assert(head + bang =~= head);
            if head.len() > 0 {
                if let Some(sc) = scope {
                    assert(head.last() == ')');
                } else {
                    assert(head.last() == t[t.len() - 1]);
                }
            }
        }
    }
    match scope {
        Some(sc) => {
            lemma_find_in_at(head, CharClass::Exactly('('), 0, t.len() as int);
            assert(head.subrange(0, t.len() as int) =~= t);
            assert(head.subrange(t.len() as int + 1, head.len() as int) =~= sc + seq![')']);
            assert((sc + seq![')']).drop_last() =~= sc);
        },
        None => {
            lemma_find_in_at(head, CharClass::Exactly('('), 0, t.len() as int);
        },
    }
}

proof fn lemma_build_candidate_good(prefix: Seq<char>, subject: Seq<char>)
    ensures
        build_candidate(prefix, subject) matches Some(c) ==> is_conventional_subject(c)
            || built_with_colon_scope(c),
{
    if let Some(c) = build_candidate(prefix, subject) {
        let p = candidate_prefix(prefix)->0;
        let breaking = p.len() > 0 && p.last() == '!';
        let (t, scope) = split_type_scope(strip_bang(p))->0;
        let subj = clean_relaxed_subject(subject);
        lemma_clean_relaxed_first(subject);
        match scope {
            Some(sc) => {
                if find_colon_space(sc, 0) < sc.len() {
                    assert(c == format_subject(t, Some(sc), breaking, subj));
                    assert(built_with_colon_scope(c));
                } else {
                    lemma_find_colon_space(sc, 0);
                    lemma_format_valid(t, scope, breaking, subj);
                }
            },
            None => {
                lemma_format_valid(t, scope, breaking, subj);
            },
        }
    }
}

proof fn lemma_line_candidate_good(line: Seq<char>, i: int, last: Option<Seq<char>>)
    requires
        last matches Some(c) ==> is_conventional_subject(c) || built_with_colon_scope(c),
    ensures
        line_candidate_from(line, i, last) matches Some(c) ==> is_conventional_subject(c)
            || built_with_colon_scope(c),
    decreases line.len() - i,
{
    if !(i < 0 || i + 1 >= line.len()) {
        if line[i] == ':' && line[i + 1] == ' ' {
            lemma_build_candidate_good(line.subrange(0, i), line.subrange(i + 2, line.len() as int));
            match build_candidate(line.subrange(0, i), line.subrange(i + 2, line.len() as int)) {
                Some(c) => lemma_line_candidate_good(line, i + 1, Some(c)),
                None => lemma_line_candidate_good(line, i + 1, last),
            }
        } else {
            lemma_line_candidate_good(line, i + 1, last);
        }
    }
}

proof fn lemma_relaxed_good(ls: Seq<Seq<char>>, i: int, think: bool, last: Option<Seq<char>>)
    requires
        last matches Some(c) ==> is_conventional_subject(c) || built_with_colon_scope(c),
    ensures
        relaxed_from(ls, i, think, last) matches Some(c) ==> is_conventional_subject(c)
            || built_with_colon_scope(c),
    decreases ls.len() - i,
{
    if !(i < 0 || i >= ls.len()) {
        let l = trim(ls[i]);
        if eq_ignore_ascii_case(l, think_open_tag()) {
            lemma_relaxed_good(ls, i + 1, true, last);
        } else if eq_ignore_ascii_case(l, think_close_tag()) {
            lemma_relaxed_good(ls, i + 1, false, last);
        } else if think {
            lemma_relaxed_good(ls, i + 1, think, last);
        } else {
            lemma_line_candidate_good(l, 0, None);
            match line_candidate(l) {
                Some(c) => lemma_relaxed_good(ls, i + 1, think, Some(c)),
                None => lemma_relaxed_good(ls, i + 1, think, last),
            }
        }
    }
}

proof fn lemma_strict_good(ls: Seq<Seq<char>>, i: int, think: bool, last: Option<Seq<char>>)
    requires
        last matches Some(c) ==> is_conventional_subject(c),
    ensures
        strict_from(ls, i, think, last) matches Some(c) ==> is_conventional_subject(c),
    decreases ls.len() - i,
{
    if !(i < 0 || i >= ls.len()) {
        let l = clean_line(ls[i]);
        if eq_ignore_ascii_case(l, think_open_tag()) {
            lemma_strict_good(ls, i + 1, true, last);
        } else if eq_ignore_ascii_case(l, think_close_tag()) {
            lemma_strict_good(ls, i + 1, false, last);
        } else if think {
            lemma_strict_good(ls, i + 1, think, last);
        } else if is_conventional_subject(l) {
            lemma_strict_good(ls, i + 1, think, Some(l));
        } else {
            lemma_strict_good(ls, i + 1, think, last);
        }
    }
}

/// What is extracted from an answer is a valid Conventional Commit
/// subject, unless it was assembled from running text around a scope that
/// itself holds `": "`.
pub proof fn law_extracted_subject_is_valid(raw: Seq<char>)
    ensures
        extracted_subject(raw) matches Some(s) ==> is_conventional_subject(s)
            || built_with_colon_scope(s),
{
    lemma_strict_good(lines(raw), 0, false, None);
    lemma_relaxed_good(lines(raw), 0, false, None);
}

/// `s` starts with a commit type followed by `(`, `!` or `:`.
pub open spec fn starts_with_commit_type(s: Seq<char>) -> bool {
    exists|t: Seq<char>|
        is_commit_type(t) && t.len() < s.len() && #[trigger] s.subrange(0, t.len() as int) == t && (
        s[t.len() as int] == '(' || s[t.len() as int] == '!' || s[t.len() as int] == ':')
}

proof fn lemma_valid_starts_with_type(l: Seq<char>)
    requires
        is_conventional_subject(l),
    ensures
        starts_with_commit_type(l),
{
    lemma_find_colon_space(l, 0);
    let j = find_colon_space(l, 0);
    let p = l.subrange(0, j);
    let sp = strip_bang(p);
    assert(sp.len() <= p.len());
    assert forall|i: int| 0 <= i < sp.len() implies #[trigger] sp[i] == l[i] by {
        assert(sp[i] == p[i]);
    }
    let (t, _) = split_type_scope(sp)->0;
    let k = find_in(sp, CharClass::Exactly('('), 0);
    lemma_find_in(sp, CharClass::Exactly('('), 0);
    if k < sp.len() {
        assert(t == sp.subrange(0, k));
        assert(l.subrange(0, t.len() as int) =~= t);
        assert(l[k] == '(');
    } else {
        assert(t == sp);
        assert(l.subrange(0, t.len() as int) =~= t);
        if p.len() > 0 && p.last() == '!' {
            assert(l[t.len() as int] == '!');
        } else {
            assert(l[t.len() as int] == ':');
        }
    }
}

proof fn lemma_colon_scope_starts_with_type(c: Seq<char>)
    requires
        built_with_colon_scope(c),
    ensures
        starts_with_commit_type(c),
{
    let (t, sc, b, subj) = choose|t: Seq<char>, sc: Seq<char>, b: bool, subj: Seq<char>|
        c == format_subject(t, Some(sc), b, subj) && is_commit_type(t) && find_colon_space(sc, 0)
            < sc.len();
    assert(c.subrange(0, t.len() as int) =~= t);
    assert(c[t.len() as int] == '(');
}

/// Every subject extracted from an answer starts with one of the commit
/// types, followed by a scope in brackets, a `!` or the colon.
pub proof fn law_extracted_subject_starts_with_type(raw: Seq<char>)
    ensures
        extracted_subject(raw) matches Some(s) ==> starts_with_commit_type(s),
{
    law_extracted_subject_is_valid(raw);
    if let Some(s) = extracted_subject(raw) {
        if is_conventional_subject(s) {
            lemma_valid_starts_with_type(s);
        } else {
            lemma_colon_scope_starts_with_type(s);
        }
    }
}

/// A subject found in a line of its own is always valid, and a subject in
/// a JSON answer is accepted only when it is valid.
pub proof fn law_line_and_json_subjects_are_valid(raw: Seq<char>, json_subject: Option<Seq<char>>)
    ensures
        strict_subject(raw) matches Some(s) ==> is_conventional_subject(s),
        json_subject is Some ==> (subject_from_json_or_text(raw, json_subject) matches Some(s)
            ==> is_conventional_subject(s)),
{
    lemma_strict_good(lines(raw), 0, false, None);
}


// ---------------------------------------------------------------------
// Thinking blocks
// ---------------------------------------------------------------------
/// A line that neither opens nor closes a `<think>` block, whether read as
/// a line of its own (cleaned) or as running text (trimmed).
pub open spec fn is_think_free(l: Seq<char>) -> bool {
    &&& !eq_ignore_ascii_case(clean_line(l), think_open_tag())
    &&& !eq_ignore_ascii_case(clean_line(l), think_close_tag())
    &&& !eq_ignore_ascii_case(trim(l), think_open_tag())
    &&& !eq_ignore_ascii_case(trim(l), think_close_tag())
}

pub open spec fn all_think_free(ls: Seq<Seq<char>>) -> bool {
    forall|k: int| 0 <= k < ls.len() ==> is_think_free(#[trigger] ls[k])
}

/// A line that opens a `<think>` block, read either way.
pub open spec fn opens_think(l: Seq<char>) -> bool {
    eq_ignore_ascii_case(clean_line(l), think_open_tag()) && eq_ignore_ascii_case(
        trim(l),
        think_open_tag(),
    )
}

/// A line that closes a `<think>` block, read either way.
pub open spec fn closes_think(l: Seq<char>) -> bool {
    eq_ignore_ascii_case(clean_line(l), think_close_tag()) && eq_ignore_ascii_case(
        trim(l),
        think_close_tag(),
    )
}

proof fn lemma_scans_shift(y: Seq<Seq<char>>, q: Seq<Seq<char>>, k: int, t: bool, last: Option<Seq<char>>)
    requires
        0 <= k <= q.len(),
    ensures
        strict_from(y + q, y.len() + k, t, last) == strict_from(q, k, t, last),
        relaxed_from(y + q, y.len() + k, t, last) == relaxed_from(q, k, t, last),
    decreases q.len() - k,
{
    if k < q.len() {
        assert((y + q)[y.len() + k] == q[k]);
        let l = q[k];
        let sl = if is_conventional_subject(clean_line(l)) {
            Some(clean_line(l))
        } else {
            last
        };
        let rl = match line_candidate(trim(l)) {
            Some(c) => Some(c),
            None => last,
        };
        lemma_scans_shift(y, q, k + 1, true, last);
        lemma_scans_shift(y, q, k + 1, false, last);
        lemma_scans_shift(y, q, k + 1, t, sl);
        lemma_scans_shift(y, q, k + 1, t, rl);
    }
}

proof fn lemma_scans_free_prefix(
    p: Seq<Seq<char>>,
    r: Seq<Seq<char>>,
    i: int,
    t: bool,
    sl: Option<Seq<char>>,
    rl: Option<Seq<char>>,
)
    requires
        all_think_free(p),
        0 <= i <= p.len(),
    ensures
        strict_from(p + r, i, t, sl) == strict_from(r, 0, t, strict_from(p, i, t, sl)),
        relaxed_from(p + r, i, t, rl) == relaxed_from(r, 0, t, relaxed_from(p, i, t, rl)),
    decreases p.len() - i,
{
    if i == p.len() {
        lemma_scans_shift(p, r, 0, t, sl);
        lemma_scans_shift(p, r, 0, t, rl);
    } else {
        assert((p + r)[i] == p[i]);
        let l = p[i];
        assert(is_think_free(l));
        let sl2 = if !t && is_conventional_subject(clean_line(l)) {
            Some(clean_line(l))
        } else {
            sl
        };
        let rl2 = if t {
            rl
        } else {
            match line_candidate(trim(l)) {
                Some(c) => Some(c),
                None => rl,
            }
        };
        lemma_scans_free_prefix(p, r, i + 1, t, sl2, rl2);
    }
}

proof fn lemma_close_tag_is_no_open_tag(l: Seq<char>)
    requires
        eq_ignore_ascii_case(l, think_close_tag()),
    ensures
        !eq_ignore_ascii_case(l, think_open_tag()),
{
}

proof fn lemma_scans_skip_block(
    x: Seq<Seq<char>>,
    k: int,
    m: int,
    sl: Option<Seq<char>>,
    rl: Option<Seq<char>>,
)
    requires
        0 <= k,
        0 <= m,
        k + m < x.len(),
        forall|j: int| k <= j < k + m ==> is_think_free(#[trigger] x[j]),
        closes_think(x[k + m]),
    ensures
        strict_from(x, k, true, sl) == strict_from(x, k + m + 1, false, sl),
        relaxed_from(x, k, true, rl) == relaxed_from(x, k + m + 1, false, rl),
    decreases m,
{
    if m == 0 {
        lemma_close_tag_is_no_open_tag(clean_line(x[k]));
        lemma_close_tag_is_no_open_tag(trim(x[k]));
    } else {
        assert(is_think_free(x[k]));
        lemma_scans_skip_block(x, k + 1, m - 1, sl, rl);
    }
}

/// A `<think>` block among the lines changes neither search: with the
/// block taken out (its lines and its opening and closing lines), the same
/// subject is found, or none.
pub proof fn law_think_block_lines_are_ignored(
    p: Seq<Seq<char>>,
    b: Seq<Seq<char>>,
    q: Seq<Seq<char>>,
    o: Seq<char>,
    c: Seq<char>,
)
    requires
        all_think_free(p),
        all_think_free(b),
        all_think_free(q),
        opens_think(o),
        closes_think(c),
    ensures
        strict_from(p + seq![o] + b + seq![c] + q, 0, false, None) == strict_from(p + q, 0, false, None),
        relaxed_from(p + seq![o] + b + seq![c] + q, 0, false, None) == relaxed_from(
            p + q,
            0,
            false,
            None,
        ),
{
    let blk = seq![o] + b + seq![c];
    let rest = blk + q;
    assert(p + seq![o] + b + seq![c] + q =~= p + rest);
    let sp = strict_from(p, 0, false, None);
    let rp = relaxed_from(p, 0, false, None);
    lemma_scans_free_prefix(p, rest, 0, false, None, None);
    lemma_scans_free_prefix(p, q, 0, false, None, None);
    assert(rest[0] == o);
    assert(rest[b.len() + 1int] == c);
    assert forall|j: int| 1 <= j < 1 + b.len() implies is_think_free(#[trigger] rest[j]) by {
        assert(rest[j] == b[j - 1]);
    }
    lemma_scans_skip_block(rest, 1, b.len() as int, sp, rp);
    lemma_scans_shift(blk, q, 0, false, sp);
    lemma_scans_shift(blk, q, 0, false, rp);
    assert(blk.len() == b.len() + 2);
}

/// `a`, a `<think>` line, `b`, a `</think>` line and `c`, one after the
/// other.
pub open spec fn with_think_block(a: Seq<char>, b: Seq<char>, c: Seq<char>) -> Seq<char> {
    a + seq!['\n'] + think_open_tag() + seq!['\n'] + b + seq!['\n'] + think_close_tag() + seq!['\n']
        + c
}

proof fn lemma_tags_are_their_own_lines()
    ensures
        opens_think(think_open_tag()),
        closes_think(think_close_tag()),
        lines(think_open_tag() + seq!['\n']) == seq![think_open_tag()],
        lines(think_close_tag() + seq!['\n']) == seq![think_close_tag()],
{
    let o = think_open_tag();
    let c = think_close_tag();
    assert(drop_front(o, CharClass::Whitespace) == o);
    assert(drop_back(o, CharClass::Whitespace) == o);
    assert(drop_front(o, CharClass::Exactly('`')) == o);
    assert(drop_back(o, CharClass::Exactly('`')) == o);
    assert(drop_front(o, CharClass::Exactly('"')) == o);
    assert(drop_back(o, CharClass::Exactly('"')) == o);
    assert(drop_front(o, CharClass::Exactly('\'')) == o);
    assert(drop_back(o, CharClass::Exactly('\'')) == o);
    assert(drop_front(c, CharClass::Whitespace) == c);
    assert(drop_back(c, CharClass::Whitespace) == c);
    assert(drop_front(c, CharClass::Exactly('`')) == c);
    assert(drop_back(c, CharClass::Exactly('`')) == c);
    assert(drop_front(c, CharClass::Exactly('"')) == c);
    assert(drop_back(c, CharClass::Exactly('"')) == c);
    assert(drop_front(c, CharClass::Exactly('\'')) == c);
    assert(drop_back(c, CharClass::Exactly('\'')) == c);
    assert(!o.contains('\n')) by {
        if o.contains('\n') {
            let w = choose|w: int| 0 <= w < o.len() && o[w] == '\n';
            assert(o[w] != '\n');
        }
    }
    assert(!c.contains('\n')) by {
        if c.contains('\n') {
            let w = choose|w: int| 0 <= w < c.len() && c[w] == '\n';
            assert(c[w] != '\n');
        }
    }
    lemma_lines_single(o);
    lemma_lines_single(c);
}

/// Text inside a `<think>` block never changes the subject extracted from
/// an answer: `a`, then a block holding `b`, then `c`, gives what `a`
/// followed by `c` gives, when no line of `a`, `b` or `c` (each read up to
/// a line feed) opens or closes a block itself.
pub proof fn law_think_block_is_ignored(a: Seq<char>, b: Seq<char>, c: Seq<char>)
    requires
        all_think_free(lines(a + seq!['\n'])),
        all_think_free(lines(b + seq!['\n'])),
        all_think_free(lines(c)),
    ensures
        extracted_subject(with_think_block(a, b, c)) == extracted_subject(a + seq!['\n'] + c),
{
    let o = think_open_tag();
    let cl = think_close_tag();
    let an = a + seq!['\n'];
    let bn = b + seq!['\n'];
    let on = o + seq!['\n'];
    let cn = cl + seq!['\n'];
    lemma_tags_are_their_own_lines();
    let r3 = cn + c;
    let r2 = bn + r3;
    let r1 = on + r2;
    assert(with_think_block(a, b, c) =~= an + r1);
    lemma_lines_concat(cn, c);
    lemma_lines_concat(bn, r3);
    lemma_lines_concat(on, r2);
    lemma_lines_concat(an, r1);
    lemma_lines_concat(an, c);
    let p = lines(an);
    let bl = lines(bn);
    let q = lines(c);
    assert(lines(with_think_block(a, b, c)) =~= p + seq![o] + bl + seq![cl] + q);
    assert(lines(an + c) == p + q);
    law_think_block_lines_are_ignored(p, bl, q, o, cl);
}

proof fn lemma_scans_keep_last(q: Seq<Seq<char>>, k: int, sl: Option<Seq<char>>, rl: Option<Seq<char>>)
    requires
        0 <= k <= q.len(),
        all_think_free(q),
    ensures
        (forall|m: int| k <= m < q.len() ==> !is_conventional_subject(clean_line(#[trigger] q[m])))
            ==> strict_from(q, k, false, sl) == sl,
        (forall|m: int| k <= m < q.len() ==> line_candidate(trim(#[trigger] q[m])) is None)
            ==> relaxed_from(q, k, false, rl) == rl,
    decreases q.len() - k,
{
    if k < q.len() {
        assert(is_think_free(q[k]));
        lemma_scans_keep_last(q, k + 1, sl, rl);
    }
}

/// Of the lines that are a subject on their own, the last one outside
/// `<think>` blocks wins: after a line whose cleaned text is a subject,
/// lines that are none change nothing, whatever came before.
pub proof fn law_strict_takes_last_subject_line(p: Seq<Seq<char>>, l: Seq<char>, q: Seq<Seq<char>>)
    requires
        all_think_free(p),
        is_think_free(l),
        all_think_free(q),
        is_conventional_subject(clean_line(l)),
        forall|m: int| 0 <= m < q.len() ==> !is_conventional_subject(clean_line(#[trigger] q[m])),
    ensures
        strict_from(p + seq![l] + q, 0, false, None) == Some(clean_line(l)),
{
    let r = seq![l] + q;
    assert(p + seq![l] + q =~= p + r);
    lemma_scans_free_prefix(p, r, 0, false, None, None);
    let sp = strict_from(p, 0, false, None);
    assert(r[0] == l);
    lemma_scans_shift(seq![l], q, 0, false, Some(clean_line(l)));
    lemma_scans_keep_last(q, 0, Some(clean_line(l)), None);
}

/// Of the subjects embedded in running text, the last one outside
/// `<think>` blocks wins: after a line holding a candidate, lines holding
/// none change nothing, whatever came before.
pub proof fn law_relaxed_takes_last_candidate(
    p: Seq<Seq<char>>,
    l: Seq<char>,
    q: Seq<Seq<char>>,
    c: Seq<char>,
)
    requires
        all_think_free(p),
        is_think_free(l),
        all_think_free(q),
        line_candidate(trim(l)) == Some(c),
        forall|m: int| 0 <= m < q.len() ==> line_candidate(trim(#[trigger] q[m])) is None,
    ensures
        relaxed_from(p + seq![l] + q, 0, false, None) == Some(c),
{
    let r = seq![l] + q;
    assert(p + seq![l] + q =~= p + r);
    lemma_scans_free_prefix(p, r, 0, false, None, None);
    assert(r[0] == l);
    lemma_scans_shift(seq![l], q, 0, false, Some(c));
    lemma_scans_keep_last(q, 0, None, Some(c));
}

/// When no line of the answer is a subject on its own, the subject
/// extracted is the candidate embedded in the last line (outside `<think>`
/// blocks) that holds one.
pub proof fn law_extracted_subject_is_last_candidate(
    raw: Seq<char>,
    p: Seq<Seq<char>>,
    l: Seq<char>,
    q: Seq<Seq<char>>,
    c: Seq<char>,
)
    requires
        lines(raw) == p + seq![l] + q,
        strict_subject(raw) is None,
        all_think_free(p),
        is_think_free(l),
        all_think_free(q),
        line_candidate(trim(l)) == Some(c),
        forall|m: int| 0 <= m < q.len() ==> line_candidate(trim(#[trigger] q[m])) is None,
    ensures
        extracted_subject(raw) == Some(c),
{
    law_relaxed_takes_last_candidate(p, l, q, c);
}

} // verus!
