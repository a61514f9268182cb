//! What the library computes around the `git` commands: the paths left out
//! of the diff, the file list of `git diff --name-only` and failure
//! messages. Running `git` is left to the program.
use crate::text::{chars_of, find_class, find_in, lemma_find_in, lemma_find_in_shift, slice, string_of, trim, CharClass};
use vstd::prelude::*;
use vstd::string::StringExecFns;

verus! {

broadcast use vstd::string::group_string_axioms;

/// Lock files and build output, which the staged diff leaves out.
pub open spec fn ignored_names() -> Seq<Seq<char>> {
    seq!["Cargo.lock"@, "node_modules"@, "dist"@, "package-lock.json"@, "pnpm-lock.json"@]
}

/// The paths that the staged diff leaves out.
pub fn ignore_filenames() -> (r: Vec<&'static str>)
    ensures
        r.len() == ignored_names().len(),
        forall|k: int| 0 <= k < r.len() ==> (#[trigger] r[k])@ == ignored_names()[k],
{
    let r: Vec<&'static str> = vec!["Cargo.lock", "node_modules", "dist", "package-lock.json", "pnpm-lock.json"];
    r
}

/// The pathspec that excludes `path` from a `git diff`.
pub fn exclude_pathspec(path: &str) -> (r: String)
    ensures
        r@ == ":(exclude)"@ + path@,
{
    let mut s = String::from_str(":(exclude)");
    s.append(path);
    s
}

/// The non-empty pieces of `s` between line feeds, from index `i` on.
pub open spec fn name_list_from(s: Seq<char>, i: int) -> Seq<Seq<char>>
    decreases s.len() - i,
{
    if i < 0 || i >= s.len() {
        Seq::empty()
    } else {
        let j = find_in(s, CharClass::Exactly('\n'), i);
        let piece = s.subrange(i, j);
        let here: Seq<Seq<char>> = if piece.len() > 0 {
            seq![piece]
        } else {
            Seq::empty()
        };
        if j < s.len() && i <= j {
            here + name_list_from(s, j + 1)
        } else {
            here
        }
    }
}

/// The file names of a `git diff --name-only` output: the non-empty
/// pieces between line feeds.
pub open spec fn name_list(s: Seq<char>) -> Seq<Seq<char>> {
    name_list_from(s, 0)
}

/// Splits the output of `git diff --name-only` into file names.
pub fn parse_name_list(stdout: &str) -> (r: Vec<String>)
    ensures
        r.len() == name_list(stdout@).len(),
        forall|k: int| 0 <= k < r.len() ==> (#[trigger] r[k])@ == name_list(stdout@)[k],
{
    let s = chars_of(stdout);
    let mut r: Vec<String> = Vec::new();
    let ghost mut done: Seq<Seq<char>> = Seq::empty();
    let mut pos: usize = 0;
    while pos < s.len()
        invariant
            s@ == stdout@,
            pos <= s.len(),
            name_list(s@) == done + name_list_from(s@, pos as int),
            done.len() == r.len(),
            forall|k: int| 0 <= k < r.len() ==> (#[trigger] r[k])@ == done[k],
        decreases s.len() - pos,
    {
        let j = find_class(&s, pos, s.len(), CharClass::Exactly('\n'));
        proof {
            lemma_find_in(s@, CharClass::Exactly('\n'), pos as int);
            lemma_find_in_shift(s@, CharClass::Exactly('\n'), pos as int);
        }
        let ghost piece = s@.subrange(pos as int, j as int);
        let ghost here: Seq<Seq<char>> = if piece.len() > 0 {
            seq![piece]
        } else {
            Seq::empty()
        };
        if j > pos {
            let p = slice(&s, pos, j);
            r.push(string_of(&p));
        }
        proof {
            let old_done = done;
            done = done + here;
            if j < s.len() {
                assert(name_list_from(s@, pos as int) == here + name_list_from(s@, j + 1));
                assert(old_done + (here + name_list_from(s@, j + 1)) =~= done + name_list_from(
                    s@,
                    j + 1,
                ));
            } else {
                assert(name_list_from(s@, pos as int) == here);
                assert(name_list_from(s@, s.len() as int) == Seq::<Seq<char>>::empty());
                assert(old_done + here =~= done + name_list_from(s@, s.len() as int));
            }
        }
        if j < s.len() {
            pos = j + 1;
        } else {
            pos = s.len();
        }
    }
    assert(name_list_from(s@, pos as int) == Seq::<Seq<char>>::empty());
    assert(done + Seq::<Seq<char>>::empty() =~= done);
    r
}

/// The message of a failed `git` command: `"<action> failed: <stderr>"`
/// with the error output trimmed.
pub fn git_failure_message(action: &str, stderr: &str) -> (r: String)
    ensures
        r@ == action@ + " failed: "@ + trim(stderr@),
{
    let v = chars_of(stderr);
    let t = crate::text::trim_vec(&v);
    let ts = string_of(&t);
    let mut s = String::from_str(action);
    s.append(" failed: ");
    s.append(ts.as_str());
    s
}

/// The arguments of `git` that commit with message `subject`.
pub open spec fn commit_args_of(subject: Seq<char>) -> Seq<Seq<char>> {
    seq!["commit"@, "-m"@, subject]
}

/// The arguments of `git` that push the current branch.
pub open spec fn push_args_of() -> Seq<Seq<char>> {
    seq!["push"@, "origin"@, "HEAD"@]
}

/// The arguments of `git` that commit with message `subject`.
pub fn commit_args(subject: &str) -> (r: Vec<String>)
    ensures
        r@.map_values(|a: String| a@) == commit_args_of(subject@),
{
    let r: Vec<String> = vec!["commit".to_string(), "-m".to_string(), subject.to_string()];
    assert(r@.map_values(|a: String| a@) =~= commit_args_of(subject@));
    r
}

/// The arguments of `git` that push the current branch.
pub fn push_args() -> (r: Vec<String>)
    ensures
        r@.map_values(|a: String| a@) == push_args_of(),
{
    let r: Vec<String> = vec!["push".to_string(), "origin".to_string(), "HEAD".to_string()];
    assert(r@.map_values(|a: String| a@) =~= push_args_of());
    r
}

/// Characters a shell takes literally in a word.
pub open spec fn is_plain(c: char) -> bool {
    ('a' <= c && c <= 'z') || ('A' <= c && c <= 'Z') || ('0' <= c && c <= '9') || c == '-' || c
        == '_' || c == '.' || c == '/' || c == ':' || c == '=' || c == '@' || c == '+' || c == ','
}

/// `a` with each single quote written as `'\''`.
pub open spec fn escape_quotes(a: Seq<char>) -> Seq<char>
    decreases a.len(),
{
    if a.len() == 0 {
        Seq::empty()
    } else {
        escape_quotes(a.drop_last()) + if a.last() == '\'' {
            seq!['\'', '\\', '\'', '\'']
        } else {
            seq![a.last()]
        }
    }
}

/// `a` as a shell word: as it stands when it is non-empty and plain,
/// else in single quotes.
pub open spec fn shell_word_of(a: Seq<char>) -> Seq<char> {
    if a.len() > 0 && forall|k: int| 0 <= k < a.len() ==> is_plain(#[trigger] a[k]) {
        a
    } else {
        seq!['\''] + escape_quotes(a) + seq!['\'']
    }
}

/// The command line `git` followed by the first `n` of `args`, each as a
/// shell word after a space.
pub open spec fn command_line_of(args: Seq<Seq<char>>, n: int) -> Seq<char>
    decreases n,
{
    if n <= 0 {
        "git"@
    } else {
        command_line_of(args, n - 1) + seq![' '] + shell_word_of(args[n - 1])
    }
}

proof fn lemma_plain_word(w: Seq<char>)
    requires
        w.len() > 0,
        forall|k: int| 0 <= k < w.len() ==> is_plain(#[trigger] w[k]),
    ensures
        shell_word_of(w) == w,
{
}

/// The command lines shown in a dry run: `git push origin HEAD`, and
/// `git commit -m` followed by the subject as a shell word.
pub proof fn law_shown_git_commands(subject: Seq<char>)
    ensures
        command_line_of(push_args_of(), 3) == "git push origin HEAD"@,
        command_line_of(commit_args_of(subject), 3) == "git commit -m "@ + shell_word_of(subject),
{
    reveal_strlit("git");
    reveal_strlit("push");
    reveal_strlit("origin");
    reveal_strlit("HEAD");
    reveal_strlit("commit");
    reveal_strlit("-m");
    reveal_strlit("git push origin HEAD");
    reveal_strlit("git commit -m ");
    lemma_plain_word("push"@);
    lemma_plain_word("origin"@);
    lemma_plain_word("HEAD"@);
    lemma_plain_word("commit"@);
    lemma_plain_word("-m"@);
    let pa = push_args_of();
    assert(pa[0] == "push"@ && pa[1] == "origin"@ && pa[2] == "HEAD"@);
    assert(command_line_of(pa, 0) == "git"@);
    assert(command_line_of(pa, 1) == "git"@ + seq![' '] + "push"@);
    assert(command_line_of(pa, 2) == "git"@ + seq![' '] + "push"@ + seq![' '] + "origin"@);
    assert(command_line_of(pa, 3) == "git"@ + seq![' '] + "push"@ + seq![' '] + "origin"@ + seq![' ']
        + "HEAD"@);
    assert(command_line_of(pa, 3) =~= "git push origin HEAD"@);
    let ca = commit_args_of(subject);
    assert(ca[0] == "commit"@ && ca[1] == "-m"@ && ca[2] == subject);
    assert(command_line_of(ca, 0) == "git"@);
    assert(command_line_of(ca, 1) == "git"@ + seq![' '] + "commit"@);
    assert(command_line_of(ca, 2) == "git"@ + seq![' '] + "commit"@ + seq![' '] + "-m"@);
    assert(command_line_of(ca, 3) == "git"@ + seq![' '] + "commit"@ + seq![' '] + "-m"@ + seq![' ']
        + shell_word_of(subject));
    assert(command_line_of(ca, 3) =~= "git commit -m "@ + shell_word_of(subject));
}

fn plain_char(c: char) -> (r: bool)
    ensures
        r == is_plain(c),
{
    ('a' <= c && c <= 'z') || ('A' <= c && c <= 'Z') || ('0' <= c && c <= '9') || c == '-' || c
        == '_' || c == '.' || c == '/' || c == ':' || c == '=' || c == '@' || c == '+' || c == ','
}

/// Writes `a` as a shell word.
pub fn shell_word(a: &str) -> (r: String)
    ensures
        r@ == shell_word_of(a@),
{
    let v = chars_of(a);
    let mut plain = v.len() > 0;
    let mut i: usize = 0;
    while i < v.len()
        invariant
            v@ == a@,
            i <= v.len(),
            plain == (v.len() > 0 && forall|k: int| 0 <= k < i ==> is_plain(#[trigger] v@[k])),
        decreases v.len() - i,
    {
        let c = v[i];
        plain = plain && plain_char(c);
        i = i + 1;
    }
    if plain {
        return a.to_string();
    }
    let mut out: Vec<char> = Vec::new();
    out.push('\'');
    let mut j: usize = 0;
    while j < v.len()
        invariant
            v@ == a@,
            j <= v.len(),
            out@ == seq!['\''] + escape_quotes(v@.subrange(0, j as int)),
        decreases v.len() - j,
    {
        let c = v[j];
        if c == '\'' {
            out.push('\'');
            out.push('\\');
            out.push('\'');
            out.push('\'');
        } else {
            out.push(c);
        }
        proof {
            let next = v@.subrange(0, j + 1);
            assert(next.drop_last() =~= v@.subrange(0, j as int));
            assert(next.last() == c);
            assert(out@ =~= seq!['\''] + escape_quotes(next));
        }
        j = j + 1;
    }
    out.push('\'');
    assert(v@.subrange(0, v.len() as int) =~= v@);
    assert(out@ =~= shell_word_of(a@));
    string_of(&out)
}

/// The command line that runs `git` with `args`, as shown to the user.
pub fn command_line(args: &Vec<String>) -> (r: String)
    ensures
        r@ == command_line_of(args@.map_values(|a: String| a@), args.len() as int),
{
    let ghost views = args@.map_values(|a: String| a@);
    let mut s = String::from_str("git");
    let mut i: usize = 0;
    while i < args.len()
        invariant
            views == args@.map_values(|a: String| a@),
            i <= args.len(),
            s@ == command_line_of(views, i as int),
        decreases args.len() - i,
    {
        s.append(" ");
        let w = shell_word(args[i].as_str());
        s.append(w.as_str());
        proof {
            reveal_strlit(" ");
            assert(views[i as int] == args[i as int]@);
            assert(s@ =~= command_line_of(views, i + 1));
        }
        i = i + 1;
    }
    s
}

proof fn lemma_name_list_from_nonempty(s: Seq<char>, i: int)
    ensures
        forall|k: int|
            0 <= k < name_list_from(s, i).len() ==> (#[trigger] name_list_from(s, i)[k]).len() > 0
                && !name_list_from(s, i)[k].contains('\n'),
    decreases s.len() - i,
{
    if !(i < 0 || i >= s.len()) {
        lemma_find_in(s, CharClass::Exactly('\n'), i);
        let j = find_in(s, CharClass::Exactly('\n'), i);
        let piece = s.subrange(i, j);
        assert(!piece.contains('\n')) by {
            if piece.contains('\n') {
                let w = choose|w: int| 0 <= w < piece.len() && piece[w] == '\n';
                assert(s[i + w] == '\n');
            }
        }
        let here: Seq<Seq<char>> = if piece.len() > 0 {
            seq![piece]
        } else {
            Seq::empty()
        };
        if j < s.len() && i <= j {
            lemma_name_list_from_nonempty(s, j + 1);
            let rest = name_list_from(s, j + 1);
            assert(name_list_from(s, i) == here + rest);
            assert forall|k: int| 0 <= k < (here + rest).len() implies (#[trigger] (here
                + rest)[k]).len() > 0 && !(here + rest)[k].contains('\n') by {
                if k < here.len() {
                    assert((here + rest)[k] == piece);
                } else {
                    assert((here + rest)[k] == rest[k - here.len()]);
                }
            }
        } else {
            assert(name_list_from(s, i) == here);
        }
    }
}

/// Every file name read from `git diff --name-only` is non-empty and holds
/// no line feed.
pub proof fn law_file_names_are_nonempty_lines(s: Seq<char>)
    ensures
        forall|k: int|
            0 <= k < name_list(s).len() ==> (#[trigger] name_list(s)[k]).len() > 0
                && !name_list(s)[k].contains('\n'),
{
    lemma_name_list_from_nonempty(s, 0);
}

} // verus!
