//! Character-level text handling: the views of `&str` and `String` are
//! sequences of `char`, and every helper here is stated over them.
use vstd::prelude::*;
use vstd::std_specs::iter::IteratorSpec;

verus! {

broadcast use vstd::string::group_string_axioms;

/// `String::push`: appends one character at the end of the string.
pub assume_specification[ String::push ](s: &mut String, ch: char)
    ensures
        final(s)@ == old(s)@.push(ch),
;

/// `Some` of the view of a present string.
pub open spec fn opt_string_view(o: Option<String>) -> Option<Seq<char>> {
    match o {
        Some(v) => Some(v@),
        None => None,
    }
}

/// The Unicode `White_Space` property, which `char::is_whitespace` tests
/// and which `str::trim` strips.
pub open spec fn is_ws(c: char) -> bool {
    ||| ('\u{9}' <= c && c <= '\u{d}')
    ||| c == ' '
    ||| c == '\u{85}'
    ||| c == '\u{a0}'
    ||| c == '\u{1680}'
    ||| ('\u{2000}' <= c && c <= '\u{200a}')
    ||| c == '\u{2028}'
    ||| c == '\u{2029}'
    ||| c == '\u{202f}'
    ||| c == '\u{205f}'
    ||| c == '\u{3000}'
}

/// The kinds of characters that the text helpers strip or search for.
#[derive(Clone, Copy)]
pub enum CharClass {
    /// Unicode white space.
    Whitespace,
    /// One given character.
    Exactly(char),
    /// A quote character: `"`, `'` or a backtick.
    Quote,
    /// Punctuation that may trail a sentence: `.`, `,`, `;`, `:` or `)`.
    TrailingPunct,
}

pub open spec fn in_class(cls: CharClass, c: char) -> bool {
    match cls {
        CharClass::Whitespace => is_ws(c),
        CharClass::Exactly(x) => c == x,
        CharClass::Quote => c == '"' || c == '\'' || c == '`',
        CharClass::TrailingPunct => c == '.' || c == ',' || c == ';' || c == ':' || c == ')',
    }
}

pub fn is_whitespace(c: char) -> (b: bool)
    ensures
        b == is_ws(c),
{
    ('\u{9}' <= c && c <= '\u{d}') || c == ' ' || c == '\u{85}' || c == '\u{a0}' || c
        == '\u{1680}' || ('\u{2000}' <= c && c <= '\u{200a}') || c == '\u{2028}' || c
        == '\u{2029}' || c == '\u{202f}' || c == '\u{205f}' || c == '\u{3000}'
}

pub fn is_in_class(cls: CharClass, c: char) -> (b: bool)
    ensures
        b == in_class(cls, c),
{
    match cls {
        CharClass::Whitespace => is_whitespace(c),
        CharClass::Exactly(x) => c == x,
        CharClass::Quote => c == '"' || c == '\'' || c == '`',
        CharClass::TrailingPunct => c == '.' || c == ',' || c == ';' || c == ':' || c == ')',
    }
}

/// `s` with its leading characters of class `cls` removed.
pub open spec fn drop_front(s: Seq<char>, cls: CharClass) -> Seq<char>
    decreases s.len(),
{
    if s.len() > 0 && in_class(cls, s[0]) {
        drop_front(s.drop_first(), cls)
    } else {
        s
    }
}

/// `s` with its trailing characters of class `cls` removed.
pub open spec fn drop_back(s: Seq<char>, cls: CharClass) -> Seq<char>
    decreases s.len(),
{
    if s.len() > 0 && in_class(cls, s.last()) {
        drop_back(s.drop_last(), cls)
    } else {
        s
    }
}

/// `str::trim`.
pub open spec fn trim(s: Seq<char>) -> Seq<char> {
    drop_back(drop_front(s, CharClass::Whitespace), CharClass::Whitespace)
}

/// `str::trim_end`.
pub open spec fn trim_end(s: Seq<char>) -> Seq<char> {
    drop_back(s, CharClass::Whitespace)
}

/// `str::trim_matches` with one character.
pub open spec fn trim_char(s: Seq<char>, c: char) -> Seq<char> {
    drop_back(drop_front(s, CharClass::Exactly(c)), CharClass::Exactly(c))
}

/// The first index at or after `i` that holds a character of class `cls`,
/// or the length of `s` when there is none.
pub open spec fn find_in(s: Seq<char>, cls: CharClass, i: int) -> int
    decreases s.len() - i,
{
    if i >= s.len() {
        s.len() as int
    } else if in_class(cls, s[i]) {
        i
    } else {
        find_in(s, cls, i + 1)
    }
}

pub proof fn lemma_find_in(s: Seq<char>, cls: CharClass, i: int)
    requires
        0 <= i <= s.len(),
    ensures
        i <= find_in(s, cls, i) <= s.len(),
        find_in(s, cls, i) < s.len() ==> in_class(cls, s[find_in(s, cls, i)]),
        forall|k: int| i <= k < find_in(s, cls, i) ==> !in_class(cls, #[trigger] s[k]),
    decreases s.len() - i,
{
    if i < s.len() && !in_class(cls, s[i]) {
        lemma_find_in(s, cls, i + 1);
    }
}

/// A line as `str::lines` yields it: a `\r` before the line feed is dropped.
pub open spec fn strip_cr(p: Seq<char>) -> Seq<char> {
    if p.len() > 0 && p.last() == '\r' {
        p.drop_last()
    } else {
        p
    }
}

/// The lines of `s` from index `i` on, split as `str::lines` splits them.
pub open spec fn lines_from(s: Seq<char>, i: int) -> Seq<Seq<char>>
    decreases s.len() - i,
{
    if i < 0 || i >= s.len() {
        Seq::empty()
    } else {
        let j = find_in(s, CharClass::Exactly('\n'), i);
        if j < s.len() && i <= j {
            seq![strip_cr(s.subrange(i, j))] + lines_from(s, j + 1)
        } else {
            seq![s.subrange(i, s.len() as int)]
        }
    }
}

/// `str::lines`: split at line feeds (a `\r` before one goes with it); a
/// final line feed ends the last line and opens no new one.
pub open spec fn lines(s: Seq<char>) -> Seq<Seq<char>> {
    lines_from(s, 0)
}

/// The decimal digit for `d`.
pub open spec fn digit(d: nat) -> char {
    if d == 0 {
        '0'
    } else if d == 1 {
        '1'
    } else if d == 2 {
        '2'
    } else if d == 3 {
        '3'
    } else if d == 4 {
        '4'
    } else if d == 5 {
        '5'
    } else if d == 6 {
        '6'
    } else if d == 7 {
        '7'
    } else if d == 8 {
        '8'
    } else {
        '9'
    }
}

/// The decimal notation of `n`, as `Display` writes an unsigned integer.
pub open spec fn decimal(n: nat) -> Seq<char>
    decreases n,
{
    if n < 10 {
        seq![digit(n)]
    } else {
        decimal(n / 10).push(digit(n % 10))
    }
}

/// Converts a string slice into the vector of its characters.
pub fn chars_of(s: &str) -> (v: Vec<char>)
    ensures
        v@ == s@,
{
    let mut it = s.chars();
    let mut v: Vec<char> = Vec::new();
    loop
        invariant
            v@ + it.remaining() == s@,
            it.decrease() is Some,
        ensures
            v@ == s@,
        decreases it.decrease()->0,
    {
        match it.next() {
            Some(c) => {
                v.push(c);
            },
            None => {
                assert(v@ + it.remaining() == v@);
                break ;
            },
        }
    }
    v
}

/// Builds a string from a sequence of characters.
pub fn string_of(v: &Vec<char>) -> (s: String)
    ensures
        s@ == v@,
{
    let mut s = String::new();
    let mut i: usize = 0;
    while i < v.len()
        invariant
            i <= v.len(),
            s@ == v@.subrange(0, i as int),
        decreases v.len() - i,
    {
        s.push(v[i]);
        i = i + 1;
        assert(s@ =~= v@.subrange(0, i as int));
    }
    assert(v@.subrange(0, v.len() as int) =~= v@);
    s
}

/// The characters of `s` from `lo` up to `hi`.
pub fn slice(s: &Vec<char>, lo: usize, hi: usize) -> (r: Vec<char>)
    requires
        lo <= hi <= s.len(),
    ensures
        r@ == s@.subrange(lo as int, hi as int),
{
    let mut r: Vec<char> = Vec::new();
    let mut i: usize = lo;
    while i < hi
        invariant
            lo <= i <= hi <= s.len(),
            r@ == s@.subrange(lo as int, i as int),
        decreases hi - i,
    {
        r.push(s[i]);
        i = i + 1;
        assert(r@ =~= s@.subrange(lo as int, i as int));
    }
    r
}

/// Appends all characters of `t` to `out`.
pub fn push_all(out: &mut Vec<char>, t: &Vec<char>)
    ensures
        final(out)@ == old(out)@ + t@,
{
    let mut i: usize = 0;
    while i < t.len()
        invariant
            i <= t.len(),
            out@ == old(out)@ + t@.subrange(0, i as int),
        decreases t.len() - i,
    {
        out.push(t[i]);
        i = i + 1;
        assert(out@ =~= old(out)@ + t@.subrange(0, i as int));
    }
    assert(t@.subrange(0, t.len() as int) =~= t@);
}

/// The first index in `lo..hi` where `s` has a character of class `cls`,
/// or `hi`.
pub fn find_class(s: &Vec<char>, lo: usize, hi: usize, cls: CharClass) -> (r: usize)
    requires
        lo <= hi <= s.len(),
    ensures
        lo <= r <= hi,
        r as int - lo == find_in(s@.subrange(lo as int, hi as int), cls, 0),
{
    let ghost sub = s@.subrange(lo as int, hi as int);
    let mut i: usize = lo;
    while i < hi && !is_in_class(cls, s[i])
        invariant
            lo <= i <= hi <= s.len(),
            sub == s@.subrange(lo as int, hi as int),
            find_in(sub, cls, 0) == find_in(sub, cls, i - lo),
        decreases hi - i,
    {
        assert(sub[i - lo] == s@[i as int]);
        i = i + 1;
    }
    if i < hi {
        assert(sub[i - lo] == s@[i as int]);
    }
    i
}

/// The first index in `lo..hi` after which `s` has no leading characters of
/// class `cls`.
pub fn skip_front(s: &Vec<char>, lo: usize, hi: usize, cls: CharClass) -> (r: usize)
    requires
        lo <= hi <= s.len(),
    ensures
        lo <= r <= hi,
        s@.subrange(r as int, hi as int) == drop_front(s@.subrange(lo as int, hi as int), cls),
{
    let mut i: usize = lo;
    while i < hi && is_in_class(cls, s[i])
        invariant
            lo <= i <= hi <= s.len(),
            drop_front(s@.subrange(i as int, hi as int), cls) == drop_front(
                s@.subrange(lo as int, hi as int),
                cls,
            ),
        decreases hi - i,
    {
        assert(s@.subrange(i as int, hi as int).drop_first() =~= s@.subrange(
            i + 1,
            hi as int,
        ));
        i = i + 1;
    }
    i
}

/// The last index in `lo..hi` before which `s` has no trailing characters of
/// class `cls`.
pub fn skip_back(s: &Vec<char>, lo: usize, hi: usize, cls: CharClass) -> (r: usize)
    requires
        lo <= hi <= s.len(),
    ensures
        lo <= r <= hi,
        s@.subrange(lo as int, r as int) == drop_back(s@.subrange(lo as int, hi as int), cls),
{
    let mut j: usize = hi;
    while j > lo && is_in_class(cls, s[j - 1])
        invariant
            lo <= j <= hi <= s.len(),
            drop_back(s@.subrange(lo as int, j as int), cls) == drop_back(
                s@.subrange(lo as int, hi as int),
                cls,
            ),
        decreases j - lo,
    {
        assert(s@.subrange(lo as int, j as int).drop_last() =~= s@.subrange(
            lo as int,
            j - 1,
        ));
        j = j - 1;
    }
    j
}

/// `str::trim`.
pub fn trim_vec(s: &Vec<char>) -> (r: Vec<char>)
    ensures
        r@ == trim(s@),
{
    let a = skip_front(s, 0, s.len(), CharClass::Whitespace);
    let b = skip_back(s, a, s.len(), CharClass::Whitespace);
    assert(s@.subrange(0, s.len() as int) =~= s@);
    slice(s, a, b)
}

/// `str::trim_end`.
pub fn trim_end_vec(s: &Vec<char>) -> (r: Vec<char>)
    ensures
        r@ == trim_end(s@),
{
    let b = skip_back(s, 0, s.len(), CharClass::Whitespace);
    assert(s@.subrange(0, s.len() as int) =~= s@);
    slice(s, 0, b)
}

/// `str::trim_matches` with one character.
pub fn trim_char_vec(s: &Vec<char>, c: char) -> (r: Vec<char>)
    ensures
        r@ == trim_char(s@, c),
{
    let a = skip_front(s, 0, s.len(), CharClass::Exactly(c));
    let b = skip_back(s, a, s.len(), CharClass::Exactly(c));
    assert(s@.subrange(0, s.len() as int) =~= s@);
    slice(s, a, b)
}

/// `s` with the characters of class `cls` at its end removed.
pub fn drop_back_vec(s: &Vec<char>, cls: CharClass) -> (r: Vec<char>)
    ensures
        r@ == drop_back(s@, cls),
{
    let b = skip_back(s, 0, s.len(), cls);
    assert(s@.subrange(0, s.len() as int) =~= s@);
    slice(s, 0, b)
}

/// The start and end of each line of `s`, as `str::lines` splits it.
pub fn line_ranges(s: &Vec<char>) -> (r: Vec<(usize, usize)>)
    ensures
        r.len() == lines(s@).len(),
        forall|k: int|
            0 <= k < r.len() ==> {
                &&& (#[trigger] r[k]).0 <= r[k].1 <= s.len()
                &&& s@.subrange(r[k].0 as int, r[k].1 as int) == lines(s@)[k]
            },
{
    let mut r: Vec<(usize, usize)> = Vec::new();
    let ghost mut done: Seq<Seq<char>> = Seq::empty();
    let mut pos: usize = 0;
    while pos < s.len()
        invariant
            pos <= s.len(),
            lines(s@) == done + lines_from(s@, pos as int),
            done.len() == r.len(),
            forall|k: int|
                0 <= k < r.len() ==> {
                    &&& (#[trigger] r[k]).0 <= r[k].1 <= s.len()
                    &&& s@.subrange(r[k].0 as int, r[k].1 as int) == done[k]
                },
        decreases s.len() - pos,
    {
        let j = find_class(s, pos, s.len(), CharClass::Exactly('\n'));
        proof {
            lemma_find_in(s@, CharClass::Exactly('\n'), pos as int);
            lemma_find_in_shift(s@, CharClass::Exactly('\n'), pos as int);
        }
        if j < s.len() {
            let end: usize = if j > pos && s[j - 1] == '\r' {
                j - 1
            } else {
                j
            };
            let ghost line = strip_cr(s@.subrange(pos as int, j as int));
            assert(s@.subrange(pos as int, end as int) =~= line);
            r.push((pos, end));
            proof {
                assert(lines_from(s@, pos as int) == seq![line] + lines_from(s@, j + 1));
                done = done.push(line);
                assert(done.drop_last() + (seq![line] + lines_from(s@, j + 1)) =~= done
                    + lines_from(s@, j + 1));
            }
            pos = j + 1;
        } else {
            let ghost line = s@.subrange(pos as int, s.len() as int);
            r.push((pos, s.len()));
            proof {
                assert(lines_from(s@, pos as int) == seq![line]);
                assert(lines_from(s@, s.len() as int) == Seq::<Seq<char>>::empty());
                done = done.push(line);
                assert(done.drop_last() + seq![line] =~= done + lines_from(
                    s@,
                    s.len() as int,
                ));
            }
            pos = s.len();
        }
    }
    assert(lines_from(s@, pos as int) == Seq::<Seq<char>>::empty());
    assert(done + Seq::<Seq<char>>::empty() =~= done);
    r
}

/// Searching a slice is searching the whole sequence from the slice's start.
pub proof fn lemma_find_in_shift(s: Seq<char>, cls: CharClass, lo: int)
    requires
        0 <= lo <= s.len(),
    ensures
        find_in(s.subrange(lo, s.len() as int), cls, 0) + lo == find_in(s, cls, lo),
{
    lemma_find_in_shift_from(s, cls, lo, lo);
}

proof fn lemma_find_in_shift_from(s: Seq<char>, cls: CharClass, lo: int, i: int)
    requires
        0 <= lo <= i <= s.len(),
    ensures
        find_in(s.subrange(lo, s.len() as int), cls, i - lo) + lo == find_in(s, cls, i),
    decreases s.len() - i,
{
    let sub = s.subrange(lo, s.len() as int);
    if i < s.len() {
        assert(sub[i - lo] == s[i]);
        if !in_class(cls, s[i]) {
            lemma_find_in_shift_from(s, cls, lo, i + 1);
        }
    }
}

proof fn lemma_find_in_prefix(x: Seq<char>, r: Seq<char>, cls: CharClass, i: int)
    requires
        0 <= i <= x.len(),
        find_in(x, cls, i) < x.len(),
    ensures
        find_in(x + r, cls, i) == find_in(x, cls, i),
    decreases x.len() - i,
{
    if i < x.len() {
        assert((x + r)[i] == x[i]);
        if !in_class(cls, x[i]) {
            lemma_find_in_prefix(x, r, cls, i + 1);
        }
    }
}

proof fn lemma_find_in_suffix(p: Seq<char>, r: Seq<char>, cls: CharClass, k: int)
    requires
        0 <= k <= r.len(),
    ensures
        find_in(p + r, cls, p.len() + k) == p.len() + find_in(r, cls, k),
    decreases r.len() - k,
{
    if k < r.len() {
        assert((p + r)[p.len() + k] == r[k]);
        if !in_class(cls, r[k]) {
            lemma_find_in_suffix(p, r, cls, k + 1);
        }
    }
}

proof fn lemma_lines_from_suffix(p: Seq<char>, r: Seq<char>, k: int)
    requires
        0 <= k <= r.len(),
    ensures
        lines_from(p + r, p.len() + k) == lines_from(r, k),
    decreases r.len() - k,
{
    if k < r.len() {
        lemma_find_in_suffix(p, r, CharClass::Exactly('\n'), k);
        lemma_find_in(r, CharClass::Exactly('\n'), k);
        let j = find_in(r, CharClass::Exactly('\n'), k);
        assert((p + r).subrange(p.len() + k, p.len() + j) =~= r.subrange(k, j));
        assert((p + r).subrange(p.len() + k, (p + r).len() as int) =~= r.subrange(k, r.len() as int));
        if j < r.len() {
            lemma_lines_from_suffix(p, r, j + 1);
        }
    }
}

proof fn lemma_lines_from_concat(x: Seq<char>, r: Seq<char>, i: int)
    requires
        x.len() > 0,
        x.last() == '\n',
        0 <= i <= x.len(),
    ensures
        lines_from(x + r, i) == lines_from(x, i) + lines(r),
    decreases x.len() - i,
{
    if i == x.len() {
        lemma_lines_from_suffix(x, r, 0);
        assert(lines_from(x, i) + lines(r) =~= lines(r));
    } else {
        lemma_find_in(x, CharClass::Exactly('\n'), i);
        let j = find_in(x, CharClass::Exactly('\n'), i);
        if j == x.len() {
            assert(!in_class(CharClass::Exactly('\n'), x[x.len() - 1]));
        }
        lemma_find_in_prefix(x, r, CharClass::Exactly('\n'), i);
        assert((x + r).subrange(i, j) =~= x.subrange(i, j));
        lemma_lines_from_concat(x, r, j + 1);
        assert(lines_from(x + r, i) == seq![strip_cr(x.subrange(i, j))] + lines_from(x + r, j + 1));
        assert(lines_from(x, i) == seq![strip_cr(x.subrange(i, j))] + lines_from(x, j + 1));
        assert(lines_from(x + r, i) =~= lines_from(x, i) + lines(r));
    }
}

/// Text that ends with a line feed splits into its own lines followed by
/// the lines of what comes after it.
pub proof fn lemma_lines_concat(x: Seq<char>, r: Seq<char>)
    requires
        x.len() > 0,
        x.last() == '\n',
    ensures
        lines(x + r) == lines(x) + lines(r),
{
    lemma_lines_from_concat(x, r, 0);
}

/// A piece without line feed, not ending in a carriage return, followed by
/// a line feed is one line.
pub proof fn lemma_lines_single(p: Seq<char>)
    requires
        !p.contains('\n'),
        p.len() == 0 || p.last() != '\r',
    ensures
        lines(p + seq!['\n']) == seq![p],
{
    let x = p + seq!['\n'];
    lemma_find_in(x, CharClass::Exactly('\n'), 0);
    let j = find_in(x, CharClass::Exactly('\n'), 0);
    if j < p.len() {
        assert(x[j] == p[j]);
        assert(p.contains('\n'));
    }
    if j > p.len() {
        assert(!in_class(CharClass::Exactly('\n'), x[p.len() as int]));
    }
    assert(x.subrange(0, j) =~= p);
    assert(lines_from(x, j + 1) == Seq::<Seq<char>>::empty());
    assert(lines(x) =~= seq![p]);
}

/// The decimal digit for `d`.
pub fn digit_char(d: u128) -> (c: char)
    requires
        d < 10,
    ensures
        c == digit(d as nat),
{
    if d == 0 {
        '0'
    } else if d == 1 {
        '1'
    } else if d == 2 {
        '2'
    } else if d == 3 {
        '3'
    } else if d == 4 {
        '4'
    } else if d == 5 {
        '5'
    } else if d == 6 {
        '6'
    } else if d == 7 {
        '7'
    } else if d == 8 {
        '8'
    } else {
        '9'
    }
}

/// Appends the decimal notation of `n` to `out`.
pub fn push_decimal(out: &mut Vec<char>, n: u128)
    ensures
        final(out)@ == old(out)@ + decimal(n as nat),
    decreases n,
{
    if n >= 10 {
        push_decimal(out, n / 10);
    }
    let d = digit_char(n % 10);
    out.push(d);
    proof {
        if n >= 10 {
            assert(decimal(n as nat) == decimal((n / 10) as nat).push(digit((n % 10) as nat)));
        }
        assert(out@ =~= old(out)@ + decimal(n as nat));
    }
}

/// Whether `s` ends with `t`.
pub open spec fn ends_with(s: Seq<char>, t: Seq<char>) -> bool {
    &&& t.len() <= s.len()
    &&& s.subrange(s.len() - t.len(), s.len() as int) == t
}

/// `str::ends_with`.
pub fn str_ends_with(s: &str, t: &str) -> (r: bool)
    ensures
        r == ends_with(s@, t@),
{
    let a = chars_of(s);
    let b = chars_of(t);
    if b.len() > a.len() {
        return false;
    }
    let off: usize = a.len() - b.len();
    let mut k: usize = 0;
    while k < b.len()
        invariant
            a@ == s@,
            b@ == t@,
            off + b.len() == a.len(),
            k <= b.len(),
            forall|j: int| 0 <= j < k ==> a@[off + j] == b@[j],
        decreases b.len() - k,
    {
        if a[off + k] != b[k] {
            assert(a@.subrange(off as int, a.len() as int)[k as int] != b@[k as int]);
            return false;
        }
        k = k + 1;
    }
    assert(a@.subrange(off as int, a.len() as int) =~= b@);
    true
}

/// The decimal notation of an integer that may be negative.
pub open spec fn signed_decimal(n: int) -> Seq<char> {
    if n < 0 {
        seq!['-'] + decimal((-n) as nat)
    } else {
        decimal(n as nat)
    }
}

/// The decimal notation of `n`, as `Display` writes it.
pub fn decimal_string(n: u128) -> (r: String)
    ensures
        r@ == decimal(n as nat),
{
    let mut v: Vec<char> = Vec::new();
    push_decimal(&mut v, n);
    assert(v@ =~= decimal(n as nat));
    string_of(&v)
}

/// The decimal notation of a signed `n`, as `Display` writes it.
pub fn signed_decimal_string(n: i64) -> (r: String)
    ensures
        r@ == signed_decimal(n as int),
{
    let mut v: Vec<char> = Vec::new();
    if n < 0 {
        v.push('-');
        let m: i128 = 0i128 - (n as i128);
        push_decimal(&mut v, m as u128);
    } else {
        push_decimal(&mut v, n as u128);
    }
    assert(v@ =~= signed_decimal(n as int));
    string_of(&v)
}

} // verus!
