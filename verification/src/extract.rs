//! Extraction of requirement headings from wiki pages (GitHub wiki Markdown).
//!
//! A requirement heading is a line of the form
//! ``# `<id>`(v<version>:<annotation>): <title>`` where one to six `#` open the heading,
//! the parenthesised part is optional and so is its `v<version>:` prefix.
use vstd::prelude::*;

use crate::text;
use crate::text::{is_white, is_whitespace, slice_chars};

verus! {

/// Where the requirements are extracted from.
#[derive(Debug, Clone, Copy, PartialEq, Eq, Structural)]
pub enum ExtractOrigin {
    GitHub,
    Jira,
}

/// Configuration of the `extract` command.
#[derive(Debug, Clone, PartialEq, Eq)]
pub struct Config {
    /// Local path of the wiki (a directory or a single file).
    pub root: String,
    /// Link to the wiki.
    pub link: String,
    pub origin: ExtractOrigin,
    /// Requirements annotated for a later major version than this one lose their annotation.
    pub major_version: Option<usize>,
}

/// Reasons an extraction fails.
#[derive(Debug, Clone, PartialEq, Eq)]
pub enum ExtractError {
    CouldNotAccessFile(String),
    DbError(String),
}

/// A requirement found in a wiki page.
#[derive(Debug, Clone, PartialEq, Eq)]
pub struct WikiRequirement {
    pub id: String,
    pub link: String,
    pub path: String,
    /// 1-based line of the heading.
    pub line: usize,
    pub annotation: Option<String>,
}

/// Character classes used by requirement headings.
#[derive(Debug, Clone, Copy, PartialEq, Eq, Structural)]
pub enum CharClass {
    Hash,
    Id,
    Digit,
    NotClose,
    Whitespace,
}

/// The predicate of a character class.
pub open spec fn class_pred(cc: CharClass) -> spec_fn(char) -> bool {
    match cc {
        CharClass::Hash => |c: char| is_hash(c),
        CharClass::Id => |c: char| is_id_char(c),
        CharClass::Digit => |c: char| is_digit(c),
        CharClass::NotClose => |c: char| is_not_close(c),
        CharClass::Whitespace => |c: char| is_white(c),
    }
}

/// Number of leading characters of `l` from position `i` on that satisfy `p`.
pub open spec fn run_len(l: Seq<char>, i: int, p: spec_fn(char) -> bool) -> nat
    decreases l.len() - i,
{
    if 0 <= i < l.len() && p(l[i]) {
        1 + run_len(l, i + 1, p)
    } else {
        0
    }
}

/// `#`.
pub open spec fn is_hash(c: char) -> bool {
    c == '#'
}

/// Characters allowed in a requirement ID: neither whitespace nor `:`.
pub open spec fn is_id_char(c: char) -> bool {
    !is_white(c) && c != ':'
}

/// ASCII digit.
pub open spec fn is_digit(c: char) -> bool {
    '0' <= c <= '9'
}

/// Not `)`.
pub open spec fn is_not_close(c: char) -> bool {
    c != ')'
}

/// The part `: <title>` starting at `q`: a colon, one whitespace and at least one more character.
pub open spec fn title_ok(l: Seq<char>, q: int) -> bool {
    q + 2 < l.len() && l[q] == ':' && is_white(l[q + 1])
}

#[verifier::opaque]
/// The captures `(version, annotation)` of the part after the closing backtick of the ID,
/// which starts at `q`; `None` if that part does not match.
pub open spec fn tail_captures(l: Seq<char>, q: int) -> Option<(Option<Seq<char>>, Option<Seq<char>>)> {
    if 0 <= q < l.len() && l[q] == '(' {
        let a = run_len(l, q + 1, class_pred(CharClass::NotClose));
        let e = q + 1 + a;
        if a >= 1 && e < l.len() && title_ok(l, e + 1) {
            let d = run_len(l, q + 2, class_pred(CharClass::Digit));
            if q + 1 < l.len() && l[q + 1] == 'v' && 1 <= d <= 7 && q + 2 + d < l.len() && l[q + 2 + d] == ':'
                && q + 3 + d < e {
                Some((Some(l.subrange(q + 2, q + 2 + d)), Some(l.subrange(q + 3 + d, e))))
            } else {
                Some((None, Some(l.subrange(q + 1, e))))
            }
        } else {
            None
        }
    } else if title_ok(l, q) {
        Some((None, None))
    } else {
        None
    }
}

#[verifier::opaque]
/// An ID of length `k` works: it is followed by a backtick and a matching tail.
pub open spec fn id_len_ok(l: Seq<char>, start: int, k: int) -> bool {
    &&& 1 <= k <= run_len(l, start, class_pred(CharClass::Id))
    &&& start + k < l.len()
    &&& l[start + k] == '`'
    &&& tail_captures(l, start + k + 1) is Some
}

#[verifier::opaque]
/// The captures `(id, version, annotation)` of a requirement heading line, choosing the
/// longest ID that lets the line match; `None` if the line is no requirement heading.
pub open spec fn heading_captures(l: Seq<char>) -> Option<(Seq<char>, Option<Seq<char>>, Option<Seq<char>>)> {
    let h = run_len(l, 0, class_pred(CharClass::Hash)) as int;
    let start = h + 2;
    if 1 <= h <= 6 && h + 1 < l.len() && is_white(l[h]) && l[h + 1] == '`' && exists|k: int|
        #[trigger] id_len_ok(l, start, k) {
        let k = choose|k: int| #[trigger] id_len_ok(l, start, k) && forall|k2: int| k < k2 ==> !#[trigger] id_len_ok(l, start, k2);
        let t = tail_captures(l, start + k + 1)->0;
        Some((l.subrange(start, start + k), t.0, t.1))
    } else {
        None
    }
}

/// Whether `c` belongs to the class `cc`.
pub fn in_class(cc: CharClass, c: char) -> (res: bool)
    ensures
        res == class_pred(cc)(c),
{
    match cc {
        CharClass::Hash => c == '#',
        CharClass::Id => !is_whitespace(c) && c != ':',
        CharClass::Digit => '0' <= c && c <= '9',
        CharClass::NotClose => c != ')',
        CharClass::Whitespace => is_whitespace(c),
    }
}

/// Number of characters of class `cc` starting at position `i`.
pub fn class_run(l: &Vec<char>, i: usize, cc: CharClass) -> (res: usize)
    ensures
        res == run_len(l@, i as int, class_pred(cc)),
        i + res <= l@.len() || res == 0,
{
    let mut j = i;
    while j < l.len() && in_class(cc, l[j])
        invariant
            i <= j,
            j <= l@.len() || j == i,
            run_len(l@, i as int, class_pred(cc)) == (j - i) + run_len(l@, j as int, class_pred(cc)),
        decreases l@.len() - j,
    {
        j = j + 1;
    }
    j - i
}

/// The view of optional characters.
pub open spec fn opt_chars(o: Option<Vec<char>>) -> Option<Seq<char>> {
    match o {
        Some(v) => Some(v@),
        None => None,
    }
}

fn title_ok_at(l: &Vec<char>, q: usize) -> (res: bool)
    ensures
        res == title_ok(l@, q as int),
{
    q < l.len() && l.len() - q > 2 && l[q] == ':' && is_whitespace(l[q + 1])
}

/// The captures of the part after the ID's closing backtick, starting at `q`.
pub fn tail_at(l: &Vec<char>, q: usize) -> (res: Option<(Option<Vec<char>>, Option<Vec<char>>)>)
    ensures
        match res {
            Some((v, a)) => tail_captures(l@, q as int) == Some((opt_chars(v), opt_chars(a))),
            None => tail_captures(l@, q as int) is None,
        },
        res matches Some((Some(v), _)) ==> v@.len() <= 7 && forall|i: int| 0 <= i < v@.len() ==> is_digit(#[trigger] v@[i]),
{
    reveal(tail_captures);
    if q < l.len() && l[q] == '(' {
        let a = class_run(l, q + 1, CharClass::NotClose);
        if a >= 1 && a < l.len() - q - 1 {
            let e = q + 1 + a;
            if title_ok_at(l, e + 1) {
                let d = if q + 2 <= l.len() { class_run(l, q + 2, CharClass::Digit) } else { 0 };
                proof {
                    if q + 2 > l@.len() {
                        assert(run_len(l@, q + 2, class_pred(CharClass::Digit)) == 0);
                    }
                }
                if l[q + 1] == 'v' && 1 <= d && d <= 7 && q + 2 + d < l.len() && l[q + 2 + d] == ':' && q + 3 + d < e {
                    let version = slice_chars(l, q + 2, q + 2 + d);
                    proof {
                        lemma_run_len_bounds(l@, q + 2, class_pred(CharClass::Digit));
                        assert forall|i: int| 0 <= i < version@.len() implies is_digit(#[trigger] version@[i]) by {
                            assert(version@[i] == l@[q + 2 + i]);
                            assert((class_pred(CharClass::Digit))(l@[q + 2 + i]));
                        }
                    }
                    let annotation = slice_chars(l, q + 3 + d, e);
                    return Some((Some(version), Some(annotation)));
                } else {
                    let annotation = slice_chars(l, q + 1, e);
                    return Some((None, Some(annotation)));
                }
            }
        }
        None
    } else if title_ok_at(l, q) {
        Some((None, None))
    } else {
        None
    }
}

/// The longest working ID length is the one chosen.
proof fn lemma_longest_id(l: Seq<char>, start: int, k: int)
    requires
        id_len_ok(l, start, k),
        forall|k2: int| k < k2 ==> !#[trigger] id_len_ok(l, start, k2),
    ensures
        (choose|kc: int| #[trigger] id_len_ok(l, start, kc) && forall|k2: int| kc < k2 ==> !#[trigger] id_len_ok(l, start, k2)) == k,
{
    let kc = choose|kc: int| #[trigger] id_len_ok(l, start, kc) && forall|k2: int| kc < k2 ==> !#[trigger] id_len_ok(l, start, k2);
    assert(id_len_ok(l, start, kc) && forall|k2: int| kc < k2 ==> !#[trigger] id_len_ok(l, start, k2));
    if kc < k {
        assert(!id_len_ok(l, start, k));
    }
    if kc > k {
        assert(!id_len_ok(l, start, kc));
    }
}

proof fn lemma_heading_found(l: Seq<char>, start: int, k: int)
    requires
        start == run_len(l, 0, class_pred(CharClass::Hash)) + 2,
        1 <= start - 2 <= 6,
        start - 1 < l.len(),
        is_white(l[start - 2]),
        l[start - 1] == '`',
        id_len_ok(l, start, k),
        forall|k2: int| k < k2 ==> !#[trigger] id_len_ok(l, start, k2),
    ensures
        ({
            let t = tail_captures(l, start + k + 1)->0;
            heading_captures(l) == Some((l.subrange(start, start + k), t.0, t.1))
        }),
{
    lemma_longest_id(l, start, k);
    reveal(heading_captures);
}

/// The captures `(id, version, annotation)` of a requirement heading line.
pub fn match_heading(l: &Vec<char>) -> (res: Option<(Vec<char>, Option<Vec<char>>, Option<Vec<char>>)>)
    ensures
        match res {
            Some((i, v, a)) => heading_captures(l@) == Some((i@, opt_chars(v), opt_chars(a))),
            None => heading_captures(l@) is None,
        },
        res matches Some((_, Some(v), _)) ==> v@.len() <= 7 && forall|i: int| 0 <= i < v@.len() ==> is_digit(#[trigger] v@[i]),
{
    let h = class_run(l, 0, CharClass::Hash);
    if !(1 <= h && h <= 6 && h + 1 < l.len() && is_whitespace(l[h]) && l[h + 1] == '`') {
        proof {
            reveal(heading_captures);
        }
        return None;
    }
    let start = h + 2;
    let run = if start <= l.len() { class_run(l, start, CharClass::Id) } else { 0 };
    proof {
        if start > l@.len() {
            assert(run_len(l@, start as int, class_pred(CharClass::Id)) == 0);
        }
    }
    let mut k = run;
    proof {
        reveal(id_len_ok);
    }
    while k >= 1
        invariant
            start == h + 2,
            h == run_len(l@, 0, class_pred(CharClass::Hash)),
            1 <= h <= 6,
            h + 1 < l@.len(),
            is_white(l@[h as int]),
            l@[h + 1] == '`',
            start <= l@.len(),
            run == run_len(l@, start as int, class_pred(CharClass::Id)),
            k <= run,
            start + run <= l@.len() || run == 0,
            forall|k2: int| k < k2 ==> !#[trigger] id_len_ok(l@, start as int, k2),
        decreases k,
    {
        assert(run != 0);
        assert(start + run <= l@.len());
        assert(start + k <= l@.len());
        if k < l.len() - start && l[start + k] == '`' {
            let tail = tail_at(l, start + k + 1);
            proof {
                reveal(id_len_ok);
                if tail is None {
                    assert(!id_len_ok(l@, start as int, k as int));
                }
            }
            match tail {
                Some((v, a)) => {
                    let id = slice_chars(l, start, start + k);
                    proof {
                        assert(id_len_ok(l@, start as int, k as int));
                        lemma_heading_found(l@, start as int, k as int);
                    }
                    return Some((id, v, a));
                },
                None => {},
            }
        }
        proof {
            reveal(id_len_ok);
            if !(start + k < l@.len() && l@[start + k] == '`') {
                assert(!id_len_ok(l@, start as int, k as int));
            }
        }
        k = k - 1;
    }
    proof {
        assert forall|k2: int| !#[trigger] id_len_ok(l@, start as int, k2) by {
            reveal(id_len_ok);
            if id_len_ok(l@, start as int, k2) {
                assert(k2 >= 1);
            }
        }
        reveal(heading_captures);
    }
    None
}

/// Not a line feed.
pub open spec fn not_newline() -> spec_fn(char) -> bool {
    |c: char| c != '\n'
}

/// A line without its carriage return, if it ends with one.
pub open spec fn strip_cr(l: Seq<char>) -> Seq<char> {
    if l.len() > 0 && l.last() == '\r' {
        l.drop_last()
    } else {
        l
    }
}

/// The lines of a text as `str::lines` yields them: split after each line feed, a
/// carriage return before the line feed removed, no empty line after a final line feed.
pub open spec fn spec_lines(s: Seq<char>) -> Seq<Seq<char>>
    decreases s.len(),
{
    if s.len() == 0 {
        seq![]
    } else {
        let p = run_len(s, 0, not_newline()) as int;
        if p >= s.len() {
            seq![s]
        } else {
            seq![strip_cr(s.take(p))] + spec_lines(s.skip(p + 1))
        }
    }
}

proof fn lemma_run_len_bounds(t: Seq<char>, i: int, p: spec_fn(char) -> bool)
    requires
        0 <= i <= t.len(),
    ensures
        i + run_len(t, i, p) <= t.len(),
        forall|j: int| i <= j < i + run_len(t, i, p) ==> p(#[trigger] t[j]),
        i + run_len(t, i, p) < t.len() ==> !p(t[i + run_len(t, i, p)]),
    decreases t.len() - i,
{
    if i < t.len() && p(t[i]) {
        lemma_run_len_bounds(t, i + 1, p);
    }
}

proof fn lemma_run_len_exact(t: Seq<char>, i: int, k: int, p: spec_fn(char) -> bool)
    requires
        0 <= i <= k <= t.len(),
        forall|j: int| i <= j < k ==> p(#[trigger] t[j]),
        k == t.len() || !p(t[k]),
    ensures
        run_len(t, i, p) == k - i,
    decreases k - i,
{
    if i < k {
        lemma_run_len_exact(t, i + 1, k, p);
    }
}

/// Views of lines.
pub open spec fn lines_view(v: Seq<Vec<char>>) -> Seq<Seq<char>> {
    v.map_values(|l: Vec<char>| l@)
}

/// The lines of `content`, as `str::lines` yields them.
pub fn lines_of(content: &str) -> (res: Vec<Vec<char>>)
    ensures
        lines_view(res@) == spec_lines(content@),
{
    let s = text::to_chars(content);
    let mut out: Vec<Vec<char>> = Vec::new();
    let mut cur: Vec<char> = Vec::new();
    let mut i: usize = 0;
    proof {
        assert(cur@ + s@.skip(0) == s@);
    }
    while i < s.len()
        invariant
            s@ == content@,
            i <= s@.len(),
            forall|j: int| 0 <= j < cur@.len() ==> cur@[j] != '\n',
            spec_lines(s@) == lines_view(out@) + spec_lines(cur@ + s@.skip(i as int)),
        decreases s@.len() - i,
    {
        let c = s[i];
        if c == '\n' {
            let ghost t = cur@ + s@.skip(i as int);
            proof {
                assert(t[cur@.len() as int] == '\n');
                assert forall|j: int| 0 <= j < cur@.len() implies (not_newline())(#[trigger] t[j]) by {
                    assert(t[j] == cur@[j]);
                }
                lemma_run_len_exact(t, 0, cur@.len() as int, not_newline());
                assert(t.take(cur@.len() as int) == cur@);
                assert(t.skip(cur@.len() as int + 1) == s@.skip(i + 1));
                assert(spec_lines(t) == seq![strip_cr(cur@)] + spec_lines(s@.skip(i + 1)));
                assert(Seq::<char>::empty() + s@.skip(i + 1) == s@.skip(i + 1));
            }
            let line = if cur.len() > 0 && cur[cur.len() - 1] == '\r' {
                let mut l = cur;
                l.pop();
                l
            } else {
                cur
            };
            let ghost old_out = out@;
            out.push(line);
            cur = Vec::new();
            proof {
                assert(lines_view(out@) == lines_view(old_out) + seq![line@]);
                assert(cur@ + s@.skip(i + 1) == s@.skip(i + 1));
            }
        } else {
            let ghost old_cur = cur@;
            cur.push(c);
            proof {
                assert(cur@ + s@.skip(i + 1) == old_cur + s@.skip(i as int));
            }
        }
        i = i + 1;
    }
    proof {
        let t = cur@ + s@.skip(i as int);
        assert(t == cur@);
        if cur@.len() > 0 {
            assert forall|j: int| 0 <= j < cur@.len() implies (not_newline())(#[trigger] t[j]) by {}
            lemma_run_len_exact(t, 0, cur@.len() as int, not_newline());
        }
    }
    if cur.len() > 0 {
        let ghost old_out = out@;
        out.push(cur);
        proof {
            assert(lines_view(out@) == lines_view(old_out) + lines_view(seq![out@[out@.len() - 1]]));
        }
    } else {
        assert(lines_view(out@) + seq![] == lines_view(out@));
    }
    out
}

/// After leading whitespace, the line starts with a code fence (three backticks or tildes).
pub open spec fn is_fence(l: Seq<char>) -> bool {
    let w = run_len(l, 0, class_pred(CharClass::Whitespace)) as int;
    w + 3 <= l.len() && (l.subrange(w, w + 3) == seq!['`', '`', '`'] || l.subrange(w, w + 3) == seq![
        '~',
        '~',
        '~',
    ])
}

/// Whether the first `n` lines leave the text inside a fenced code block.
pub open spec fn verbatim_after(ls: Seq<Seq<char>>, n: nat) -> bool
    decreases n,
{
    if n == 0 {
        false
    } else {
        verbatim_after(ls, (n - 1) as nat) != is_fence(ls[n - 1])
    }
}

/// The value of a sequence of decimal digits.
pub open spec fn digits_value(d: Seq<char>) -> nat
    decreases d.len(),
{
    if d.len() == 0 {
        0
    } else {
        digits_value(d.drop_last()) * 10 + (d.last() as nat - '0' as nat) as nat
    }
}

/// The annotation kept for a requirement: dropped if the requirement is annotated for a
/// later version than the requested one.
pub open spec fn kept_annotation(
    version: Option<usize>,
    extracted: Option<Seq<char>>,
    annotation: Option<Seq<char>>,
) -> Option<Seq<char>> {
    if version matches Some(v) && extracted matches Some(d) && v < digits_value(d) {
        None
    } else {
        annotation
    }
}

/// The requirements `(id, line, annotation)` found in the first `n` lines.
pub open spec fn wiki_reqs(ls: Seq<Seq<char>>, version: Option<usize>, n: nat) -> Seq<
    (Seq<char>, int, Option<Seq<char>>),
>
    decreases n,
{
    if n == 0 {
        seq![]
    } else {
        let prev = wiki_reqs(ls, version, (n - 1) as nat);
        let l = ls[n - 1];
        if !verbatim_after(ls, n) && heading_captures(l) is Some {
            let c = heading_captures(l)->0;
            prev.push((c.0, n as int, kept_annotation(version, c.1, c.2)))
        } else {
            prev
        }
    }
}

fn fence_at(l: &Vec<char>) -> (res: bool)
    ensures
        res == is_fence(l@),
{
    let w = class_run(l, 0, CharClass::Whitespace);
    proof {
        lemma_run_len_bounds(l@, 0, class_pred(CharClass::Whitespace));
    }
    if l.len() - w < 3 {
        return false;
    }
    let a = l[w];
    let b = l[w + 1];
    let c = l[w + 2];
    let res = (a == '`' && b == '`' && c == '`') || (a == '~' && b == '~' && c == '~');
    proof {
        let sub = l@.subrange(w as int, w + 3);
        if res {
            if a == '`' {
                assert(sub =~= seq!['`', '`', '`']);
            } else {
                assert(sub =~= seq!['~', '~', '~']);
            }
        } else {
            if sub == seq!['`', '`', '`'] {
                assert(sub[0] == '`' && sub[1] == '`' && sub[2] == '`');
            }
            if sub == seq!['~', '~', '~'] {
                assert(sub[0] == '~' && sub[1] == '~' && sub[2] == '~');
            }
        }
    }
    res
}

/// The value of at most seven decimal digits.
fn digits_to_usize(d: &Vec<char>) -> (res: usize)
    requires
        d@.len() <= 7,
        forall|i: int| 0 <= i < d@.len() ==> is_digit(#[trigger] d@[i]),
    ensures
        res == digits_value(d@),
{
    let mut v: usize = 0;
    let mut i: usize = 0;
    while i < d.len()
        invariant
            i <= d@.len() <= 7,
            forall|j: int| 0 <= j < d@.len() ==> is_digit(#[trigger] d@[j]),
            v == digits_value(d@.take(i as int)),
            v < pow10(i as nat),
        decreases d@.len() - i,
    {
        let c = d[i];
        assert(is_digit(d@[i as int]));
        let digit = (c as u32 - '0' as u32) as usize;
        proof {
            assert(d@.take(i + 1).drop_last() == d@.take(i as int));
            assert(pow10((i + 1) as nat) == 10 * pow10(i as nat));
            lemma_pow10_bound(i as nat);
        }
        v = v * 10 + digit;
        i = i + 1;
    }
    assert(d@.take(d@.len() as int) == d@);
    v
}

/// Ten to the power `n`.
pub open spec fn pow10(n: nat) -> nat
    decreases n,
{
    if n == 0 {
        1
    } else {
        10 * pow10((n - 1) as nat)
    }
}

proof fn lemma_pow10_bound(n: nat)
    requires
        n <= 6,
    ensures
        pow10(n) <= 1_000_000,
{
    reveal_with_fuel(pow10, 7);
    if n == 0 {
    } else if n == 1 {
    } else if n == 2 {
    } else if n == 3 {
    } else if n == 4 {
    } else if n == 5 {
    } else {
        assert(pow10(6) == 1_000_000);
    }
}

/// The requirements defined by headings in a wiki page, in order of appearance, outside
/// fenced code blocks. Each gets the 1-based line of its heading; an annotation given for a
/// later version than `version` is dropped.
pub fn extract_from_wiki_content(content: &str, filepath: &str, link: &str, version: Option<usize>) -> (res: Vec<
    WikiRequirement,
>)
    ensures
        ({
            let ls = spec_lines(content@);
            let spec = wiki_reqs(ls, version, ls.len());
            &&& res@.len() == spec.len()
            &&& forall|k: int| 0 <= k < spec.len() ==> {
                &&& (#[trigger] res@[k]).id@ == spec[k].0
                &&& res@[k].line == spec[k].1
                &&& opt_string(res@[k].annotation) == spec[k].2
                &&& res@[k].link@ == link@
                &&& res@[k].path@ == filepath@
            }
        }),
{
    let lines = lines_of(content);
    let ghost ls = spec_lines(content@);
    let mut reqs: Vec<WikiRequirement> = Vec::new();
    let mut in_verbatim = false;
    let mut i: usize = 0;
    while i < lines.len()
        invariant
            lines_view(lines@) == ls,
            i <= lines@.len(),
            in_verbatim == verbatim_after(ls, i as nat),
            ({
                let spec = wiki_reqs(ls, version, i as nat);
                &&& reqs@.len() == spec.len()
                &&& forall|k: int| 0 <= k < spec.len() ==> {
                    &&& (#[trigger] reqs@[k]).id@ == spec[k].0
                    &&& reqs@[k].line == spec[k].1
                    &&& opt_string(reqs@[k].annotation) == spec[k].2
                    &&& reqs@[k].link@ == link@
                    &&& reqs@[k].path@ == filepath@
                }
            }),
        decreases lines@.len() - i,
    {
        let line = &lines[i];
        assert(line@ == ls[i as int]);
        if fence_at(line) {
            in_verbatim = !in_verbatim;
        }
        let ghost prev = wiki_reqs(ls, version, i as nat);
        if !in_verbatim {
            match match_heading(line) {
                Some((id, extracted, annotation)) => {
                    let mut kept = annotation;
                    if let Some(v) = version {
                        if let Some(d) = &extracted {
                            if v < digits_to_usize(d) {
                                kept = None;
                            }
                        }
                    }
                    let ghost old_reqs = reqs@;
                    reqs.push(WikiRequirement {
                        id: text::from_chars(id.as_slice()),
                        link: link.to_string(),
                        path: filepath.to_string(),
                        line: i + 1,
                        annotation: match kept {
                            Some(a) => Some(text::from_chars(a.as_slice())),
                            None => None,
                        },
                    });
                    proof {
                        let spec = wiki_reqs(ls, version, (i + 1) as nat);
                        assert(spec == prev.push((id@, (i + 1) as int, kept_annotation(version, opt_chars(extracted), opt_chars(annotation)))));
                        assert forall|k: int| 0 <= k < spec.len() implies {
                            &&& (#[trigger] reqs@[k]).id@ == spec[k].0
                            &&& reqs@[k].line == spec[k].1
                            &&& opt_string(reqs@[k].annotation) == spec[k].2
                            &&& reqs@[k].link@ == link@
                            &&& reqs@[k].path@ == filepath@
                        } by {
                            if k < prev.len() {
                                assert(reqs@[k] == old_reqs[k]);
                            }
                        }
                    }
                },
                None => {},
            }
        }
        i = i + 1;
    }
    reqs
}

/// The view of an optional string.
pub open spec fn opt_string(o: Option<String>) -> Option<Seq<char>> {
    match o {
        Some(s) => Some(s@),
        None => None,
    }
}

} // verus!
