//! Mapping covered lines of a file to the traces whose spans contain them.
use intervaltree::IntervalTree;
use vstd::multiset::Multiset;
use vstd::prelude::*;

use crate::test_runs::UtcTime;

verus! {

broadcast use {vstd::seq_lib::group_to_multiset_ensures, vstd::multiset::lemma_multiset_empty_len};

#[verifier::external_type_specification]
#[verifier::external_body]
#[verifier::reject_recursive_types(K)]
#[verifier::reject_recursive_types(V)]
pub struct ExIntervalTree<K, V>(intervaltree::IntervalTree<K, V>);

/// What `time::OffsetDateTime::parse` with the default ISO 8601 format description gives for
/// a text: `None` where it refuses the text, else the instant as Unix seconds and the
/// nanoseconds within that second.
pub uninterp spec fn iso8601_instant(text: Seq<char>) -> Option<(i64, u32)>;

/// The instant of an ISO 8601 text, through `time::OffsetDateTime::parse` with
/// `Iso8601::DEFAULT`; the offset of the text is folded into the instant.
#[verifier::external_body]
fn parse_iso8601(text: &str) -> (res: Option<UtcTime>)
    ensures
        match iso8601_instant(text@) {
            Some((secs, nanos)) => res == Some(UtcTime { secs, nanos }),
            None => res is None,
        },
{
    time::OffsetDateTime::parse(text, &time::format_description::well_known::Iso8601::DEFAULT).ok().map(
        |t| UtcTime { secs: t.unix_timestamp(), nanos: t.nanosecond() },
    )
}

/// The instant of a test-run date stored in ISO 8601 form. Such dates are written by the
/// collection itself, so a text that does not parse is ruled out.
pub fn iso8601_str_to_offsetdatetime(time_str: &str) -> (res: UtcTime)
    requires
        iso8601_instant(time_str@) is Some,
    ensures
        iso8601_instant(time_str@) == Some((res.secs, res.nanos)),
{
    match parse_iso8601(time_str) {
        Some(t) => t,
        None => UtcTime { secs: 0, nanos: 0 },
    }
}

/// The instant of an ISO 8601 text, or `None` where it is not one.
pub fn try_iso8601_str_to_offsetdatetime(time_str: &str) -> (res: Option<UtcTime>)
    ensures
        match iso8601_instant(time_str@) {
            Some((secs, nanos)) => res == Some(UtcTime { secs, nanos }),
            None => res is None,
        },
{
    match parse_iso8601(time_str) {
        Some(_) => Some(iso8601_str_to_offsetdatetime(time_str)),
        None => None,
    }
}

/// A line reported as covered, with its hit count.
#[derive(Debug, Clone, Copy, PartialEq, Eq, PartialOrd, Ord, Hash)]
pub struct CoveredLine {
    pub line: usize,
    pub hits: usize,
}

/// The span `start..end` (end exclusive) of the item traced at `line` to requirement `req_id`.
#[derive(Debug, Clone, PartialEq, Eq)]
pub struct TraceSpan {
    pub start: usize,
    pub end: usize,
    pub req_id: String,
    pub line: usize,
}

/// The requirements of the trace at `line` whose span contains a covered line.
#[derive(Debug, Clone, PartialEq, Eq)]
pub struct CoveredFileTrace {
    pub req_ids: Vec<String>,
    pub line: usize,
}

/// Identifies a trace: requirement, file and line.
#[derive(Debug, Clone, PartialEq, Eq)]
pub struct TracePk {
    pub req_id: String,
    pub filepath: String,
    pub line: usize,
}

/// The traces that coverage was added for.
#[derive(Debug, Clone, PartialEq, Eq)]
pub struct CoverageChanges {
    pub inserted: Vec<TracePk>,
}

/// Files holding coverage data.
#[derive(Debug, Clone, PartialEq, Eq)]
pub struct Config {
    pub files: Vec<String>,
}

/// `a` orders before or equal to `b`: by line, then by hits.
pub open spec fn line_le(a: CoveredLine, b: CoveredLine) -> bool {
    a.line < b.line || (a.line == b.line && a.hits <= b.hits)
}

/// The lines are sorted by line, then hits.
pub open spec fn lines_sorted(s: Seq<CoveredLine>) -> bool {
    forall|i: int, j: int| 0 <= i < j < s.len() ==> line_le(s[i], s[j])
}

fn line_lt(a: &CoveredLine, b: &CoveredLine) -> (res: bool)
    ensures
        res == !line_le(*b, *a),
{
    a.line < b.line || (a.line == b.line && a.hits < b.hits)
}

/// Sorts covered lines by line, then hits.
pub fn sort_covered_lines(lines: &mut Vec<CoveredLine>)
    ensures
        lines_sorted(final(lines)@),
        final(lines)@.to_multiset() == old(lines)@.to_multiset(),
{
    let mut out: Vec<CoveredLine> = Vec::new();
    let n = lines.len();
    assert(lines@.take(0) =~= Seq::<CoveredLine>::empty());
    for k in 0..n
        invariant
            n == lines@.len(),
            lines_sorted(out@),
            out@.to_multiset() == lines@.take(k as int).to_multiset(),
    {
        let x = lines[k];
        let mut p: usize = 0;
        while p < out.len() && !line_lt(&x, &out[p])
            invariant
                p <= out@.len(),
                forall|i: int| 0 <= i < p ==> line_le(out@[i], x),
            decreases out@.len() - p,
        {
            p = p + 1;
        }
        let ghost old_out = out@;
        out.insert(p, x);
        proof {
            assert(lines@.take(k + 1) == lines@.take(k as int).push(x));
            assert forall|i: int, j: int| 0 <= i < j < out@.len() implies line_le(out@[i], out@[j]) by {
                if j < p {
                } else if j == p {
                } else if i < p {
                    assert(line_le(old_out[i], x));
                    assert(p < old_out.len());
                    assert(!line_le(old_out[p as int], x));
                    assert(line_le(x, old_out[j - 1]) || true);
                } else if i == p {
                    assert(!line_le(old_out[p as int], x));
                    if j - 1 > p {
                        assert(line_le(old_out[p as int], old_out[j - 1]));
                    }
                }
            }
        }
    }
    assert(lines@.take(n as int) == lines@);
    *lines = out;
}

/// Some span traced at `tl` to requirement `r` contains one of the first `n` covered lines.
pub open spec fn covers_within(spans: Seq<TraceSpan>, lines: Seq<CoveredLine>, n: int, tl: usize, r: Seq<char>) -> bool {
    exists|i: int, j: int|
        0 <= i < spans.len() && 0 <= j < n && spans[i].line == tl && (#[trigger] spans[i]).req_id@ == r
            && spans[i].start <= (#[trigger] lines[j]).line < spans[i].end
}

/// Some span traced at `tl` contains one of the first `n` covered lines.
pub open spec fn covers_line_within(spans: Seq<TraceSpan>, lines: Seq<CoveredLine>, n: int, tl: usize) -> bool {
    exists|i: int, j: int|
        0 <= i < spans.len() && 0 <= j < n && (#[trigger] spans[i]).line == tl && spans[i].start
            <= (#[trigger] lines[j]).line < spans[i].end
}

/// Some span traced at `tl` to requirement `r` contains a covered line.
pub open spec fn covers(spans: Seq<TraceSpan>, lines: Seq<CoveredLine>, tl: usize, r: Seq<char>) -> bool {
    covers_within(spans, lines, lines.len() as int, tl, r)
}

/// Some span traced at `tl` contains a covered line.
pub open spec fn covers_line(spans: Seq<TraceSpan>, lines: Seq<CoveredLine>, tl: usize) -> bool {
    covers_line_within(spans, lines, lines.len() as int, tl)
}

/// A span as plain values: start, end, requirement and trace line.
pub open spec fn span_view(s: TraceSpan) -> (usize, usize, Seq<char>, usize) {
    (s.start, s.end, s.req_id@, s.line)
}

/// The spans as a multiset of plain values.
pub open spec fn spans_multiset(s: Seq<TraceSpan>) -> Multiset<(usize, usize, Seq<char>, usize)> {
    s.map_values(|t: TraceSpan| span_view(t)).to_multiset()
}

/// The span element `e` contains `point`.
pub open spec fn element_contains(e: (usize, usize, Seq<char>, usize), point: usize) -> bool {
    e.0 <= point && point < e.1
}

/// What an interval tree of traces holds: each element as start, end, requirement and trace line.
pub uninterp spec fn trace_tree_elements(tree: IntervalTree<usize, (String, usize)>) -> Multiset<(usize, usize, Seq<char>, usize)>;

/// Builds the tree with `intervaltree::IntervalTree::from_iter`, one element `start..end`
/// with value `(req_id, line)` per span. The source keeps every element it is given (it
/// sorts them by start and computes subtree maxima), so the tree holds exactly the spans.
#[verifier::external_body]
fn trace_tree(spans: &Vec<TraceSpan>) -> (tree: IntervalTree<usize, (String, usize)>)
    ensures
        trace_tree_elements(tree) == spans_multiset(spans@),
{
    spans.iter().map(|s| intervaltree::Element { range: s.start..s.end, value: (s.req_id.clone(), s.line) }).collect()
}

/// Collects `intervaltree::IntervalTree::query_point`: every element whose range
/// `start..end` contains the point, each element once, in no particular order.
#[verifier::external_body]
fn spans_containing(tree: &IntervalTree<usize, (String, usize)>, point: usize) -> (found: Vec<TraceSpan>)
    ensures
        spans_multiset(found@) == trace_tree_elements(*tree).filter(
            |e: (usize, usize, Seq<char>, usize)| element_contains(e, point),
        ),
{
    tree.query_point(point).map(|e| TraceSpan { start: e.range.start, end: e.range.end, req_id: e.value.0.clone(), line: e.value.1 }).collect()
}

proof fn lemma_spans_multiset_contains(s: Seq<TraceSpan>, x: (usize, usize, Seq<char>, usize))
    ensures
        spans_multiset(s).count(x) > 0 <==> exists|i: int| 0 <= i < s.len() && span_view(#[trigger] s[i]) == x,
{
    let mv = s.map_values(|t: TraceSpan| span_view(t));
    assert(mv.contains(x) <==> mv.to_multiset().count(x) > 0);
    if mv.contains(x) {
        let i = choose|i: int| 0 <= i < mv.len() && mv[i] == x;
        assert(span_view(s[i]) == x);
    }
    if exists|i: int| 0 <= i < s.len() && span_view(#[trigger] s[i]) == x {
        let i = choose|i: int| 0 <= i < s.len() && span_view(#[trigger] s[i]) == x;
        assert(mv[i] == x);
    }
}

/// The spans found at `point` are, as trace line and requirement, those of all spans containing it.
proof fn lemma_found_spans(found: Seq<TraceSpan>, spans: Seq<TraceSpan>, point: usize)
    requires
        spans_multiset(found) == spans_multiset(spans).filter(
            |e: (usize, usize, Seq<char>, usize)| element_contains(e, point),
        ),
    ensures
        forall|x: (usize, usize, Seq<char>, usize)|
            (exists|h: int| 0 <= h < found.len() && span_view(#[trigger] found[h]) == x) <==> (exists|i: int|
                0 <= i < spans.len() && span_view(#[trigger] spans[i]) == x) && element_contains(x, point),
{
    assert forall|x: (usize, usize, Seq<char>, usize)|
        (exists|h: int| 0 <= h < found.len() && span_view(#[trigger] found[h]) == x) <==> (exists|i: int|
            0 <= i < spans.len() && span_view(#[trigger] spans[i]) == x) && element_contains(x, point) by {
        lemma_spans_multiset_contains(found, x);
        lemma_spans_multiset_contains(spans, x);
    }
}

/// The entry at `k` holds requirement `r`.
pub open spec fn entry_has(out: Seq<CoveredFileTrace>, k: int, r: Seq<char>) -> bool {
    exists|m: int| 0 <= m < out[k].req_ids@.len() && (#[trigger] out[k].req_ids@[m])@ == r
}

/// Some entry is for trace line `tl` and holds requirement `r`.
pub open spec fn has_pair(out: Seq<CoveredFileTrace>, tl: usize, r: Seq<char>) -> bool {
    exists|k: int| 0 <= k < out.len() && (#[trigger] out[k]).line == tl && entry_has(out, k, r)
}

/// Some entry is for trace line `tl`.
pub open spec fn has_line(out: Seq<CoveredFileTrace>, tl: usize) -> bool {
    exists|k: int| 0 <= k < out.len() && (#[trigger] out[k]).line == tl
}

/// Entries have distinct lines, at least one requirement each, and no requirement twice.
pub open spec fn traces_wf(out: Seq<CoveredFileTrace>) -> bool {
    &&& forall|a: int, b: int| 0 <= a < b < out.len() ==> (#[trigger] out[a]).line != (#[trigger] out[b]).line
    &&& forall|k: int| 0 <= k < out.len() ==> (#[trigger] out[k]).req_ids@.len() > 0
    &&& forall|k: int, a: int, b: int|
        0 <= k < out.len() && 0 <= a < b < out[k].req_ids@.len() ==> (#[trigger] out[k].req_ids@[a])@
            != (#[trigger] out[k].req_ids@[b])@
}

fn contains_string(v: &Vec<String>, s: &String) -> (res: bool)
    ensures
        res == exists|m: int| 0 <= m < v@.len() && (#[trigger] v@[m])@ == s@,
{
    let mut i: usize = 0;
    while i < v.len()
        invariant
            i <= v@.len(),
            forall|m: int| 0 <= m < i ==> (#[trigger] v@[m])@ != s@,
        decreases v@.len() - i,
    {
        if v[i] == *s {
            return true;
        }
        i = i + 1;
    }
    false
}

/// Records requirement `req_id` for the trace at `tl`.
fn add_covered(out: &mut Vec<CoveredFileTrace>, tl: usize, req_id: &String)
    requires
        traces_wf(old(out)@),
    ensures
        traces_wf(final(out)@),
        forall|l: usize, r: Seq<char>| has_pair(final(out)@, l, r) == (has_pair(old(out)@, l, r) || (l == tl && r == req_id@)),
        forall|l: usize| has_line(final(out)@, l) == (has_line(old(out)@, l) || l == tl),
{
    let ghost o = out@;
    let mut k: usize = 0;
    while k < out.len()
        invariant
            out@ == o,
            k <= o.len(),
            forall|j: int| 0 <= j < k ==> (#[trigger] o[j]).line != tl,
        ensures
            k <= o.len(),
            k < o.len() ==> o[k as int].line == tl,
            forall|j: int| 0 <= j < k ==> (#[trigger] o[j]).line != tl,
        decreases o.len() - k,
    {
        if out[k].line == tl {
            break;
        }
        k = k + 1;
    }
    if k < out.len() {
        if !contains_string(&out[k].req_ids, req_id) {
            let mut entry = out.remove(k);
            let ghost old_entry = entry;
            assert(old_entry == o[k as int]);
            entry.req_ids.push(req_id.clone());
            out.insert(k, entry);
            proof {
                assert(out@ == o.update(k as int, entry));
                assert forall|l: usize, r: Seq<char>| has_pair(out@, l, r) == (has_pair(o, l, r) || (l == tl && r == req_id@)) by {
                    if has_pair(out@, l, r) {
                        let j = choose|j: int| 0 <= j < out@.len() && (#[trigger] out@[j]).line == l && entry_has(out@, j, r);
                        let m = choose|m: int| 0 <= m < out@[j].req_ids@.len() && (#[trigger] out@[j].req_ids@[m])@ == r;
                        if j != k {
                            assert(entry_has(o, j, r));
                        } else if m < old_entry.req_ids@.len() {
                            assert(o[j].req_ids@[m] == out@[j].req_ids@[m]);
                            assert(entry_has(o, j, r));
                        }
                    }
                    if has_pair(o, l, r) {
                        let j = choose|j: int| 0 <= j < o.len() && (#[trigger] o[j]).line == l && entry_has(o, j, r);
                        let m = choose|m: int| 0 <= m < o[j].req_ids@.len() && (#[trigger] o[j].req_ids@[m])@ == r;
                        if j == k {
                            assert(out@[j].req_ids@[m] == o[j].req_ids@[m]);
                            assert(out@[j].req_ids@[m]@ == r);
                        } else {
                            assert(out@[j] == o[j]);
                            assert(out@[j].req_ids@[m]@ == r);
                        }
                        assert(entry_has(out@, j, r));
                    }
                    if l == tl && r == req_id@ {
                        let m = old_entry.req_ids@.len() as int;
                        assert(out@[k as int].req_ids@[m]@ == r);
                        assert(entry_has(out@, k as int, r));
                    }
                }
                assert forall|l: usize| has_line(out@, l) == (has_line(o, l) || l == tl) by {
                    if has_line(o, l) {
                        let j = choose|j: int| 0 <= j < o.len() && (#[trigger] o[j]).line == l;
                        assert(out@[j].line == l);
                    }
                    if has_line(out@, l) {
                        let j = choose|j: int| 0 <= j < out@.len() && (#[trigger] out@[j]).line == l;
                        assert(o[j].line == l);
                    }
                    if l == tl {
                        assert(out@[k as int].line == l);
                    }
                }
                assert forall|j: int, a: int, b: int|
                    0 <= j < out@.len() && 0 <= a < b < out@[j].req_ids@.len() implies (#[trigger] out@[j].req_ids@[a])@
                        != (#[trigger] out@[j].req_ids@[b])@ by {
                    if j == k {
                        if b == old_entry.req_ids@.len() {
                            assert(old_entry.req_ids@[a] == out@[j].req_ids@[a]);
                        } else {
                            assert(o[j].req_ids@[a] == out@[j].req_ids@[a]);
                            assert(o[j].req_ids@[b] == out@[j].req_ids@[b]);
                        }
                    } else {
                        assert(o[j] == out@[j]);
                    }
                }
                assert forall|a: int, b: int| 0 <= a < b < out@.len() implies (#[trigger] out@[a]).line != (#[trigger] out@[b]).line by {
                    assert(o[a].line == out@[a].line && o[b].line == out@[b].line);
                }
            }
        } else {
            proof {
                assert forall|l: usize, r: Seq<char>| has_pair(out@, l, r) == (has_pair(o, l, r) || (l == tl && r == req_id@)) by {
                    if l == tl && r == req_id@ {
                        assert(entry_has(o, k as int, r));
                    }
                }
                assert forall|l: usize| has_line(out@, l) == (has_line(o, l) || l == tl) by {
                    if l == tl {
                        assert(o[k as int].line == l);
                    }
                }
            }
        }
    } else {
        let mut ids: Vec<String> = Vec::new();
        ids.push(req_id.clone());
        out.push(CoveredFileTrace { req_ids: ids, line: tl });
        proof {
            let n = o.len() as int;
            assert(out@[n].req_ids@[0]@ == req_id@);
            assert forall|l: usize, r: Seq<char>| has_pair(out@, l, r) == (has_pair(o, l, r) || (l == tl && r == req_id@)) by {
                if has_pair(out@, l, r) {
                    let j = choose|j: int| 0 <= j < out@.len() && (#[trigger] out@[j]).line == l && entry_has(out@, j, r);
                    if j < n {
                        assert(out@[j] == o[j]);
                        assert(entry_has(o, j, r));
                    }
                }
                if has_pair(o, l, r) {
                    let j = choose|j: int| 0 <= j < o.len() && (#[trigger] o[j]).line == l && entry_has(o, j, r);
                    assert(out@[j] == o[j]);
                    assert(entry_has(out@, j, r));
                }
                if l == tl && r == req_id@ {
                    assert(entry_has(out@, n, r));
                }
            }
            assert forall|l: usize| has_line(out@, l) == (has_line(o, l) || l == tl) by {
                if has_line(o, l) {
                    let j = choose|j: int| 0 <= j < o.len() && (#[trigger] o[j]).line == l;
                    assert(out@[j] == o[j]);
                }
                if has_line(out@, l) {
                    let j = choose|j: int| 0 <= j < out@.len() && (#[trigger] out@[j]).line == l;
                    if j < n {
                        assert(out@[j] == o[j]);
                    }
                }
                if l == tl {
                    assert(out@[n].line == l);
                }
            }
            assert forall|a: int, b: int| 0 <= a < b < out@.len() implies (#[trigger] out@[a]).line != (#[trigger] out@[b]).line by {
                if b == n {
                    assert(out@[a] == o[a]);
                } else {
                    assert(out@[a] == o[a] && out@[b] == o[b]);
                }
            }
            assert forall|j: int| 0 <= j < out@.len() implies (#[trigger] out@[j]).req_ids@.len() > 0 by {
                if j < n {
                    assert(out@[j] == o[j]);
                }
            }
            assert forall|j: int, a: int, b: int|
                0 <= j < out@.len() && 0 <= a < b < out@[j].req_ids@.len() implies (#[trigger] out@[j].req_ids@[a])@
                    != (#[trigger] out@[j].req_ids@[b])@ by {
                if j < n {
                    assert(out@[j] == o[j]);
                }
            }
        }
    }
}

/// Which traces covered lines reach does not depend on the order of the covered lines.
pub proof fn law_covered_line_order_irrelevant(spans: Seq<TraceSpan>, a: Seq<CoveredLine>, b: Seq<CoveredLine>)
    requires
        a.to_multiset() == b.to_multiset(),
    ensures
        forall|l: usize, r: Seq<char>| covers(spans, a, l, r) == covers(spans, b, l, r),
        forall|l: usize| covers_line(spans, a, l) == covers_line(spans, b, l),
{
    assert forall|j: int| 0 <= j < a.len() implies exists|j2: int| 0 <= j2 < b.len() && b[j2] == #[trigger] a[j] by {
        assert(a.contains(a[j]));
        assert(a.to_multiset().count(a[j]) > 0);
        assert(b.to_multiset().count(a[j]) > 0);
        assert(b.contains(a[j]));
    }
    assert forall|j: int| 0 <= j < b.len() implies exists|j2: int| 0 <= j2 < a.len() && a[j2] == #[trigger] b[j] by {
        assert(b.contains(b[j]));
        assert(b.to_multiset().count(b[j]) > 0);
        assert(a.to_multiset().count(b[j]) > 0);
        assert(a.contains(b[j]));
    }
    assert forall|l: usize, r: Seq<char>| covers(spans, a, l, r) implies covers(spans, b, l, r) by {
        let (i, j) = choose|i: int, j: int|
            0 <= i < spans.len() && 0 <= j < a.len() && spans[i].line == l && (#[trigger] spans[i]).req_id@ == r
                && spans[i].start <= (#[trigger] a[j]).line < spans[i].end;
        let j2 = choose|j2: int| 0 <= j2 < b.len() && b[j2] == a[j];
        assert(spans[i].start <= b[j2].line < spans[i].end);
    }
    assert forall|l: usize, r: Seq<char>| covers(spans, b, l, r) implies covers(spans, a, l, r) by {
        let (i, j) = choose|i: int, j: int|
            0 <= i < spans.len() && 0 <= j < b.len() && spans[i].line == l && (#[trigger] spans[i]).req_id@ == r
                && spans[i].start <= (#[trigger] b[j]).line < spans[i].end;
        let j2 = choose|j2: int| 0 <= j2 < a.len() && a[j2] == b[j];
        assert(spans[i].start <= a[j2].line < spans[i].end);
    }
    assert forall|l: usize| covers_line(spans, a, l) implies covers_line(spans, b, l) by {
        let (i, j) = choose|i: int, j: int|
            0 <= i < spans.len() && 0 <= j < a.len() && (#[trigger] spans[i]).line == l && spans[i].start
                <= (#[trigger] a[j]).line < spans[i].end;
        let j2 = choose|j2: int| 0 <= j2 < b.len() && b[j2] == a[j];
        assert(spans[i].start <= b[j2].line < spans[i].end);
    }
    assert forall|l: usize| covers_line(spans, b, l) implies covers_line(spans, a, l) by {
        let (i, j) = choose|i: int, j: int|
            0 <= i < spans.len() && 0 <= j < b.len() && (#[trigger] spans[i]).line == l && spans[i].start
                <= (#[trigger] b[j]).line < spans[i].end;
        let j2 = choose|j2: int| 0 <= j2 < a.len() && a[j2] == b[j];
        assert(spans[i].start <= a[j2].line < spans[i].end);
    }
}

/// The traces whose spans contain a covered line, one entry per trace line with the
/// requirements of all such traces at that line. The covered lines are sorted on the way.
pub fn get_covered_traces(trace_spans: Vec<TraceSpan>, covered_lines: &mut Vec<CoveredLine>) -> (traces: Vec<
    CoveredFileTrace,
>)
    ensures
        lines_sorted(final(covered_lines)@),
        final(covered_lines)@.to_multiset() == old(covered_lines)@.to_multiset(),
        traces_wf(traces@),
        forall|l: usize, r: Seq<char>| has_pair(traces@, l, r) == covers(trace_spans@, old(covered_lines)@, l, r),
        forall|l: usize| has_line(traces@, l) == covers_line(trace_spans@, old(covered_lines)@, l),
{
    let tree = trace_tree(&trace_spans);
    sort_covered_lines(covered_lines);
    let ghost lines = covered_lines@;
    let ghost spans = trace_spans@;
    let mut traces: Vec<CoveredFileTrace> = Vec::new();
    let n = covered_lines.len();
    for k in 0..n
        invariant
            n == lines.len(),
            covered_lines@ == lines,
            spans == trace_spans@,
            trace_tree_elements(tree) == spans_multiset(spans),
            traces_wf(traces@),
            forall|l: usize, r: Seq<char>| has_pair(traces@, l, r) == covers_within(spans, lines, k as int, l, r),
            forall|l: usize| has_line(traces@, l) == covers_line_within(spans, lines, k as int, l),
    {
        let point = covered_lines[k].line;
        let found = spans_containing(&tree, point);
        proof {
            lemma_found_spans(found@, spans, point);
        }
        let ghost before = traces@;
        let mut m: usize = 0;
        while m < found.len()
            invariant
                m <= found@.len(),
                traces_wf(traces@),
                forall|l: usize, r: Seq<char>|
                    #![trigger has_pair(traces@, l, r)]
                    has_pair(traces@, l, r) == (has_pair(before, l, r) || exists|h: int|
                        0 <= h < m && (#[trigger] found@[h]).line == l && found@[h].req_id@ == r),
                forall|l: usize|
                    #![trigger has_line(traces@, l)]
                    has_line(traces@, l) == (has_line(before, l) || exists|h: int|
                        0 <= h < m && (#[trigger] found@[h]).line == l),
            decreases found@.len() - m,
        {
            let ghost prev = traces@;
            add_covered(&mut traces, found[m].line, &found[m].req_id);
            let ghost mm = m as int;
            m = m + 1;
            proof {
                assert forall|l: usize, r: Seq<char>|
                    has_pair(traces@, l, r) == (has_pair(before, l, r) || exists|h: int|
                        0 <= h < m && (#[trigger] found@[h]).line == l && found@[h].req_id@ == r) by {
                    assert(has_pair(traces@, l, r) == (has_pair(prev, l, r) || (l == found@[mm].line && r
                        == found@[mm].req_id@)));
                    assert(has_pair(prev, l, r) == (has_pair(before, l, r) || exists|h: int|
                        0 <= h < mm && (#[trigger] found@[h]).line == l && found@[h].req_id@ == r));
                    if exists|h: int| 0 <= h < m && (#[trigger] found@[h]).line == l && found@[h].req_id@ == r {
                        let h = choose|h: int| 0 <= h < m && (#[trigger] found@[h]).line == l && found@[h].req_id@ == r;
                        if h < mm {
                            assert(exists|h2: int| 0 <= h2 < mm && (#[trigger] found@[h2]).line == l && found@[h2].req_id@ == r);
                        }
                    }
                    if exists|h: int| 0 <= h < mm && (#[trigger] found@[h]).line == l && found@[h].req_id@ == r {
                        let h = choose|h: int| 0 <= h < mm && (#[trigger] found@[h]).line == l && found@[h].req_id@ == r;
                        assert(exists|h2: int| 0 <= h2 < m && (#[trigger] found@[h2]).line == l && found@[h2].req_id@ == r);
                    }
                    if l == found@[mm].line && r == found@[mm].req_id@ {
                        assert(exists|h2: int| 0 <= h2 < m && (#[trigger] found@[h2]).line == l && found@[h2].req_id@ == r);
                    }
                }
                assert forall|l: usize|
                    has_line(traces@, l) == (has_line(before, l) || exists|h: int|
                        0 <= h < m && (#[trigger] found@[h]).line == l) by {
                    if exists|h: int| 0 <= h < m && (#[trigger] found@[h]).line == l {
                        let h = choose|h: int| 0 <= h < m && (#[trigger] found@[h]).line == l;
                        if h < mm {
                            assert(exists|h2: int| 0 <= h2 < mm && (#[trigger] found@[h2]).line == l);
                        }
                    }
                    if exists|h: int| 0 <= h < mm && (#[trigger] found@[h]).line == l {
                        let h = choose|h: int| 0 <= h < mm && (#[trigger] found@[h]).line == l;
                        assert(exists|h2: int| 0 <= h2 < m && (#[trigger] found@[h2]).line == l);
                    }
                    if l == found@[mm].line {
                        assert(exists|h2: int| 0 <= h2 < m && (#[trigger] found@[h2]).line == l);
                    }
                }
            }
        }
        proof {
            assert forall|l: usize, r: Seq<char>|
                has_pair(traces@, l, r) == covers_within(spans, lines, k + 1, l, r) by {
                if exists|h: int| 0 <= h < found@.len() && (#[trigger] found@[h]).line == l && found@[h].req_id@ == r {
                    let h = choose|h: int| 0 <= h < found@.len() && (#[trigger] found@[h]).line == l && found@[h].req_id@ == r;
                    let x = span_view(found@[h]);
                    assert(exists|h2: int| 0 <= h2 < found@.len() && span_view(#[trigger] found@[h2]) == x);
                    let i = choose|i: int| 0 <= i < spans.len() && span_view(#[trigger] spans[i]) == x;
                    assert(element_contains(x, point));
                    assert(spans[i].start <= lines[k as int].line < spans[i].end);
                    assert(covers_within(spans, lines, k + 1, l, r));
                }
                if covers_within(spans, lines, k + 1, l, r) && !covers_within(spans, lines, k as int, l, r) {
                    let (i, j) = choose|i: int, j: int|
                        0 <= i < spans.len() && 0 <= j < k + 1 && spans[i].line == l && (#[trigger] spans[i]).req_id@ == r
                            && spans[i].start <= (#[trigger] lines[j]).line < spans[i].end;
                    assert(j == k);
                    let x = span_view(spans[i]);
                    assert(lines[j] == lines[k as int]);
                    assert(element_contains(x, point));
                    assert(exists|i2: int| 0 <= i2 < spans.len() && span_view(#[trigger] spans[i2]) == x);
                    let h = choose|h: int| 0 <= h < found@.len() && span_view(#[trigger] found@[h]) == x;
                    assert(span_view(found@[h]) == x);
                    assert(found@[h].line == l && found@[h].req_id@ == r);
                }
                if covers_within(spans, lines, k as int, l, r) {
                    let (i, j) = choose|i: int, j: int|
                        0 <= i < spans.len() && 0 <= j < k && spans[i].line == l && (#[trigger] spans[i]).req_id@ == r
                            && spans[i].start <= (#[trigger] lines[j]).line < spans[i].end;
                    assert(covers_within(spans, lines, k + 1, l, r));
                }
            }
            assert forall|l: usize| has_line(traces@, l) == covers_line_within(spans, lines, k + 1, l) by {
                if exists|h: int| 0 <= h < found@.len() && (#[trigger] found@[h]).line == l {
                    let h = choose|h: int| 0 <= h < found@.len() && (#[trigger] found@[h]).line == l;
                    let x = span_view(found@[h]);
                    assert(exists|h2: int| 0 <= h2 < found@.len() && span_view(#[trigger] found@[h2]) == x);
                    let i = choose|i: int| 0 <= i < spans.len() && span_view(#[trigger] spans[i]) == x;
                    assert(element_contains(x, point));
                    assert(spans[i].start <= lines[k as int].line < spans[i].end);
                    assert(covers_line_within(spans, lines, k + 1, l));
                }
                if covers_line_within(spans, lines, k + 1, l) && !covers_line_within(spans, lines, k as int, l) {
                    let (i, j) = choose|i: int, j: int|
                        0 <= i < spans.len() && 0 <= j < k + 1 && (#[trigger] spans[i]).line == l && spans[i].start
                            <= (#[trigger] lines[j]).line < spans[i].end;
                    assert(j == k);
                    let x = span_view(spans[i]);
                    assert(lines[j] == lines[k as int]);
                    assert(element_contains(x, point));
                    assert(exists|i2: int| 0 <= i2 < spans.len() && span_view(#[trigger] spans[i2]) == x);
                    let h = choose|h: int| 0 <= h < found@.len() && span_view(#[trigger] found@[h]) == x;
                    assert(found@[h].line == l);
                }
                if covers_line_within(spans, lines, k as int, l) {
                    let (i, j) = choose|i: int, j: int|
                        0 <= i < spans.len() && 0 <= j < k && (#[trigger] spans[i]).line == l && spans[i].start
                            <= (#[trigger] lines[j]).line < spans[i].end;
                    assert(covers_line_within(spans, lines, k + 1, l));
                }
            }
        }
    }
    proof {
        law_covered_line_order_irrelevant(spans, lines, old(covered_lines)@);
    }
    traces
}

/// A file covered by a test: its covered lines and the traces already known to be covered.
pub struct CoveredFile {
    pub filepath: String,
    pub covered_lines: Vec<CoveredLine>,
    pub covered_traces: Vec<CoveredFileTrace>,
}

/// Trace keys as plain data: requirement, file and line.
pub open spec fn pk_view(v: Seq<TracePk>) -> Seq<(Seq<char>, Seq<char>, usize)> {
    v.map_values(|p: TracePk| (p.req_id@, p.filepath@, p.line))
}

/// The trace keys of the covered traces of a file, trace by trace and requirement by
/// requirement.
pub open spec fn expand_traces(path: Seq<char>, traces: Seq<CoveredFileTrace>) -> Seq<(Seq<char>, Seq<char>, usize)>
    decreases traces.len(),
{
    if traces.len() == 0 {
        Seq::empty()
    } else {
        expand_traces(path, traces.drop_last()) + traces.last().req_ids@.map_values(
            |r: String| (r@, path, traces.last().line),
        )
    }
}

proof fn lemma_expand_concat(path: Seq<char>, a: Seq<CoveredFileTrace>, b: Seq<CoveredFileTrace>)
    ensures
        expand_traces(path, a + b) == expand_traces(path, a) + expand_traces(path, b),
    decreases b.len(),
{
    if b.len() == 0 {
        assert(a + b == a);
        assert(expand_traces(path, a) + Seq::empty() == expand_traces(path, a));
    } else {
        lemma_expand_concat(path, a, b.drop_last());
        assert((a + b).drop_last() == a + b.drop_last());
        assert((a + b).last() == b.last());
    }
}

/// Appends the keys of the traces, trace by trace and requirement by requirement.
fn append_keys(pks: &mut Vec<TracePk>, filepath: &String, traces: &Vec<CoveredFileTrace>)
    ensures
        pk_view(final(pks)@) == pk_view(old(pks)@) + expand_traces(filepath@, traces@),
{
    let ghost start = pks@;
    assert(pk_view(start) + expand_traces(filepath@, traces@.take(0)) == pk_view(start));
    for k in 0..traces.len()
        invariant
            pk_view(pks@) == pk_view(start) + expand_traces(filepath@, traces@.take(k as int)),
            start == old(pks)@,
    {
        let t = &traces[k];
        let ghost before = pks@;
        assert(traces@.take(k + 1).drop_last() == traces@.take(k as int));
        assert(traces@.take(k + 1).last() == traces@[k as int]);
        for m in 0..t.req_ids.len()
            invariant
                t == traces@[k as int],
                pk_view(pks@) == pk_view(before) + t.req_ids@.take(m as int).map_values(
                    |r: String| (r@, filepath@, t.line),
                ),
        {
            let ghost prev = pks@;
            pks.push(TracePk { req_id: t.req_ids[m].clone(), filepath: filepath.clone(), line: t.line });
            assert(pk_view(pks@) =~= pk_view(prev).push((t.req_ids@[m as int]@, filepath@, t.line)));
            assert(t.req_ids@.take(m + 1).map_values(|r: String| (r@, filepath@, t.line)) =~= t.req_ids@.take(
                m as int,
            ).map_values(|r: String| (r@, filepath@, t.line)).push((t.req_ids@[m as int]@, filepath@, t.line)));
        }
        assert(t.req_ids@.take(t.req_ids@.len() as int) == t.req_ids@);
    }
    assert(traces@.take(traces@.len() as int) == traces@);
}

/// The traces of a covered file to record coverage for: those the file lists, then those
/// whose spans (the trace spans of the file) contain one of its covered lines. Returns the
/// latter and the keys of all of them, trace by trace and requirement by requirement.
pub fn traces_to_cover(file: CoveredFile, spans: Vec<TraceSpan>) -> (res: (Vec<CoveredFileTrace>, Vec<TracePk>))
    ensures
        traces_wf(res.0@),
        forall|l: usize, r: Seq<char>| has_pair(res.0@, l, r) == covers(spans@, file.covered_lines@, l, r),
        forall|l: usize| has_line(res.0@, l) == covers_line(spans@, file.covered_lines@, l),
        pk_view(res.1@) == expand_traces(file.filepath@, file.covered_traces@ + res.0@),
{
    let CoveredFile { filepath, covered_lines, covered_traces } = file;
    let mut lines = covered_lines;
    let computed = get_covered_traces(spans, &mut lines);
    let mut pks: Vec<TracePk> = Vec::new();
    append_keys(&mut pks, &filepath, &covered_traces);
    append_keys(&mut pks, &filepath, &computed);
    proof {
        lemma_expand_concat(filepath@, covered_traces@, computed@);
        assert(pk_view(Seq::<TracePk>::empty()) =~= Seq::empty());
    }
    (computed, pks)
}

} // verus!
