//! The hierarchy that requirement IDs imply by dots: `a.b` is a child of `a`.
//!
//! A requirement whose ID holds a dot has as parent the requirement with the longest ID that
//! is the part of its own ID before one of its dots, where such a requirement exists.
use vstd::prelude::*;

use crate::text::{chars_eq, rfind_char, rfind_char_before, slice_chars, to_chars};

verus! {

/// The IDs as plain data.
pub open spec fn ids_view(ids: Seq<String>) -> Seq<Seq<char>> {
    ids.map_values(|s: String| s@)
}

/// The parent that the dots of `id` give it among `ids`: the longest part of `id` before one
/// of its dots that is one of `ids`.
pub open spec fn dot_parent(ids: Seq<Seq<char>>, id: Seq<char>) -> Option<Seq<char>>
    decreases id.len(),
{
    match rfind_char_before(id, '.', id.len() as int) {
        None => None,
        Some(k) => {
            if 0 <= k < id.len() {
                let p = id.take(k);
                if ids.contains(p) {
                    Some(p)
                } else {
                    dot_parent(ids, p)
                }
            } else {
                None
            }
        },
    }
}

proof fn lemma_rfind_char_before_bounds(s: Seq<char>, ch: char, i: int)
    ensures
        rfind_char_before(s, ch, i) matches Some(k) ==> 0 <= k < i && k < s.len() && s[k] == ch,
    decreases i,
{
    if 0 < i <= s.len() && s[i - 1] != ch {
        lemma_rfind_char_before_bounds(s, ch, i - 1);
    }
}

/// Whether `id` is one of `ids`.
fn contains_id(ids: &Vec<String>, id: &Vec<char>) -> (res: bool)
    ensures
        res == ids_view(ids@).contains(id@),
{
    let mut i: usize = 0;
    while i < ids.len()
        invariant
            i <= ids@.len(),
            forall|k: int| 0 <= k < i ==> (#[trigger] ids@[k])@ != id@,
        decreases ids@.len() - i,
    {
        let v = to_chars(ids[i].as_str());
        if chars_eq(v.as_slice(), id.as_slice()) {
            assert(ids_view(ids@)[i as int] == id@);
            return true;
        }
        i = i + 1;
    }
    proof {
        if ids_view(ids@).contains(id@) {
            let k = choose|k: int| 0 <= k < ids_view(ids@).len() && ids_view(ids@)[k] == id@;
            assert(ids@[k]@ == id@);
        }
    }
    false
}

/// The parent that the dots of `req_id` give it among the requirements `ids`.
pub fn get_dot_parent(ids: &Vec<String>, req_id: &str) -> (res: Option<Vec<char>>)
    ensures
        match dot_parent(ids_view(ids@), req_id@) {
            Some(p) => res is Some && res->0@ == p,
            None => res is None,
        },
{
    let mut cur = to_chars(req_id);
    loop
        invariant
            dot_parent(ids_view(ids@), req_id@) == dot_parent(ids_view(ids@), cur@),
        decreases cur@.len(),
    {
        proof {
            lemma_rfind_char_before_bounds(cur@, '.', cur@.len() as int);
        }
        match rfind_char(&cur, '.') {
            None => {
                return None;
            },
            Some(k) => {
                let parent = slice_chars(&cur, 0, k);
                assert(parent@ == cur@.take(k as int));
                if contains_id(ids, &parent) {
                    return Some(parent);
                }
                cur = parent;
            },
        }
    }
}

/// The index of the first of `ids` equal to `id`.
pub open spec fn first_index(ids: Seq<Seq<char>>, id: Seq<char>) -> int
    decreases ids.len(),
{
    if ids.len() == 0 || ids[0] == id {
        0
    } else {
        1 + first_index(ids.drop_first(), id)
    }
}

/// The `(parent, child)` pairs that the dots of the first `c` IDs give, by index, in the
/// order of the children.
pub open spec fn dot_edges(ids: Seq<Seq<char>>, c: int) -> Seq<(usize, usize)>
    decreases c,
{
    if c <= 0 {
        Seq::empty()
    } else {
        dot_edges(ids, c - 1) + match dot_parent(ids, ids[c - 1]) {
            Some(p) => seq![(first_index(ids, p) as usize, (c - 1) as usize)],
            None => Seq::empty(),
        }
    }
}

proof fn lemma_first_index(ids: Seq<Seq<char>>, id: Seq<char>)
    requires
        ids.contains(id),
    ensures
        0 <= first_index(ids, id) < ids.len(),
        ids[first_index(ids, id)] == id,
        forall|k: int| 0 <= k < first_index(ids, id) ==> ids[k] != id,
    decreases ids.len(),
{
    if ids[0] != id {
        let d = ids.drop_first();
        let k = choose|k: int| 0 <= k < ids.len() && ids[k] == id;
        assert(d[k - 1] == id);
        lemma_first_index(d, id);
        assert forall|j: int| 0 <= j < first_index(ids, id) implies ids[j] != id by {
            if j > 0 {
                assert(ids[j] == d[j - 1]);
            }
        }
    }
}

/// The index of the first of `ids` equal to `id`, which is one of them.
fn index_of(ids: &Vec<String>, id: &Vec<char>) -> (res: usize)
    requires
        ids_view(ids@).contains(id@),
    ensures
        res == first_index(ids_view(ids@), id@),
{
    proof {
        lemma_first_index(ids_view(ids@), id@);
    }
    let mut i: usize = 0;
    while i < ids.len()
        invariant
            i <= first_index(ids_view(ids@), id@),
            0 <= first_index(ids_view(ids@), id@) < ids@.len(),
            ids_view(ids@)[first_index(ids_view(ids@), id@)] == id@,
            forall|k: int| 0 <= k < first_index(ids_view(ids@), id@) ==> ids_view(ids@)[k] != id@,
        decreases ids@.len() - i,
    {
        let v = to_chars(ids[i].as_str());
        assert(ids_view(ids@)[i as int] == ids@[i as int]@);
        if chars_eq(v.as_slice(), id.as_slice()) {
            return i;
        }
        i = i + 1;
    }
    i
}

/// `id` holds a dot.
pub open spec fn has_dot(id: Seq<char>) -> bool {
    rfind_char_before(id, '.', id.len() as int) is Some
}

/// The indices, in order, among the first `c` IDs of those that hold a dot but have no dot
/// parent among `ids`.
pub open spec fn missing_dot_parents(ids: Seq<Seq<char>>, c: int) -> Seq<usize>
    decreases c,
{
    if c <= 0 {
        Seq::empty()
    } else {
        missing_dot_parents(ids, c - 1) + if has_dot(ids[c - 1]) && dot_parent(ids, ids[c - 1]) is None {
            seq![(c - 1) as usize]
        } else {
            Seq::empty()
        }
    }
}

/// The `(parent, child)` hierarchy pairs that the dots of the requirement IDs give, by
/// index, in the order of the children. Every ID that holds a dot must have a dot parent
/// among the requirements: where some have none, their indices are the error.
pub fn dot_hierarchy(ids: &Vec<String>) -> (res: Result<Vec<(usize, usize)>, Vec<usize>>)
    ensures
        missing_dot_parents(ids_view(ids@), ids@.len() as int).len() == 0 ==> (res matches Ok(edges) && edges@
            == dot_edges(ids_view(ids@), ids@.len() as int)),
        missing_dot_parents(ids_view(ids@), ids@.len() as int).len() > 0 ==> (res matches Err(missing)
            && missing@ == missing_dot_parents(ids_view(ids@), ids@.len() as int)),
{
    let mut edges: Vec<(usize, usize)> = Vec::new();
    let mut missing: Vec<usize> = Vec::new();
    for c in 0..ids.len()
        invariant
            edges@ == dot_edges(ids_view(ids@), c as int),
            missing@ == missing_dot_parents(ids_view(ids@), c as int),
    {
        assert(ids_view(ids@)[c as int] == ids@[c as int]@);
        let dotted = rfind_char(&to_chars(ids[c].as_str()), '.').is_some();
        match get_dot_parent(ids, ids[c].as_str()) {
            Some(p) => {
                proof {
                    law_dot_parent_is_prefix(ids_view(ids@), ids@[c as int]@);
                }
                let pi = index_of(ids, &p);
                edges.push((pi, c));
                assert(missing_dot_parents(ids_view(ids@), c + 1) == missing_dot_parents(ids_view(ids@), c as int));
            },
            None => {
                assert(dot_edges(ids_view(ids@), c + 1) == dot_edges(ids_view(ids@), c as int));
                if dotted {
                    missing.push(c);
                } else {
                    assert(missing_dot_parents(ids_view(ids@), c + 1) == missing_dot_parents(ids_view(ids@), c as int));
                }
            },
        }
    }
    if missing.len() > 0 {
        Err(missing)
    } else {
        Ok(edges)
    }
}

/// The dot parent of an ID is a requirement, and the part of the ID before one of its dots.
pub proof fn law_dot_parent_is_prefix(ids: Seq<Seq<char>>, id: Seq<char>)
    ensures
        dot_parent(ids, id) matches Some(p) ==> ids.contains(p) && p.len() < id.len() && id.take(p.len() as int)
            == p && id[p.len() as int] == '.',
    decreases id.len(),
{
    lemma_rfind_char_before_bounds(id, '.', id.len() as int);
    if let Some(k) = rfind_char_before(id, '.', id.len() as int) {
        let p = id.take(k);
        if !ids.contains(p) {
            law_dot_parent_is_prefix(ids, p);
            if let Some(q) = dot_parent(ids, p) {
                assert(id.take(q.len() as int) == p.take(q.len() as int));
                assert(id[q.len() as int] == p[q.len() as int]);
            }
        }
    }
}

proof fn lemma_rfind_char_before_max(s: Seq<char>, ch: char, i: int, j: int)
    requires
        0 <= j < i <= s.len(),
        s[j] == ch,
    ensures
        rfind_char_before(s, ch, i) matches Some(k) && j <= k,
    decreases i,
{
    if s[i - 1] != ch {
        lemma_rfind_char_before_max(s, ch, i - 1, j);
    }
}

/// The dot parent is the longest part of the ID before one of its dots that is a
/// requirement: any such part that is a requirement is no longer than it.
pub proof fn law_dot_parent_is_longest(ids: Seq<Seq<char>>, id: Seq<char>, q: Seq<char>)
    requires
        ids.contains(q),
        q.len() < id.len(),
        id.take(q.len() as int) == q,
        id[q.len() as int] == '.',
    ensures
        dot_parent(ids, id) matches Some(p) && q.len() <= p.len(),
    decreases id.len(),
{
    lemma_rfind_char_before_max(id, '.', id.len() as int, q.len() as int);
    lemma_rfind_char_before_bounds(id, '.', id.len() as int);
    let k = rfind_char_before(id, '.', id.len() as int)->0;
    let p0 = id.take(k);
    if k == q.len() {
        assert(p0 == q);
    } else if !ids.contains(p0) {
        assert(p0.take(q.len() as int) == q);
        assert(p0[q.len() as int] == id[q.len() as int]);
        law_dot_parent_is_longest(ids, p0, q);
    }
}

} // verus!
