//! Requirement hierarchy: roots, leaves, descendants, and the markings that parents pass on
//! to their children (deprecated, excluded, optional, manual verification).
//!
//! Requirements are numbered `0..n`; a hierarchy entry `(parent, child)` makes `child` a
//! direct child of `parent`, and a replacement `(req, replaced)` states that `req` replaces
//! `replaced`.
use vstd::prelude::*;

use crate::graph::{
    descendants_of, descends, edges_within, is_edge, is_walk, lemma_descends_transitive,
    lemma_edge_descends, reach_closure, reaches, walk_within,
};

verus! {

/// Markings set on a requirement where it is defined.
#[derive(Debug, Clone, Copy, PartialEq, Eq, Structural)]
pub struct ReqMarks {
    pub deprecated: bool,
    pub exclude: bool,
    pub optional: bool,
    pub manual_verification: bool,
}

/// The requirements of a collection and their relations.
pub struct RequirementGraph {
    /// Markings of requirement `i` at position `i`.
    pub reqs: Vec<ReqMarks>,
    /// `(parent, child)` pairs.
    pub hierarchy: Vec<(usize, usize)>,
    /// `(req, replaced)` pairs.
    pub replacements: Vec<(usize, usize)>,
}

/// Why a requirement hierarchy is rejected.
#[derive(Debug, Clone, PartialEq, Eq)]
pub enum HierarchyError {
    /// Requirements that are their own descendants, in ascending order.
    Cycle(Vec<usize>),
    /// `(req, replaced)` replacements where `replaced` is an ancestor of `req`, in the
    /// order of the replacements.
    ReplacesAncestor(Vec<(usize, usize)>),
}

/// Derived facts per requirement, each vector indexed by requirement.
pub struct ReqAggregation {
    /// `descendants[a][d]`: `d` is a descendant of `a`.
    pub descendants: Vec<Vec<bool>>,
    pub roots: Vec<bool>,
    pub leaves: Vec<bool>,
    pub deprecated: Vec<bool>,
    pub excluded: Vec<bool>,
    pub optional: Vec<bool>,
    pub manual: Vec<bool>,
    pub usable: Vec<bool>,
    pub usable_manual: Vec<bool>,
    pub usable_non_manual: Vec<bool>,
}

impl RequirementGraph {
    /// Number of requirements.
    pub open spec fn n(&self) -> nat {
        self.reqs@.len()
    }

    /// All relations refer to existing requirements.
    pub open spec fn wf(&self) -> bool {
        &&& edges_within(self.hierarchy@, self.n())
        &&& edges_within(self.replacements@, self.n())
    }

    /// `d` is a (transitive) child of `a`.
    pub open spec fn descends(&self, a: int, d: int) -> bool {
        descends(self.hierarchy@, a, d)
    }

    /// `r` has no parent.
    pub open spec fn is_root(&self, r: int) -> bool {
        !exists|p: int| #[trigger] is_edge(self.hierarchy@, p, r)
    }

    /// `r` has no child.
    pub open spec fn is_leaf(&self, r: int) -> bool {
        !exists|c: int| #[trigger] is_edge(self.hierarchy@, r, c)
    }

    /// `r` is replaced by some requirement.
    pub open spec fn is_replaced(&self, r: int) -> bool {
        exists|x: int| #[trigger] is_edge(self.replacements@, x, r)
    }

    /// `r` is marked deprecated or is replaced.
    pub open spec fn marked_deprecated(&self, r: int) -> bool {
        self.reqs@[r].deprecated || self.is_replaced(r)
    }

    /// `r` is deprecated: itself or one of its ancestors is marked deprecated.
    pub open spec fn is_deprecated(&self, r: int) -> bool {
        self.marked_deprecated(r) || exists|m: int|
            0 <= m < self.n() && #[trigger] self.marked_deprecated(m) && self.descends(m, r)
    }

    /// `r` is verified manually: itself or one of its ancestors is marked for manual verification.
    pub open spec fn is_manual(&self, r: int) -> bool {
        self.reqs@[r].manual_verification || exists|m: int|
            0 <= m < self.n() && #[trigger] self.reqs@[m].manual_verification && self.descends(m, r)
    }

    /// Roots as flags.
    pub open spec fn root_flags(&self) -> Seq<bool> {
        Seq::new(self.n(), |r: int| self.is_root(r))
    }

    /// Requirements not marked `exclude`.
    pub open spec fn not_excluded_flags(&self) -> Seq<bool> {
        Seq::new(self.n(), |r: int| !self.reqs@[r].exclude)
    }

    /// Requirements not marked `optional`.
    pub open spec fn not_optional_flags(&self) -> Seq<bool> {
        Seq::new(self.n(), |r: int| !self.reqs@[r].optional)
    }

    /// `r` is included: a chain of requirements none of which is marked `exclude` leads
    /// from a root down to `r`.
    pub open spec fn is_included(&self, r: int) -> bool {
        reaches(self.hierarchy@, self.root_flags(), self.not_excluded_flags(), r)
    }

    /// `r` is mandatory: a chain of requirements none of which is marked `optional` leads
    /// from a root down to `r`.
    pub open spec fn is_mandatory(&self, r: int) -> bool {
        reaches(self.hierarchy@, self.root_flags(), self.not_optional_flags(), r)
    }

    /// `r` is neither deprecated nor excluded.
    pub open spec fn is_usable(&self, r: int) -> bool {
        !self.is_deprecated(r) && self.is_included(r)
    }

    /// Some requirement is its own descendant.
    pub open spec fn has_cycle(&self) -> bool {
        exists|r: int| 0 <= r < self.n() && #[trigger] self.descends(r, r)
    }

    /// The replacement at position `i` replaces an ancestor of the replacing requirement.
    pub open spec fn bad_replacement(&self, i: int) -> bool {
        self.descends(self.replacements@[i].1 as int, self.replacements@[i].0 as int)
    }
}

/// The replacement `(req, replaced)` replaces an ancestor of `req`.
pub open spec fn replaces_ancestor(hierarchy: Seq<(usize, usize)>) -> spec_fn((usize, usize)) -> bool {
    |rp: (usize, usize)| descends(hierarchy, rp.1 as int, rp.0 as int)
}

impl ReqAggregation {
    /// Every vector describes exactly what its name says about `g`.
    pub open spec fn describes(&self, g: &RequirementGraph) -> bool {
        let n = g.n();
        &&& self.descendants@.len() == n
        &&& forall|a: int| 0 <= a < n ==> (#[trigger] self.descendants@[a])@.len() == n
        &&& forall|a: int, d: int| 0 <= a < n && 0 <= d < n ==> self.descendants@[a]@[d] == g.descends(a, d)
        &&& self.roots@.len() == n && self.leaves@.len() == n && self.deprecated@.len() == n
        &&& self.excluded@.len() == n && self.optional@.len() == n && self.manual@.len() == n
        &&& self.usable@.len() == n && self.usable_manual@.len() == n && self.usable_non_manual@.len() == n
        &&& forall|r: int| 0 <= r < n ==> (#[trigger] self.roots@[r]) == g.is_root(r)
        &&& forall|r: int| 0 <= r < n ==> (#[trigger] self.leaves@[r]) == g.is_leaf(r)
        &&& forall|r: int| 0 <= r < n ==> (#[trigger] self.deprecated@[r]) == g.is_deprecated(r)
        &&& forall|r: int| 0 <= r < n ==> (#[trigger] self.excluded@[r]) == !g.is_included(r)
        &&& forall|r: int| 0 <= r < n ==> (#[trigger] self.optional@[r]) == !g.is_mandatory(r)
        &&& forall|r: int| 0 <= r < n ==> (#[trigger] self.manual@[r]) == g.is_manual(r)
        &&& forall|r: int| 0 <= r < n ==> (#[trigger] self.usable@[r]) == g.is_usable(r)
        &&& forall|r: int| 0 <= r < n ==> (#[trigger] self.usable_manual@[r]) == (g.is_usable(r) && g.is_manual(r))
        &&& forall|r: int| 0 <= r < n ==> (#[trigger] self.usable_non_manual@[r]) == (g.is_usable(r) && !g.is_manual(r))
    }
}

/// Whether `edges` has an edge into `v` (`into == true`) or out of `v` (`into == false`).
fn has_edge_at(edges: &Vec<(usize, usize)>, v: usize, into: bool) -> (res: bool)
    ensures
        into ==> res == exists|u: int| #[trigger] is_edge(edges@, u, v as int),
        !into ==> res == exists|w: int| #[trigger] is_edge(edges@, v as int, w),
{
    let mut i: usize = 0;
    while i < edges.len()
        invariant
            i <= edges@.len(),
            forall|j: int| 0 <= j < i ==> (if into { edges@[j].1 != v } else { edges@[j].0 != v }),
        decreases edges@.len() - i,
    {
        let (a, b) = edges[i];
        if (into && b == v) || (!into && a == v) {
            proof {
                if into {
                    assert(is_edge(edges@, a as int, v as int));
                } else {
                    assert(is_edge(edges@, v as int, b as int));
                }
            }
            return true;
        }
        i = i + 1;
    }
    proof {
        if into {
            assert forall|u: int| !#[trigger] is_edge(edges@, u, v as int) by {
                if is_edge(edges@, u, v as int) {
                    let j = choose|j: int| 0 <= j < edges@.len() && edges@[j].0 == u && edges@[j].1 == v;
                }
            }
        } else {
            assert forall|w: int| !#[trigger] is_edge(edges@, v as int, w) by {
                if is_edge(edges@, v as int, w) {
                    let j = choose|j: int| 0 <= j < edges@.len() && edges@[j].0 == v && edges@[j].1 == w;
                }
            }
        }
    }
    false
}

/// Whether some marked requirement is `r` or an ancestor of `r`.
fn marked_or_ancestor_marked(marked: &Vec<bool>, desc: &Vec<Vec<bool>>, r: usize, Ghost(edges): Ghost<Seq<(usize, usize)>>) -> (res: bool)
    requires
        r < marked@.len(),
        desc@.len() == marked@.len(),
        forall|a: int| 0 <= a < marked@.len() ==> (#[trigger] desc@[a])@.len() == marked@.len(),
        forall|a: int, d: int| 0 <= a < marked@.len() && 0 <= d < marked@.len() ==> #[trigger] desc@[a]@[d] == descends(edges, a, d),
    ensures
        res == (marked@[r as int] || exists|m: int| 0 <= m < marked@.len() && #[trigger] marked@[m] && descends(edges, m, r as int)),
{
    if marked[r] {
        return true;
    }
    let mut m: usize = 0;
    while m < marked.len()
        invariant
            r < marked@.len(),
            m <= marked@.len(),
            desc@.len() == marked@.len(),
            forall|a: int| 0 <= a < marked@.len() ==> (#[trigger] desc@[a])@.len() == marked@.len(),
            forall|a: int, d: int| 0 <= a < marked@.len() && 0 <= d < marked@.len() ==> #[trigger] desc@[a]@[d] == descends(edges, a, d),
            forall|k: int| 0 <= k < m ==> !(marked@[k] && descends(edges, k, r as int)),
        decreases marked@.len() - m,
    {
        if marked[m] && desc[m][r] {
            return true;
        }
        m = m + 1;
    }
    false
}

/// Derives roots, leaves, descendants and the inherited markings of all requirements.
///
/// Fails if the hierarchy has a cycle, or else if a requirement replaces one of its ancestors.
pub fn aggregate_requirements(g: &RequirementGraph) -> (res: Result<ReqAggregation, HierarchyError>)
    requires
        g.wf(),
    ensures
        match res {
            Ok(agg) => !g.has_cycle() && (forall|i: int| 0 <= i < g.replacements@.len() ==> !g.bad_replacement(i))
                && agg.describes(g),
            Err(HierarchyError::Cycle(cyc)) => g.has_cycle()
                && (forall|k: int| 0 <= k < cyc@.len() ==> 0 <= #[trigger] cyc@[k] < g.n() && g.descends(cyc@[k] as int, cyc@[k] as int))
                && (forall|r: int| 0 <= r < g.n() && g.descends(r, r) ==> #[trigger] cyc@.contains(r as usize))
                && (forall|i: int, j: int| 0 <= i < j < cyc@.len() ==> cyc@[i] < cyc@[j]),
            Err(HierarchyError::ReplacesAncestor(bad)) => !g.has_cycle()
                && (exists|i: int| 0 <= i < g.replacements@.len() && g.bad_replacement(i))
                && bad@ == g.replacements@.filter(replaces_ancestor(g.hierarchy@)),
        },
{
    let n = g.reqs.len();
    // descendants
    let mut descendants: Vec<Vec<bool>> = Vec::new();
    for a in 0..n
        invariant
            n == g.n(),
            g.wf(),
            descendants@.len() == a,
            forall|x: int| 0 <= x < a ==> (#[trigger] descendants@[x])@.len() == n,
            forall|x: int, d: int| 0 <= x < a && 0 <= d < n ==> #[trigger] descendants@[x]@[d] == g.descends(x, d),
    {
        descendants.push(descendants_of(n, &g.hierarchy, a));
    }
    // cycles
    let mut cyc: Vec<usize> = Vec::new();
    for r in 0..n
        invariant
            n == g.n(),
            descendants@.len() == n,
            forall|x: int| 0 <= x < n ==> (#[trigger] descendants@[x])@.len() == n,
            forall|x: int, d: int| 0 <= x < n && 0 <= d < n ==> #[trigger] descendants@[x]@[d] == g.descends(x, d),
            forall|k: int| 0 <= k < cyc@.len() ==> 0 <= #[trigger] cyc@[k] < r && g.descends(cyc@[k] as int, cyc@[k] as int),
            forall|x: int| 0 <= x < r && g.descends(x, x) ==> #[trigger] cyc@.contains(x as usize),
            forall|i: int, j: int| 0 <= i < j < cyc@.len() ==> cyc@[i] < cyc@[j],
    {
        let ghost old_cyc = cyc@;
        if descendants[r][r] {
            cyc.push(r);
            assert(cyc@[cyc@.len() - 1] == r);
        }
        proof {
            assert forall|x: int| 0 <= x < r + 1 && g.descends(x, x) implies #[trigger] cyc@.contains(x as usize) by {
                if x < r {
                    assert(old_cyc.contains(x as usize));
                    let k = choose|k: int| 0 <= k < old_cyc.len() && old_cyc[k] == x as usize;
                    assert(cyc@[k] == x as usize);
                } else {
                    assert(descendants@[r as int]@[r as int]);
                    assert(cyc@[cyc@.len() - 1] == r);
                }
            }
        }
    }
    if cyc.len() > 0 {
        proof {
            assert(g.descends(cyc@[0] as int, cyc@[0] as int));
        }
        return Err(HierarchyError::Cycle(cyc));
    }
    proof {
        if g.has_cycle() {
            let r = choose|r: int| 0 <= r < g.n() && #[trigger] g.descends(r, r);
            assert(cyc@.contains(r as usize));
        }
    }
    // replacements
    let mut bad: Vec<(usize, usize)> = Vec::new();
    for i in 0..g.replacements.len()
        invariant
            n == g.n(),
            g.wf(),
            descendants@.len() == n,
            forall|x: int| 0 <= x < n ==> (#[trigger] descendants@[x])@.len() == n,
            forall|x: int, d: int| 0 <= x < n && 0 <= d < n ==> #[trigger] descendants@[x]@[d] == g.descends(x, d),
            bad@ == g.replacements@.take(i as int).filter(replaces_ancestor(g.hierarchy@)),
    {
        let (req, replaced) = g.replacements[i];
        proof {
            assert(g.replacements@.take(i + 1).drop_last() == g.replacements@.take(i as int));
            reveal_with_fuel(Seq::<(usize, usize)>::filter, 1);
        }
        if descendants[replaced][req] {
            bad.push((req, replaced));
        }
    }
    proof {
        assert(g.replacements@.take(g.replacements@.len() as int) == g.replacements@);
    }
    if bad.len() > 0 {
        proof {
            let rp = bad@[0];
            assert(g.replacements@.filter(replaces_ancestor(g.hierarchy@)).contains(rp));
            g.replacements@.lemma_filter_contains_rev(replaces_ancestor(g.hierarchy@), rp);
            let i = choose|i: int| 0 <= i < g.replacements@.len() && g.replacements@[i] == rp;
            assert(g.bad_replacement(i));
        }
        return Err(HierarchyError::ReplacesAncestor(bad));
    }
    proof {
        assert forall|i: int| 0 <= i < g.replacements@.len() implies !g.bad_replacement(i) by {
            if g.bad_replacement(i) {
                g.replacements@.lemma_filter_contains(replaces_ancestor(g.hierarchy@), i);
            }
        }
    }
    // markings
    let mut marked_depr: Vec<bool> = Vec::new();
    let mut marked_manual: Vec<bool> = Vec::new();
    let mut roots: Vec<bool> = Vec::new();
    let mut leaves: Vec<bool> = Vec::new();
    let mut not_excluded: Vec<bool> = Vec::new();
    let mut not_optional: Vec<bool> = Vec::new();
    for r in 0..n
        invariant
            n == g.n(),
            marked_depr@.len() == r && marked_manual@.len() == r && roots@.len() == r,
            leaves@.len() == r && not_excluded@.len() == r && not_optional@.len() == r,
            forall|x: int| 0 <= x < r ==> (#[trigger] marked_depr@[x]) == g.marked_deprecated(x),
            forall|x: int| 0 <= x < r ==> (#[trigger] marked_manual@[x]) == g.reqs@[x].manual_verification,
            forall|x: int| 0 <= x < r ==> (#[trigger] roots@[x]) == g.is_root(x),
            forall|x: int| 0 <= x < r ==> (#[trigger] leaves@[x]) == g.is_leaf(x),
            forall|x: int| 0 <= x < r ==> (#[trigger] not_excluded@[x]) == !g.reqs@[x].exclude,
            forall|x: int| 0 <= x < r ==> (#[trigger] not_optional@[x]) == !g.reqs@[x].optional,
    {
        let replaced = has_edge_at(&g.replacements, r, true);
        marked_depr.push(g.reqs[r].deprecated || replaced);
        marked_manual.push(g.reqs[r].manual_verification);
        roots.push(!has_edge_at(&g.hierarchy, r, true));
        leaves.push(!has_edge_at(&g.hierarchy, r, false));
        not_excluded.push(!g.reqs[r].exclude);
        not_optional.push(!g.reqs[r].optional);
        proof {
            assert(marked_depr@[r as int] == g.marked_deprecated(r as int));
            assert(roots@[r as int] == g.is_root(r as int));
            assert(leaves@[r as int] == g.is_leaf(r as int));
        }
    }
    assert(roots@ =~= g.root_flags());
    assert(not_excluded@ =~= g.not_excluded_flags());
    assert(not_optional@ =~= g.not_optional_flags());
    let included = reach_closure(n, &g.hierarchy, &roots, &not_excluded);
    let mandatory = reach_closure(n, &g.hierarchy, &roots, &not_optional);
    let mut deprecated: Vec<bool> = Vec::new();
    let mut excluded: Vec<bool> = Vec::new();
    let mut optional: Vec<bool> = Vec::new();
    let mut manual: Vec<bool> = Vec::new();
    let mut usable: Vec<bool> = Vec::new();
    let mut usable_manual: Vec<bool> = Vec::new();
    let mut usable_non_manual: Vec<bool> = Vec::new();
    for r in 0..n
        invariant
            n == g.n(),
            marked_depr@.len() == n && marked_manual@.len() == n,
            included@.len() == n && mandatory@.len() == n,
            forall|x: int| 0 <= x < n ==> (#[trigger] marked_depr@[x]) == g.marked_deprecated(x),
            forall|x: int| 0 <= x < n ==> (#[trigger] marked_manual@[x]) == g.reqs@[x].manual_verification,
            forall|x: int| 0 <= x < n ==> (#[trigger] included@[x]) == g.is_included(x),
            forall|x: int| 0 <= x < n ==> (#[trigger] mandatory@[x]) == g.is_mandatory(x),
            descendants@.len() == n,
            forall|x: int| 0 <= x < n ==> (#[trigger] descendants@[x])@.len() == n,
            forall|x: int, d: int| 0 <= x < n && 0 <= d < n ==> #[trigger] descendants@[x]@[d] == g.descends(x, d),
            deprecated@.len() == r && excluded@.len() == r && optional@.len() == r && manual@.len() == r,
            usable@.len() == r && usable_manual@.len() == r && usable_non_manual@.len() == r,
            forall|x: int| 0 <= x < r ==> (#[trigger] deprecated@[x]) == g.is_deprecated(x),
            forall|x: int| 0 <= x < r ==> (#[trigger] excluded@[x]) == !g.is_included(x),
            forall|x: int| 0 <= x < r ==> (#[trigger] optional@[x]) == !g.is_mandatory(x),
            forall|x: int| 0 <= x < r ==> (#[trigger] manual@[x]) == g.is_manual(x),
            forall|x: int| 0 <= x < r ==> (#[trigger] usable@[x]) == g.is_usable(x),
            forall|x: int| 0 <= x < r ==> (#[trigger] usable_manual@[x]) == (g.is_usable(x) && g.is_manual(x)),
            forall|x: int| 0 <= x < r ==> (#[trigger] usable_non_manual@[x]) == (g.is_usable(x) && !g.is_manual(x)),
    {
        let d = marked_or_ancestor_marked(&marked_depr, &descendants, r, Ghost(g.hierarchy@));
        let m = marked_or_ancestor_marked(&marked_manual, &descendants, r, Ghost(g.hierarchy@));
        proof {
            assert(d == g.is_deprecated(r as int)) by {
                if exists|k: int| 0 <= k < n && #[trigger] marked_depr@[k] && descends(g.hierarchy@, k, r as int) {
                    let k = choose|k: int| 0 <= k < n && #[trigger] marked_depr@[k] && descends(g.hierarchy@, k, r as int);
                    assert(g.marked_deprecated(k));
                }
                if exists|k: int| 0 <= k < g.n() && #[trigger] g.marked_deprecated(k) && g.descends(k, r as int) {
                    let k = choose|k: int| 0 <= k < g.n() && #[trigger] g.marked_deprecated(k) && g.descends(k, r as int);
                    assert(marked_depr@[k]);
                }
            }
            assert(m == g.is_manual(r as int)) by {
                if exists|k: int| 0 <= k < n && #[trigger] marked_manual@[k] && descends(g.hierarchy@, k, r as int) {
                    let k = choose|k: int| 0 <= k < n && #[trigger] marked_manual@[k] && descends(g.hierarchy@, k, r as int);
                    assert(g.reqs@[k].manual_verification);
                }
                if exists|k: int| 0 <= k < g.n() && #[trigger] g.reqs@[k].manual_verification && g.descends(k, r as int) {
                    let k = choose|k: int| 0 <= k < g.n() && #[trigger] g.reqs@[k].manual_verification && g.descends(k, r as int);
                    assert(marked_manual@[k]);
                }
            }
        }
        let u = !d && included[r];
        deprecated.push(d);
        excluded.push(!included[r]);
        optional.push(!mandatory[r]);
        manual.push(m);
        usable.push(u);
        usable_manual.push(u && m);
        usable_non_manual.push(u && !m);
    }
    Ok(ReqAggregation {
        descendants,
        roots,
        leaves,
        deprecated,
        excluded,
        optional,
        manual,
        usable,
        usable_manual,
        usable_non_manual,
    })
}

/// Deprecation passes down the hierarchy: every descendant of a deprecated requirement
/// is deprecated.
pub proof fn law_deprecation_inherited(g: &RequirementGraph, a: int, d: int)
    requires
        g.wf(),
        0 <= a < g.n(),
        0 <= d < g.n(),
        g.is_deprecated(a),
        g.descends(a, d),
    ensures
        g.is_deprecated(d),
{
    if !g.marked_deprecated(a) {
        let m = choose|m: int| 0 <= m < g.n() && #[trigger] g.marked_deprecated(m) && g.descends(m, a);
        lemma_descends_transitive(g.hierarchy@, m, a, d);
        assert(g.marked_deprecated(m) && g.descends(m, d));
    } else {
        assert(g.marked_deprecated(a) && g.descends(a, d));
    }
}

/// Manual verification passes down the hierarchy: every descendant of a requirement
/// verified manually is verified manually.
pub proof fn law_manual_inherited(g: &RequirementGraph, a: int, d: int)
    requires
        g.wf(),
        0 <= a < g.n(),
        0 <= d < g.n(),
        g.is_manual(a),
        g.descends(a, d),
    ensures
        g.is_manual(d),
{
    if !g.reqs@[a].manual_verification {
        let m = choose|m: int| 0 <= m < g.n() && #[trigger] g.reqs@[m].manual_verification && g.descends(m, a);
        lemma_descends_transitive(g.hierarchy@, m, a, d);
        assert(g.reqs@[m].manual_verification && g.descends(m, d));
    } else {
        assert(g.reqs@[a].manual_verification && g.descends(a, d));
    }
}

/// A requirement marked `exclude` is excluded, and one marked `optional` is optional.
pub proof fn law_marked_not_included(g: &RequirementGraph, r: int)
    requires
        g.wf(),
        0 <= r < g.n(),
    ensures
        g.reqs@[r].exclude ==> !g.is_included(r),
        g.reqs@[r].optional ==> !g.is_mandatory(r),
{
    if g.is_included(r) {
        let p = choose|p: Seq<int>|
            #![trigger is_walk(g.hierarchy@, p), walk_within(g.not_excluded_flags(), p)]
            is_walk(g.hierarchy@, p) && walk_within(g.not_excluded_flags(), p) && g.root_flags()[p[0]] && p.last() == r;
        assert(g.not_excluded_flags()[p[p.len() - 1]]);
    }
    if g.is_mandatory(r) {
        let p = choose|p: Seq<int>|
            #![trigger is_walk(g.hierarchy@, p), walk_within(g.not_optional_flags(), p)]
            is_walk(g.hierarchy@, p) && walk_within(g.not_optional_flags(), p) && g.root_flags()[p[0]] && p.last() == r;
        assert(g.not_optional_flags()[p[p.len() - 1]]);
    }
}

/// A root requirement not marked `exclude` is included; one not marked `optional` is mandatory.
pub proof fn law_unmarked_root_included(g: &RequirementGraph, r: int)
    requires
        g.wf(),
        0 <= r < g.n(),
        g.is_root(r),
    ensures
        !g.reqs@[r].exclude ==> g.is_included(r),
        !g.reqs@[r].optional ==> g.is_mandatory(r),
{
    let p = seq![r];
    assert(is_walk(g.hierarchy@, p));
    assert(g.root_flags()[r]);
    if !g.reqs@[r].exclude {
        assert(walk_within(g.not_excluded_flags(), p));
    }
    if !g.reqs@[r].optional {
        assert(walk_within(g.not_optional_flags(), p));
    }
}

/// Inclusion passes from a parent to each child not marked `exclude`, and being mandatory
/// passes to each child not marked `optional`.
pub proof fn law_inclusion_passes_to_children(g: &RequirementGraph, p: int, c: int)
    requires
        g.wf(),
        0 <= p < g.n(),
        0 <= c < g.n(),
        is_edge(g.hierarchy@, p, c),
    ensures
        g.is_included(p) && !g.reqs@[c].exclude ==> g.is_included(c),
        g.is_mandatory(p) && !g.reqs@[c].optional ==> g.is_mandatory(c),
{
    if g.is_included(p) && !g.reqs@[c].exclude {
        let w = choose|w: Seq<int>|
            #![trigger is_walk(g.hierarchy@, w), walk_within(g.not_excluded_flags(), w)]
            is_walk(g.hierarchy@, w) && walk_within(g.not_excluded_flags(), w) && g.root_flags()[w[0]] && w.last() == p;
        extend_walk(g.hierarchy@, g.not_excluded_flags(), w, c);
    }
    if g.is_mandatory(p) && !g.reqs@[c].optional {
        let w = choose|w: Seq<int>|
            #![trigger is_walk(g.hierarchy@, w), walk_within(g.not_optional_flags(), w)]
            is_walk(g.hierarchy@, w) && walk_within(g.not_optional_flags(), w) && g.root_flags()[w[0]] && w.last() == p;
        extend_walk(g.hierarchy@, g.not_optional_flags(), w, c);
    }
}

proof fn extend_walk(edges: Seq<(usize, usize)>, allowed: Seq<bool>, w: Seq<int>, c: int)
    requires
        is_walk(edges, w),
        walk_within(allowed, w),
        is_edge(edges, w.last(), c),
        0 <= c < allowed.len(),
        allowed[c],
    ensures
        is_walk(edges, w.push(c)),
        walk_within(allowed, w.push(c)),
        w.push(c)[0] == w[0],
        w.push(c).last() == c,
{
    let q = w.push(c);
    assert forall|i: int| 0 <= i < q.len() - 1 implies #[trigger] is_edge(edges, q[i], q[i + 1]) by {
        if i < w.len() - 1 {
            assert(is_edge(edges, w[i], w[i + 1]));
        }
    }
}

/// A requirement is a leaf exactly when it has no descendants, and a root exactly when it
/// is no requirement's descendant.
pub proof fn law_leaf_root_descendants(g: &RequirementGraph, r: int)
    requires
        g.wf(),
        0 <= r < g.n(),
    ensures
        g.is_leaf(r) <==> forall|d: int| !#[trigger] g.descends(r, d),
        g.is_root(r) <==> forall|a: int| !#[trigger] g.descends(a, r),
{
    if g.is_leaf(r) {
        assert forall|d: int| !#[trigger] g.descends(r, d) by {
            if g.descends(r, d) {
                let p = choose|p: Seq<int>| #![trigger is_walk(g.hierarchy@, p)] is_walk(g.hierarchy@, p) && p.len() >= 2 && p[0] == r && p.last() == d;
                assert(is_edge(g.hierarchy@, p[0], p[0int + 1]));
            }
        }
    } else {
        let c = choose|c: int| #[trigger] is_edge(g.hierarchy@, r, c);
        lemma_edge_descends(g.hierarchy@, r, c);
        assert(g.descends(r, c));
    }
    if g.is_root(r) {
        assert forall|a: int| !#[trigger] g.descends(a, r) by {
            if g.descends(a, r) {
                let p = choose|p: Seq<int>| #![trigger is_walk(g.hierarchy@, p)] is_walk(g.hierarchy@, p) && p.len() >= 2 && p[0] == a && p.last() == r;
                let k = p.len() - 2;
                assert(is_edge(g.hierarchy@, p[k], p[k + 1]));
            }
        }
    } else {
        let a = choose|a: int| #[trigger] is_edge(g.hierarchy@, a, r);
        lemma_edge_descends(g.hierarchy@, a, r);
        assert(g.descends(a, r));
    }
}

} // verus!
