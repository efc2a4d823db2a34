//! Reachability over the edges of a finite directed graph whose nodes are `0..n`.
use vstd::prelude::*;

verus! {

/// `(u, v)` is one of the edges.
pub open spec fn is_edge(edges: Seq<(usize, usize)>, u: int, v: int) -> bool {
    exists|i: int| 0 <= i < edges.len() && edges[i].0 == u && edges[i].1 == v
}

/// Every edge connects nodes below `n`.
pub open spec fn edges_within(edges: Seq<(usize, usize)>, n: nat) -> bool {
    forall|i: int| 0 <= i < edges.len() ==> edges[i].0 < n && edges[i].1 < n
}

/// `p` is a non-empty walk: consecutive nodes are joined by edges.
pub open spec fn is_walk(edges: Seq<(usize, usize)>, p: Seq<int>) -> bool {
    &&& p.len() >= 1
    &&& forall|i: int| 0 <= i < p.len() - 1 ==> #[trigger] is_edge(edges, p[i], p[i + 1])
}

/// Every node of `p` is a node whose `allowed` flag is set.
pub open spec fn walk_within(allowed: Seq<bool>, p: Seq<int>) -> bool {
    forall|i: int| 0 <= i < p.len() ==> 0 <= #[trigger] p[i] < allowed.len() && allowed[p[i]]
}

/// `r` is reached by a walk over allowed nodes that starts at a seed node.
pub open spec fn reaches(edges: Seq<(usize, usize)>, seed: Seq<bool>, allowed: Seq<bool>, r: int) -> bool {
    exists|p: Seq<int>|
        #![trigger is_walk(edges, p), walk_within(allowed, p)]
        is_walk(edges, p) && walk_within(allowed, p) && seed[p[0]] && p.last() == r
}

/// `d` is a descendant of `a`: a walk of at least one edge leads from `a` to `d`.
pub open spec fn descends(edges: Seq<(usize, usize)>, a: int, d: int) -> bool {
    exists|p: Seq<int>|
        #![trigger is_walk(edges, p)]
        is_walk(edges, p) && p.len() >= 2 && p[0] == a && p.last() == d
}

/// Number of set flags.
pub open spec fn count_true(s: Seq<bool>) -> nat
    decreases s.len(),
{
    if s.len() == 0 {
        0
    } else {
        count_true(s.drop_last()) + if s.last() {
            1nat
        } else {
            0nat
        }
    }
}

proof fn lemma_count_true_bound(s: Seq<bool>)
    ensures
        count_true(s) <= s.len(),
    decreases s.len(),
{
    if s.len() > 0 {
        lemma_count_true_bound(s.drop_last());
    }
}

proof fn lemma_count_true_set(s: Seq<bool>, i: int)
    requires
        0 <= i < s.len(),
        !s[i],
    ensures
        count_true(s.update(i, true)) == count_true(s) + 1,
    decreases s.len(),
{
    let t = s.update(i, true);
    if i == s.len() - 1 {
        assert(t.drop_last() == s.drop_last());
    } else {
        lemma_count_true_set(s.drop_last(), i);
        assert(t.drop_last() == s.drop_last().update(i, true));
    }
}

/// A walk extended by one edge is a walk.
proof fn lemma_walk_push(edges: Seq<(usize, usize)>, p: Seq<int>, v: int)
    requires
        is_walk(edges, p),
        is_edge(edges, p.last(), v),
    ensures
        is_walk(edges, p.push(v)),
{
    let q = p.push(v);
    assert forall|i: int| 0 <= i < q.len() - 1 implies #[trigger] is_edge(edges, q[i], q[i + 1]) by {
        if i < p.len() - 1 {
            assert(q[i] == p[i] && q[i + 1] == p[i + 1]);
        }
    }
}

/// A set of nodes that contains the allowed seeds and is closed under allowed edges
/// contains every node reached from the seeds.
proof fn lemma_closed_contains_reached(
    edges: Seq<(usize, usize)>,
    seed: Seq<bool>,
    allowed: Seq<bool>,
    r: Seq<bool>,
    p: Seq<int>,
)
    requires
        r.len() == allowed.len(),
        seed.len() == allowed.len(),
        forall|v: int| 0 <= v < r.len() && seed[v] && allowed[v] ==> r[v],
        forall|i: int|
            0 <= i < edges.len() && edges[i].0 < r.len() && edges[i].1 < r.len() && r[edges[i].0 as int]
                && allowed[edges[i].1 as int] ==> r[edges[i].1 as int],
        is_walk(edges, p),
        walk_within(allowed, p),
        seed[p[0]],
    ensures
        r[p.last()],
    decreases p.len(),
{
    if p.len() > 1 {
        let q = p.drop_last();
        assert forall|i: int| 0 <= i < q.len() - 1 implies #[trigger] is_edge(edges, q[i], q[i + 1]) by {
            assert(is_edge(edges, p[i], p[i + 1]));
        }
        assert forall|i: int| 0 <= i < q.len() implies 0 <= #[trigger] q[i] < allowed.len() && allowed[q[i]] by {
            assert(0 <= p[i] < allowed.len());
        }
        lemma_closed_contains_reached(edges, seed, allowed, r, q);
        let m = p.len() - 2;
        assert(is_edge(edges, p[m], p[m + 1]));
        let k = choose|k: int| 0 <= k < edges.len() && edges[k].0 == p[m] && edges[k].1 == p[m + 1];
        assert(0 <= p[p.len() - 1] < allowed.len());
        assert(0 <= p[p.len() - 2] < allowed.len());
    } else {
        assert(0 <= p[0] < allowed.len());
    }
}

/// The nodes reached from the seed nodes by walks over allowed nodes.
pub fn reach_closure(n: usize, edges: &Vec<(usize, usize)>, seed: &Vec<bool>, allowed: &Vec<bool>) -> (res:
    Vec<bool>)
    requires
        seed@.len() == n,
        allowed@.len() == n,
        edges_within(edges@, n as nat),
    ensures
        res@.len() == n,
        forall|v: int| 0 <= v < n ==> res@[v] == reaches(edges@, seed@, allowed@, v),
{
    let mut r: Vec<bool> = Vec::new();
    for v in 0..n
        invariant
            seed@.len() == n,
            allowed@.len() == n,
            r@.len() == v,
            forall|w: int| 0 <= w < v ==> r@[w] == (seed@[w] && allowed@[w]),
    {
        r.push(seed[v] && allowed[v]);
    }
    proof {
        assert forall|v: int| 0 <= v < n && #[trigger] r@[v] implies reaches(edges@, seed@, allowed@, v) by {
            let p = seq![v];
            assert(is_walk(edges@, p));
            assert(walk_within(allowed@, p));
        }
    }
    loop
        invariant
            seed@.len() == n,
            allowed@.len() == n,
            edges_within(edges@, n as nat),
            r@.len() == n,
            forall|v: int| 0 <= v < n && seed@[v] && allowed@[v] ==> r@[v],
            forall|v: int| 0 <= v < n && #[trigger] r@[v] ==> reaches(edges@, seed@, allowed@, v),
        ensures
            r@.len() == n,
            forall|v: int| 0 <= v < n && seed@[v] && allowed@[v] ==> r@[v],
            forall|v: int| 0 <= v < n && #[trigger] r@[v] ==> reaches(edges@, seed@, allowed@, v),
            forall|j: int|
                0 <= j < edges@.len() && r@[edges@[j].0 as int] && allowed@[edges@[j].1 as int] ==> r@[edges@[j].1 as int],
        decreases n - count_true(r@),
    {
        let ghost start = r@;
        let mut changed = false;
        let mut i: usize = 0;
        while i < edges.len()
            invariant
                seed@.len() == n,
                allowed@.len() == n,
                edges_within(edges@, n as nat),
                r@.len() == n,
                i <= edges@.len(),
                forall|v: int| 0 <= v < n && seed@[v] && allowed@[v] ==> r@[v],
                forall|v: int| 0 <= v < n && #[trigger] r@[v] ==> reaches(edges@, seed@, allowed@, v),
                start.len() == n,
                forall|v: int| 0 <= v < n && start[v] ==> r@[v],
                !changed ==> r@ == start,
                changed ==> count_true(r@) > count_true(start),
                !changed ==> forall|j: int|
                    0 <= j < i && r@[edges@[j].0 as int] && allowed@[edges@[j].1 as int] ==> r@[edges@[j].1 as int],
            decreases edges@.len() - i,
        {
            let (u, v) = edges[i];
            if r[u] && allowed[v] && !r[v] {
                proof {
                    let p = choose|p: Seq<int>|
                        #![trigger is_walk(edges@, p), walk_within(allowed@, p)]
                        is_walk(edges@, p) && walk_within(allowed@, p) && seed@[p[0]] && p.last() == u;
                    assert(is_edge(edges@, u as int, v as int));
                    lemma_walk_push(edges@, p, v as int);
                    let q = p.push(v as int);
                    assert(walk_within(allowed@, q));
                    assert(q[0] == p[0]);
                    lemma_count_true_set(r@, v as int);
                }
                r.set(v, true);
                changed = true;
            }
            i = i + 1;
        }
        proof {
            lemma_count_true_bound(r@);
        }
        if !changed {
            break;
        }
    }
    proof {
        assert forall|v: int| 0 <= v < n implies r@[v] == reaches(edges@, seed@, allowed@, v) by {
            if reaches(edges@, seed@, allowed@, v) {
                let p = choose|p: Seq<int>|
                    #![trigger is_walk(edges@, p), walk_within(allowed@, p)]
                    is_walk(edges@, p) && walk_within(allowed@, p) && seed@[p[0]] && p.last() == v;
                lemma_closed_contains_reached(edges@, seed@, allowed@, r@, p);
            }
        }
    }
    r
}

/// The nodes that `a` has an edge to.
pub open spec fn successors(edges: Seq<(usize, usize)>, a: int, n: nat) -> Seq<bool> {
    Seq::new(n, |v: int| is_edge(edges, a, v))
}

/// Every node set.
pub open spec fn all_nodes(n: nat) -> Seq<bool> {
    Seq::new(n, |v: int| true)
}

/// Descendants are exactly the nodes reached from the successors.
proof fn lemma_descends_via_successors(edges: Seq<(usize, usize)>, n: nat, a: int, d: int)
    requires
        edges_within(edges, n),
        0 <= a < n,
    ensures
        descends(edges, a, d) == reaches(edges, successors(edges, a, n), all_nodes(n), d),
{
    let seed = successors(edges, a, n);
    let all = all_nodes(n);
    if descends(edges, a, d) {
        let p = choose|p: Seq<int>| #![trigger is_walk(edges, p)] is_walk(edges, p) && p.len() >= 2 && p[0] == a && p.last() == d;
        let q = p.drop_first();
        assert forall|i: int| 0 <= i < q.len() - 1 implies #[trigger] is_edge(edges, q[i], q[i + 1]) by {
            assert(is_edge(edges, p[i + 1], p[i + 1 + 1]));
        }
        assert forall|i: int| 0 <= i < q.len() implies 0 <= #[trigger] q[i] < all.len() && all[q[i]] by {
            assert(is_edge(edges, p[i], p[i + 1]));
            let k = choose|k: int| 0 <= k < edges.len() && edges[k].0 == p[i] && edges[k].1 == p[i + 1];
        }
        assert(is_edge(edges, p[0], p[0int + 1]));
        assert(seed[q[0]]);
        assert(is_walk(edges, q) && walk_within(all, q));
    }
    if reaches(edges, seed, all, d) {
        let q = choose|q: Seq<int>|
            #![trigger is_walk(edges, q), walk_within(all, q)]
            is_walk(edges, q) && walk_within(all, q) && seed[q[0]] && q.last() == d;
        let p = seq![a] + q;
        assert forall|i: int| 0 <= i < p.len() - 1 implies #[trigger] is_edge(edges, p[i], p[i + 1]) by {
            if i > 0 {
                assert(is_edge(edges, q[i - 1], q[i - 1 + 1]));
            } else {
                assert(0 <= q[0] < all.len());
            }
        }
        assert(p.last() == q.last());
        assert(is_walk(edges, p));
    }
}

/// The descendants of `a`.
pub fn descendants_of(n: usize, edges: &Vec<(usize, usize)>, a: usize) -> (res: Vec<bool>)
    requires
        edges_within(edges@, n as nat),
        a < n,
    ensures
        res@.len() == n,
        forall|d: int| 0 <= d < n ==> res@[d] == descends(edges@, a as int, d),
{
    let mut seed: Vec<bool> = Vec::new();
    let mut all: Vec<bool> = Vec::new();
    for v in 0..n
        invariant
            seed@.len() == v,
            all@.len() == v,
            forall|w: int| 0 <= w < v ==> seed@[w] == is_edge(edges@, a as int, w) && all@[w],
    {
        let mut found = false;
        let mut i: usize = 0;
        while i < edges.len()
            invariant
                i <= edges@.len(),
                found == exists|j: int| 0 <= j < i && edges@[j].0 == a && edges@[j].1 == v,
            decreases edges@.len() - i,
        {
            if edges[i].0 == a && edges[i].1 == v {
                found = true;
            }
            i = i + 1;
        }
        seed.push(found);
        all.push(true);
    }
    assert(seed@ == successors(edges@, a as int, n as nat));
    assert(all@ == all_nodes(n as nat));
    let res = reach_closure(n, edges, &seed, &all);
    proof {
        assert forall|d: int| 0 <= d < n implies res@[d] == descends(edges@, a as int, d) by {
            lemma_descends_via_successors(edges@, n as nat, a as int, d);
        }
    }
    res
}

/// Descent is transitive.
pub proof fn lemma_descends_transitive(edges: Seq<(usize, usize)>, a: int, b: int, c: int)
    requires
        descends(edges, a, b),
        descends(edges, b, c),
    ensures
        descends(edges, a, c),
{
    let p = choose|p: Seq<int>| #![trigger is_walk(edges, p)] is_walk(edges, p) && p.len() >= 2 && p[0] == a && p.last() == b;
    let q = choose|q: Seq<int>| #![trigger is_walk(edges, q)] is_walk(edges, q) && q.len() >= 2 && q[0] == b && q.last() == c;
    let w = p + q.drop_first();
    assert forall|i: int| 0 <= i < w.len() - 1 implies #[trigger] is_edge(edges, w[i], w[i + 1]) by {
        if i < p.len() - 1 {
            assert(is_edge(edges, p[i], p[i + 1]));
        } else if i == p.len() - 1 {
            assert(is_edge(edges, q[0], q[0int + 1]));
        } else {
            let k = i - p.len() + 1;
            assert(is_edge(edges, q[k], q[k + 1]));
        }
    }
    assert(w.last() == q.last());
    assert(is_walk(edges, w));
}

/// An edge is a one-step descent.
pub proof fn lemma_edge_descends(edges: Seq<(usize, usize)>, a: int, b: int)
    requires
        is_edge(edges, a, b),
    ensures
        descends(edges, a, b),
{
    let p = seq![a, b];
    assert(is_edge(edges, p[0], p[0int + 1]));
    assert(is_walk(edges, p));
}

} // verus!
