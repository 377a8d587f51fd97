//! The neighborhood topology: a fixed directed adjacency structure over
//! particle indices, read by a depth-bounded breadth-first expansion.

use vstd::prelude::*;
use vstd::pervasive::VecAdditionalExecFns;

verus! {

/// The mathematical view of an adjacency list: one sequence of neighbor
/// indices per particle.
pub open spec fn graph_seq(g: Vec<Vec<usize>>) -> Seq<Seq<usize>> {
    g@.map_values(|row: Vec<usize>| row@)
}

/// The graph has one row per particle and every neighbor index it mentions
/// lies below `n`.
pub open spec fn graph_ok(g: Seq<Seq<usize>>, n: int) -> bool {
    &&& g.len() == n
    &&& forall|i: int, j: int|
        0 <= i < g.len() && 0 <= j < g[i].len() ==> (#[trigger] g[i][j]) < n
}

/// Checks that every neighbor index of `g` lies below `g.len()`.
pub fn graph_indices_valid(g: &Vec<Vec<usize>>) -> (r: bool)
    ensures
        r == graph_ok(graph_seq(*g), g@.len() as int),
{
    let n = g.len();
    for i in 0..n
        invariant
            n == g@.len(),
            forall|i2: int, j2: int|
                0 <= i2 < i && 0 <= j2 < graph_seq(*g)[i2].len()
                    ==> (#[trigger] graph_seq(*g)[i2][j2]) < n,
    {
        let row_len = g[i].len();
        for j in 0..row_len
            invariant
                n == g@.len(),
                i < n,
                row_len == graph_seq(*g)[i as int].len(),
                forall|i2: int, j2: int|
                    0 <= i2 < i && 0 <= j2 < graph_seq(*g)[i2].len()
                        ==> (#[trigger] graph_seq(*g)[i2][j2]) < n,
                forall|j2: int|
                    0 <= j2 < j ==> (#[trigger] graph_seq(*g)[i as int][j2]) < n,
        {
            if g[i][j] >= n {
                return false;
            }
        }
    }
    true
}

/// The indices at most one hop beyond `prev`: `prev` itself together with
/// every in-range neighbor of a member of `prev`.
pub open spec fn expand_once(g: Seq<Seq<usize>>, prev: Set<int>) -> Set<int> {
    prev.union(
        Set::new(
            |w: int|
                0 <= w < g.len() && exists|v: int|
                    #[trigger] prev.contains(v) && 0 <= v < g.len() && g[v].contains(w as usize),
        ),
    )
}

/// The set of particle indices within `d` hops of `s`: `s` itself at depth
/// 0, and at each further depth every neighbor of an index already reached.
pub open spec fn reach_set(g: Seq<Seq<usize>>, s: int, d: nat) -> Set<int>
    decreases d,
{
    if d == 0 {
        Set::empty().insert(s)
    } else {
        expand_once(g, reach_set(g, s, (d - 1) as nat))
    }
}

/// The start index is reached at every depth.
pub proof fn lemma_reach_contains_start(g: Seq<Seq<usize>>, s: int, d: nat)
    ensures
        reach_set(g, s, d).contains(s),
    decreases d,
{
    if d > 0 {
        lemma_reach_contains_start(g, s, (d - 1) as nat);
    }
}

/// On a well-formed graph, every reached index is a particle index.
pub proof fn lemma_reach_in_range(g: Seq<Seq<usize>>, s: int, d: nat, n: int)
    requires
        graph_ok(g, n),
        0 <= s < n,
    ensures
        forall|v: int| reach_set(g, s, d).contains(v) ==> 0 <= v < n,
    decreases d,
{
    if d > 0 {
        lemma_reach_in_range(g, s, (d - 1) as nat, n);
        let prev = reach_set(g, s, (d - 1) as nat);
        assert forall|v: int| reach_set(g, s, d).contains(v) implies 0 <= v < n by {
            if !prev.contains(v) {
                assert(reach_set(g, s, d) == expand_once(g, prev));
            }
        }
    }
}

/// Returns an adjacency list with exactly the rows of `g`.
pub fn copy_graph(g: &Vec<Vec<usize>>) -> (r: Vec<Vec<usize>>)
    ensures
        r@.len() == g@.len(),
        graph_seq(r) == graph_seq(*g),
{
    let n = g.len();
    let mut r: Vec<Vec<usize>> = Vec::new();
    for i in 0..n
        invariant
            n == g@.len(),
            r@.len() == i,
            forall|j: int| 0 <= j < i ==> (#[trigger] r@[j]@) == g@[j]@,
    {
        let row_len = g[i].len();
        let mut row: Vec<usize> = Vec::new();
        for t in 0..row_len
            invariant
                n == g@.len(),
                i < n,
                row_len == g@[i as int]@.len(),
                row@.len() == t,
                forall|t2: int| 0 <= t2 < t ==> row@[t2] == g@[i as int]@[t2],
        {
            row.push(g[i][t]);
        }
        proof {
            assert(row@ =~= g@[i as int]@);
        }
        r.push(row);
    }
    proof {
        assert forall|j: int| 0 <= j < n implies (#[trigger] graph_seq(r)[j]) == graph_seq(*g)[j]
            by {
            assert(graph_seq(r)[j] == r@[j]@);
            assert(graph_seq(*g)[j] == g@[j]@);
        }
        assert(graph_seq(r) =~= graph_seq(*g));
    }
    r
}

/// Marks, for every particle index, whether it lies within `depth` hops of
/// `start`: the flag at `v` is set exactly when `v` is in
/// [`reach_set`]`(g, start, depth)`. The expansion proceeds level by level,
/// so cycles in the graph terminate.
pub fn reachable_within(g: &Vec<Vec<usize>>, start: usize, depth: usize) -> (r: Vec<bool>)
    requires
        graph_ok(graph_seq(*g), g@.len() as int),
        (start as int) < g@.len(),
    ensures
        r@.len() == g@.len(),
        forall|v: int|
            0 <= v < g@.len()
                ==> r@[v] == reach_set(graph_seq(*g), start as int, depth as nat).contains(v),
{
    let ghost gs = graph_seq(*g);
    let n = g.len();
    let mut cur: Vec<bool> = Vec::new();
    let mut k: usize = 0;
    while k < n
        invariant
            cur@.len() == k <= n,
            forall|j: int| 0 <= j < k ==> !cur@[j],
        decreases n - k,
    {
        cur.push(false);
        k += 1;
    }
    cur.set(start, true);
    proof {
        assert(forall|v: int|
            0 <= v < n ==> cur@[v] == reach_set(gs, start as int, 0).contains(v));
    }
    for level in 0..depth
        invariant
            gs == graph_seq(*g),
            n == g@.len(),
            (start as int) < n,
            graph_ok(gs, n as int),
            cur@.len() == n,
            forall|v: int|
                0 <= v < n ==> cur@[v] == reach_set(gs, start as int, level as nat).contains(v),
    {
        let ghost prev = reach_set(gs, start as int, level as nat);
        let mut next: Vec<bool> = Vec::new();
        let mut k2: usize = 0;
        while k2 < n
            invariant
                cur@.len() == n,
                next@.len() == k2 <= n,
                forall|j: int| 0 <= j < k2 ==> next@[j] == cur@[j],
            decreases n - k2,
        {
            next.push(cur[k2]);
            k2 += 1;
        }
        for v in 0..n
            invariant
                gs == graph_seq(*g),
                n == g@.len(),
                graph_ok(gs, n as int),
                cur@.len() == n,
                next@.len() == n,
                forall|u: int| 0 <= u < n ==> cur@[u] == prev.contains(u),
                forall|u: int| #![trigger next@[u]]
                    0 <= u < n
                        ==> next@[u] == (prev.contains(u) || exists|v2: int|
                            0 <= v2 < v && #[trigger] prev.contains(v2) && gs[v2].contains(
                                u as usize,
                            )),
        {
            if cur[v] {
                let row_len = g[v].len();
                for t in 0..row_len
                    invariant
                        gs == graph_seq(*g),
                        n == g@.len(),
                        graph_ok(gs, n as int),
                        v < n,
                        prev.contains(v as int),
                        cur@.len() == n,
                        next@.len() == n,
                        row_len == gs[v as int].len(),
                        forall|u: int| #![trigger next@[u]]
                            0 <= u < n
                                ==> next@[u] == (prev.contains(u) || (exists|v2: int|
                                    0 <= v2 < v && #[trigger] prev.contains(v2) && gs[v2].contains(
                                        u as usize,
                                    )) || (exists|t2: int|
                                    0 <= t2 < t && gs[v as int][t2] == u as usize)),
                {
                    let w = g[v][t];
                    proof {
                        assert(gs[v as int][t as int] == w);
                        assert(w < n);
                    }
                    let ghost before = next@;
                    next.set(w, true);
                    proof {
                        assert forall|u: int| 0 <= u < n implies next@[u] == (prev.contains(u) || (
                        exists|v2: int|
                            0 <= v2 < v && #[trigger] prev.contains(v2) && gs[v2].contains(
                                u as usize,
                            )) || (exists|t2: int|
                            0 <= t2 < t + 1 && gs[v as int][t2] == u as usize)) by {
                            if u == w as int {
                                assert(gs[v as int][t as int] == u as usize);
                                assert(next@[u]);
                            } else {
                                assert(next@[u] == before[u]);
                                if exists|t2: int|
                                    0 <= t2 < t + 1 && gs[v as int][t2] == u as usize {
                                    let t2 = choose|t2: int|
                                        0 <= t2 < t + 1 && gs[v as int][t2] == u as usize;
                                    assert(t2 != t);
                                    assert(exists|t3: int|
                                        0 <= t3 < t && gs[v as int][t3] == u as usize);
                                }
                            }
                        }
                    }
                }
                proof {
                    assert forall|u: int| 0 <= u < n implies next@[u] == (prev.contains(u) || (
                    exists|v2: int|
                        0 <= v2 < v + 1 && #[trigger] prev.contains(v2) && gs[v2].contains(
                            u as usize,
                        ))) by {
                        if next@[u] {
                            if !prev.contains(u) {
                                if exists|t2: int|
                                    0 <= t2 < row_len && gs[v as int][t2] == u as usize {
                                    let t2 = choose|t2: int|
                                        0 <= t2 < row_len && gs[v as int][t2] == u as usize;
                                    assert(gs[v as int].contains(u as usize));
                                    assert(0 <= (v as int) < v + 1 && prev.contains(v as int)
                                        && gs[v as int].contains(u as usize));
                                } else {
                                    let v2 = choose|v2: int|
                                        0 <= v2 < v && #[trigger] prev.contains(v2)
                                            && gs[v2].contains(u as usize);
                                    assert(0 <= v2 < v + 1 && prev.contains(v2) && gs[v2].contains(
                                        u as usize,
                                    ));
                                }
                            }
                        } else {
                            if exists|v2: int|
                                0 <= v2 < v + 1 && #[trigger] prev.contains(v2) && gs[v2].contains(
                                    u as usize,
                                ) {
                                let v2 = choose|v2: int|
                                    0 <= v2 < v + 1 && #[trigger] prev.contains(v2)
                                        && gs[v2].contains(u as usize);
                                if v2 == v as int {
                                    let t2 = choose|t2: int|
                                        0 <= t2 < gs[v as int].len() && gs[v as int][t2]
                                            == u as usize;
                                    assert(false);
                                } else {
                                    assert(false);
                                }
                            }
                        }
                    }
                }
            } else {
                proof {
                    assert(!prev.contains(v as int));
                    assert forall|u: int| 0 <= u < n implies next@[u] == (prev.contains(u) || (
                    exists|v2: int|
                        0 <= v2 < v + 1 && #[trigger] prev.contains(v2) && gs[v2].contains(
                            u as usize,
                        ))) by {
                        if !next@[u] {
                            if exists|v2: int|
                                0 <= v2 < v + 1 && #[trigger] prev.contains(v2) && gs[v2].contains(
                                    u as usize,
                                ) {
                                let v2 = choose|v2: int|
                                    0 <= v2 < v + 1 && #[trigger] prev.contains(v2)
                                        && gs[v2].contains(u as usize);
                                assert(v2 != v as int);
                                assert(false);
                            }
                        } else {
                            if !prev.contains(u) {
                                let v2 = choose|v2: int|
                                    0 <= v2 < v && #[trigger] prev.contains(v2) && gs[v2].contains(
                                        u as usize,
                                    );
                                assert(0 <= v2 < v + 1 && prev.contains(v2) && gs[v2].contains(
                                    u as usize,
                                ));
                            }
                        }
                    }
                }
            }
        }
        proof {
            lemma_reach_in_range(gs, start as int, level as nat, n as int);
            let post = reach_set(gs, start as int, (level + 1) as nat);
            assert(post == expand_once(gs, prev));
            assert forall|u: int| 0 <= u < n implies next@[u] == post.contains(u) by {
                if next@[u] {
                    if !prev.contains(u) {
                        let v2 = choose|v2: int|
                            0 <= v2 < n && #[trigger] prev.contains(v2) && gs[v2].contains(
                                u as usize,
                            );
                        assert(post.contains(u));
                    }
                } else {
                    if post.contains(u) {
                        if !prev.contains(u) {
                            let v2 = choose|v2: int|
                                #[trigger] prev.contains(v2) && 0 <= v2 < gs.len() && gs[v2]
                                    .contains(u as usize);
                            assert(next@[u]);
                        }
                    }
                }
            }
        }
        cur = next;
    }
    cur
}

} // verus!
