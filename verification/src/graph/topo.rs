//! Kahn-style topological sorting of an adjacency list, with the laws that
//! tie its outcome to the existence of a topological order.

use vstd::prelude::*;
use vstd::set_lib::*;

verus! {

/// Number of times `v` occurs in `s`.
pub open spec fn occurrences(s: Seq<usize>, v: int) -> nat
    decreases s.len(),
{
    if s.len() == 0 {
        0
    } else {
        occurrences(s.drop_last(), v) + (if s.last() == v {
            1nat
        } else {
            0nat
        })
    }
}

/// Number of edges into `v` whose source is one of the first `upto` nodes
/// and is not in `done`.
pub open spec fn open_in_degree(adj: Seq<Seq<usize>>, done: Set<int>, v: int, upto: int) -> nat
    decreases upto,
{
    if upto <= 0 {
        0
    } else {
        open_in_degree(adj, done, v, upto - 1) + (if done.contains(upto - 1) {
            0nat
        } else {
            occurrences(adj[upto - 1], v)
        })
    }
}

/// Number of edges into `v`.
pub open spec fn in_degree(adj: Seq<Seq<usize>>, v: int) -> nat {
    open_in_degree(adj, Set::empty(), v, adj.len() as int)
}

/// Total number of entries in the first `upto` adjacency lists.
pub open spec fn edge_total(adj: Seq<Seq<usize>>, upto: int) -> nat
    decreases upto,
{
    if upto <= 0 {
        0
    } else {
        edge_total(adj, upto - 1) + adj[upto - 1].len()
    }
}

/// There is an edge `u -> v`.
pub open spec fn has_edge(adj: Seq<Seq<usize>>, u: int, v: int) -> bool {
    &&& 0 <= u < adj.len()
    &&& exists|k: int| 0 <= k < adj[u].len() && adj[u][k] == v
}

/// `ord` lists every node exactly once, and every edge goes forward in it.
pub open spec fn is_topological_order(adj: Seq<Seq<usize>>, ord: Seq<usize>) -> bool {
    &&& ord.len() == adj.len()
    &&& ord.no_duplicates()
    &&& forall|i: int| 0 <= i < ord.len() ==> ord[i] < adj.len()
    &&& forall|i: int, j: int|
        0 <= i < ord.len() && 0 <= j < ord.len() && #[trigger] has_edge(
            adj,
            ord[i] as int,
            ord[j] as int,
        ) ==> i < j
}

/// The graph admits a topological order (it has no cycle).
pub open spec fn is_acyclic(adj: Seq<Seq<usize>>) -> bool {
    exists|ord: Seq<usize>| is_topological_order(adj, ord)
}

/// `v` occurs somewhere in `s`.
pub open spec fn lists(s: Seq<usize>, v: int) -> bool {
    exists|i: int| 0 <= i < s.len() && s[i] == v
}

/// Every node of `s` is a node of the graph, and `s` names none twice.
pub open spec fn distinct_nodes(s: Seq<usize>, n: int) -> bool {
    &&& s.no_duplicates()
    &&& forall|i: int| 0 <= i < s.len() ==> s[i] < n
}

/// Each edge into an element of `s` starts at an element listed before it.
pub open spec fn predecessors_first(adj: Seq<Seq<usize>>, s: Seq<usize>) -> bool {
    forall|j: int, u: int|
        0 <= j < s.len() && #[trigger] has_edge(adj, u, s[j] as int) ==> exists|i: int|
            0 <= i < j && s[i] == u
}

/// The roots handed to the sort: distinct nodes with no incoming edge.
pub open spec fn valid_roots(adj: Seq<Seq<usize>>, roots: Seq<usize>) -> bool {
    &&& distinct_nodes(roots, adj.len() as int)
    &&& forall|i: int| 0 <= i < roots.len() ==> in_degree(adj, roots[i] as int) == 0
}

/// `roots` lists every node without incoming edges.
pub open spec fn covers_sources(adj: Seq<Seq<usize>>, roots: Seq<usize>) -> bool {
    forall|v: int| 0 <= v < adj.len() && in_degree(adj, v) == 0 ==> #[trigger] lists(roots, v)
}

pub proof fn lemma_occurrences_take_step(s: Seq<usize>, k: int, v: int)
    requires
        0 <= k < s.len(),
    ensures
        occurrences(s.take(k + 1), v) == occurrences(s.take(k), v) + (if s[k] == v {
            1nat
        } else {
            0nat
        }),
{
    assert(s.take(k + 1).drop_last() =~= s.take(k));
}

pub proof fn lemma_occurrences_bound(s: Seq<usize>, v: int)
    ensures
        occurrences(s, v) <= s.len(),
    decreases s.len(),
{
    if s.len() > 0 {
        lemma_occurrences_bound(s.drop_last(), v);
    }
}

pub proof fn lemma_occurrences_positive(s: Seq<usize>, v: int)
    ensures
        occurrences(s, v) > 0 <==> exists|k: int| 0 <= k < s.len() && s[k] == v,
    decreases s.len(),
{
    if s.len() > 0 {
        lemma_occurrences_positive(s.drop_last(), v);
        if exists|k: int| 0 <= k < s.len() && s[k] == v {
            let k = choose|k: int| #![auto] 0 <= k < s.len() && s[k] == v;
            if k < s.len() - 1 {
                assert(s.drop_last()[k] == v);
            }
        }
        if exists|k: int| 0 <= k < s.len() - 1 && s.drop_last()[k] == v {
            let k = choose|k: int| #![auto] 0 <= k < s.len() - 1 && s.drop_last()[k] == v;
            assert(s[k] == v);
        }
    }
}

pub proof fn lemma_occurrences_full(s: Seq<usize>, v: int)
    ensures
        occurrences(s.take(s.len() as int), v) == occurrences(s, v),
{
    assert(s.take(s.len() as int) =~= s);
}

/// Marking `u` as done removes exactly its edges into `v`.
pub proof fn lemma_open_in_degree_mark(
    adj: Seq<Seq<usize>>,
    done: Set<int>,
    u: int,
    v: int,
    upto: int,
)
    requires
        !done.contains(u),
    ensures
        0 <= u < upto ==> open_in_degree(adj, done.insert(u), v, upto) + occurrences(adj[u], v)
            == open_in_degree(adj, done, v, upto),
        !(0 <= u < upto) ==> open_in_degree(adj, done.insert(u), v, upto) == open_in_degree(
            adj,
            done,
            v,
            upto,
        ),
    decreases upto,
{
    if upto > 0 {
        lemma_open_in_degree_mark(adj, done, u, v, upto - 1);
    }
}

/// An edge from an open node counts towards the open in-degree.
pub proof fn lemma_open_in_degree_lower(
    adj: Seq<Seq<usize>>,
    done: Set<int>,
    u: int,
    v: int,
    upto: int,
)
    requires
        !done.contains(u),
        0 <= u < upto,
    ensures
        open_in_degree(adj, done, v, upto) >= occurrences(adj[u], v),
    decreases upto,
{
    if u < upto - 1 {
        lemma_open_in_degree_lower(adj, done, u, v, upto - 1);
    }
}

/// A positive open in-degree has an open source.
pub proof fn lemma_open_in_degree_witness(adj: Seq<Seq<usize>>, done: Set<int>, v: int, upto: int)
    requires
        open_in_degree(adj, done, v, upto) > 0,
    ensures
        exists|u: int|
            0 <= u < upto && !done.contains(u) && #[trigger] occurrences(adj[u], v) > 0,
    decreases upto,
{
    if upto > 0 {
        if open_in_degree(adj, done, v, upto - 1) > 0 {
            lemma_open_in_degree_witness(adj, done, v, upto - 1);
        } else {
            assert(!done.contains(upto - 1) && occurrences(adj[upto - 1], v) > 0);
        }
    }
}

/// Open in-degree never exceeds the number of listed edges.
pub proof fn lemma_open_in_degree_bound(adj: Seq<Seq<usize>>, done: Set<int>, v: int, upto: int)
    ensures
        open_in_degree(adj, done, v, upto) <= edge_total(adj, upto),
    decreases upto,
{
    if upto > 0 {
        lemma_open_in_degree_bound(adj, done, v, upto - 1);
        lemma_occurrences_bound(adj[upto - 1], v);
    }
}

pub proof fn lemma_edge_total_monotone(adj: Seq<Seq<usize>>, a: int, b: int)
    requires
        a <= b,
    ensures
        edge_total(adj, a) <= edge_total(adj, b),
    decreases b - a,
{
    if a < b {
        lemma_edge_total_monotone(adj, a, b - 1);
    }
}

/// A node with zero open in-degree has all its predecessors done.
pub proof fn lemma_zero_open_in_degree(adj: Seq<Seq<usize>>, done: Set<int>, u: int, v: int)
    requires
        open_in_degree(adj, done, v, adj.len() as int) == 0,
        has_edge(adj, u, v),
    ensures
        done.contains(u),
{
    if !done.contains(u) {
        let k = choose|k: int| #![auto] 0 <= k < adj[u].len() && adj[u][k] == v;
        lemma_occurrences_positive(adj[u], v);
        lemma_open_in_degree_lower(adj, done, u, v, adj.len() as int);
    }
}

/// A node whose in-degree is zero has no incoming edge.
pub proof fn lemma_source_has_no_edge(adj: Seq<Seq<usize>>, u: int, v: int)
    requires
        in_degree(adj, v) == 0,
    ensures
        !has_edge(adj, u, v),
{
    if has_edge(adj, u, v) {
        lemma_zero_open_in_degree(adj, Set::empty(), u, v);
    }
}

/// Map a sequence of node indices to integers.
pub open spec fn as_ints(s: Seq<usize>) -> Seq<int> {
    s.map_values(|x: usize| x as int)
}

/// A duplicate-free sequence of nodes below `n` has as many distinct values as entries.
pub proof fn lemma_nodes_set(s: Seq<usize>, n: int)
    requires
        distinct_nodes(s, n),
        0 <= n,
    ensures
        as_ints(s).to_set().finite(),
        as_ints(s).to_set().len() == s.len(),
        as_ints(s).to_set().subset_of(set_int_range(0, n)),
        forall|v: int| #[trigger] as_ints(s).to_set().contains(v) <==> lists(s, v),
{
    let t = as_ints(s);
    assert(t.no_duplicates()) by {
        assert forall|i: int, j: int| 0 <= i < t.len() && 0 <= j < t.len() && i != j implies t[i]
            != t[j] by {
            assert(s[i] != s[j]);
        }
    }
    t.unique_seq_to_set();
    vstd::seq_lib::seq_to_set_is_finite(t);
    assert forall|v: int| #[trigger] t.to_set().contains(v) <==> lists(s, v) by {
        if t.to_set().contains(v) {
            let i = choose|i: int| #![auto] 0 <= i < t.len() && t[i] == v;
            assert(s[i] == v);
        }
        if lists(s, v) {
            let i = choose|i: int| #![auto] 0 <= i < s.len() && s[i] == v;
            assert(t[i] == v);
        }
    }
}

/// A duplicate-free sequence of nodes below `n` has at most `n` entries.
pub proof fn lemma_distinct_len(s: Seq<usize>, n: int)
    requires
        distinct_nodes(s, n),
        0 <= n,
    ensures
        s.len() <= n,
{
    lemma_nodes_set(s, n);
    lemma_int_range(0, n);
    lemma_len_subset(as_ints(s).to_set(), set_int_range(0, n));
}

/// A duplicate-free list of `n` nodes below `n` names every node.
pub proof fn lemma_full_list_covers(s: Seq<usize>, n: int, v: int)
    requires
        distinct_nodes(s, n),
        s.len() == n,
        0 <= v < n,
    ensures
        lists(s, v),
{
    lemma_nodes_set(s, n);
    lemma_int_range(0, n);
    lemma_subset_equality(as_ints(s).to_set(), set_int_range(0, n));
    assert(set_int_range(0, n).contains(v));
    assert(as_ints(s).to_set().contains(v));
}

/// A duplicate-free list of fewer than `n` nodes below `n` misses some node.
pub proof fn lemma_short_list_misses(s: Seq<usize>, n: int) -> (v: int)
    requires
        distinct_nodes(s, n),
        s.len() < n,
    ensures
        0 <= v < n,
        !lists(s, v),
{
    lemma_nodes_set(s, n);
    lemma_int_range(0, n);
    if forall|v: int| 0 <= v < n ==> #[trigger] lists(s, v) {
        assert forall|v: int| set_int_range(0, n).contains(v) implies #[trigger] as_ints(
            s,
        ).to_set().contains(v) by {
            assert(lists(s, v));
        }
        lemma_len_subset(set_int_range(0, n), as_ints(s).to_set());
        0
    } else {
        choose|v: int| 0 <= v < n && !#[trigger] lists(s, v)
    }
}

/// The set of nodes listed in `s`.
pub open spec fn listed(s: Seq<usize>) -> Set<int> {
    Set::new(|v: int| lists(s, v))
}

pub proof fn lemma_listed_push(s: Seq<usize>, x: usize)
    ensures
        listed(s.push(x)) =~= listed(s).insert(x as int),
{
    assert forall|v: int| #[trigger] listed(s.push(x)).contains(v) <==> listed(s).insert(
        x as int,
    ).contains(v) by {
        if lists(s.push(x), v) {
            let i = choose|i: int| #![auto] 0 <= i < s.len() + 1 && s.push(x)[i] == v;
            if i < s.len() {
                assert(s[i] == v);
            }
        }
        if lists(s, v) {
            let i = choose|i: int| #![auto] 0 <= i < s.len() && s[i] == v;
            assert(s.push(x)[i] == v);
        }
        if v == x as int {
            assert(s.push(x)[s.len() as int] == x);
        }
    }
}

/// When every unlisted node keeps an edge from an unlisted node, no topological order exists.
pub proof fn lemma_stuck_means_cycle(adj: Seq<Seq<usize>>, done: Seq<usize>, ord: Seq<usize>)
    requires
        distinct_nodes(done, adj.len() as int),
        done.len() < adj.len(),
        forall|v: int|
            #![trigger lists(done, v)]
            0 <= v < adj.len() && !lists(done, v) ==> exists|u: int|
                #![trigger has_edge(adj, u, v)]
                has_edge(adj, u, v) && !lists(done, u),
    ensures
        !is_topological_order(adj, ord),
{
    if !is_topological_order(adj, ord) {
        return;
    }
    let n = adj.len() as int;
    let missing = lemma_short_list_misses(done, n);
    lemma_full_list_covers(ord, n, missing);
    let i0 = choose|i: int| #![auto] 0 <= i < ord.len() && ord[i] == missing;
    let first = lemma_first_open(ord, done, 0);
    let w = ord[first] as int;
    assert(!lists(done, w));
    let u = choose|u: int| #![trigger has_edge(adj, u, w)] has_edge(adj, u, w) && !lists(done, u);
    lemma_full_list_covers(ord, n, u);
    let j = choose|j: int| #![auto] 0 <= j < ord.len() && ord[j] == u;
    assert(has_edge(adj, ord[j] as int, ord[first] as int));
    assert(j < first);
    assert(lists(done, ord[j] as int));
}

/// The first position of `ord`, from `k` on, whose node is not in `done`.
pub proof fn lemma_first_open(ord: Seq<usize>, done: Seq<usize>, k: int) -> (first: int)
    requires
        0 <= k <= ord.len(),
        exists|i: int| k <= i < ord.len() && !lists(done, #[trigger] ord[i] as int),
    ensures
        k <= first < ord.len(),
        !lists(done, ord[first] as int),
        forall|i: int| k <= i < first ==> lists(done, #[trigger] ord[i] as int),
    decreases ord.len() - k,
{
    if !lists(done, ord[k] as int) {
        k
    } else {
        lemma_first_open(ord, done, k + 1)
    }
}

/// Processing the entries of `row` from position `k` on, in order: each
/// entry naming a node below `n` lowers that node's count by one, and a node
/// whose count reaches 0 joins the end of the queue.
pub open spec fn row_step(n: int, row: Seq<usize>, k: int, queue: Seq<usize>, deg: Seq<usize>) -> (Seq<usize>, Seq<usize>)
    decreases row.len() - k,
{
    if k < 0 || k >= row.len() {
        (queue, deg)
    } else {
        let v = row[k];
        if v < n {
            let d = (deg[v as int] - 1) as usize;
            row_step(n, row, k + 1, if d == 0 { queue.push(v) } else { queue }, deg.update(v as int, d))
        } else {
            row_step(n, row, k + 1, queue, deg)
        }
    }
}

/// Kahn's algorithm with a first-in first-out queue: from position `head`
/// on, each queued node in turn has its adjacency row processed
/// (`row_step`), for at most `fuel` nodes; gives the final queue.
pub open spec fn kahn_run(adj: Seq<Seq<usize>>, queue: Seq<usize>, head: int, deg: Seq<usize>, fuel: nat) -> Seq<usize>
    decreases fuel,
{
    if fuel == 0 || head < 0 || head >= queue.len() {
        queue
    } else {
        let next = row_step(adj.len() as int, adj[queue[head] as int], 0, queue, deg);
        kahn_run(adj, next.0, head + 1, next.1, (fuel - 1) as nat)
    }
}

/// The number of incoming edges of every node.
pub open spec fn initial_degrees(adj: Seq<Seq<usize>>) -> Seq<usize> {
    Seq::new(adj.len(), |v: int| in_degree(adj, v) as usize)
}

/// The order Kahn's algorithm emits the nodes in: the roots as given, then
/// each node as the last of its incoming edges is processed, first in first
/// out, rows in adjacency order.
pub open spec fn kahn_sequence(adj: Seq<Seq<usize>>, roots: Seq<usize>) -> Seq<usize> {
    kahn_run(adj, roots, 0, initial_degrees(adj), adj.len())
}

/// Kahn's algorithm over `adj`, starting from `roots` (distinct nodes without
/// incoming edges). Returns the nodes in the order they were emitted.
pub fn kahn_order(adj: &Vec<Vec<usize>>, roots: &Vec<usize>) -> (sorted: Vec<usize>)
    requires
        valid_roots(adj.deep_view(), roots@),
        edge_total(adj.deep_view(), adj.len() as int) <= usize::MAX,
    ensures
        distinct_nodes(sorted@, adj.len() as int),
        predecessors_first(adj.deep_view(), sorted@),
        forall|i: int| 0 <= i < roots.len() ==> sorted@.contains(roots[i]),
        roots.len() <= sorted.len() && sorted@.take(roots.len() as int) == roots@,
        sorted@ == kahn_sequence(adj.deep_view(), roots@),
        covers_sources(adj.deep_view(), roots@) && sorted.len() < adj.len() ==> !is_acyclic(
            adj.deep_view(),
        ),
{
    let ghost g = adj.deep_view();
    let n = adj.len();
    // Count incoming edges.
    let mut deg: Vec<usize> = Vec::new();
    let mut i: usize = 0;
    while i < n
        invariant
            i <= n,
            deg.len() == i,
            forall|v: int| 0 <= v < i ==> deg[v] == 0,
        decreases n - i,
    {
        deg.push(0);
        i = i + 1;
    }
    let mut u: usize = 0;
    while u < n
        invariant
            g == adj.deep_view(),
            n == adj.len(),
            u <= n,
            deg.len() == n,
            edge_total(g, n as int) <= usize::MAX,
            forall|v: int| 0 <= v < n ==> deg[v] == open_in_degree(g, Set::empty(), v, u as int),
        decreases n - u,
    {
        let row = &adj[u];
        let mut k: usize = 0;
        while k < row.len()
            invariant
                g == adj.deep_view(),
                n == adj.len(),
                u < n,
                row@ == g[u as int],
                k <= row.len(),
                deg.len() == n,
                edge_total(g, n as int) <= usize::MAX,
                forall|v: int|
                    0 <= v < n ==> deg[v] == open_in_degree(g, Set::empty(), v, u as int)
                        + occurrences(row@.take(k as int), v),
            decreases row.len() - k,
        {
            let v = row[k];
            proof {
                assert forall|w: int| 0 <= w < n implies deg[w] == open_in_degree(
                    g,
                    Set::empty(),
                    w,
                    u as int,
                ) + occurrences(row@.take(k as int), w) by {}
                lemma_occurrences_take_step(row@, k as int, v as int);
            }
            if v < n {
                proof {
                    lemma_occurrences_full(row@, v as int);
                    lemma_occurrences_bound(row@.take(k as int + 1), v as int);
                    assert(open_in_degree(g, Set::empty(), v as int, u as int + 1)
                        == open_in_degree(g, Set::empty(), v as int, u as int) + occurrences(
                        g[u as int],
                        v as int,
                    ));
                    lemma_open_in_degree_bound(g, Set::empty(), v as int, u as int + 1);
                    lemma_edge_total_monotone(g, u as int + 1, n as int);
                    // occurrences of the prefix are at most those of the whole row
                    lemma_occurrences_prefix_bound(row@, k as int + 1, v as int);
                }
                let d = deg[v];
                deg.set(v, d + 1);
            }
            proof {
                assert forall|w: int| 0 <= w < n implies deg[w] == open_in_degree(
                    g,
                    Set::empty(),
                    w,
                    u as int,
                ) + occurrences(row@.take(k as int + 1), w) by {
                    lemma_occurrences_take_step(row@, k as int, w);
                }
            }
            k = k + 1;
        }
        proof {
            assert forall|w: int| 0 <= w < n implies deg[w] == open_in_degree(
                g,
                Set::empty(),
                w,
                u as int + 1,
            ) by {
                lemma_occurrences_full(row@, w);
            }
        }
        u = u + 1;
    }
    // Process the queue; the emitted nodes are its prefix up to `head`.
    let mut queue: Vec<usize> = Vec::new();
    let mut r: usize = 0;
    while r < roots.len()
        invariant
            g == adj.deep_view(),
            n == adj.len(),
            deg.len() == n,
            valid_roots(g, roots@),
            r <= roots.len(),
            queue@ == roots@.take(r as int),
        decreases roots.len() - r,
    {
        queue.push(roots[r]);
        proof {
            assert(roots@.take(r as int + 1) =~= roots@.take(r as int).push(roots[r as int]));
        }
        r = r + 1;
    }
    proof {
        assert(queue@ =~= roots@);
        assert forall|j: int, w: int|
            0 <= j < queue.len() && #[trigger] has_edge(g, w, queue@[j] as int) implies exists|i: int|
            0 <= i < j && queue@[i] == w by {
            lemma_source_has_no_edge(g, w, queue@[j] as int);
        }
        assert forall|v: int| 0 <= v < n && deg[v] == 0 implies lists(queue@, v)
            || in_degree(g, v) == 0 by {}
        assert forall|v: int| 0 <= v < n && lists(queue@, v) implies deg[v] == 0 by {
            let j = choose|j: int| #![auto] 0 <= j < queue.len() && queue@[j] == v as usize;
        }
    }
    proof {
        assert(listed(queue@.take(0)) =~= Set::<int>::empty());
        lemma_distinct_len(queue@, n as int);
        assert(queue.len() == roots.len());
    }
    proof {
        assert(deg@ =~= initial_degrees(g));
    }
    let mut head: usize = 0;
    while head < queue.len()
        invariant
            g == adj.deep_view(),
            n == adj.len(),
            deg.len() == n,
            kahn_sequence(g, roots@) == kahn_run(g, queue@, head as int, deg@, (n - head) as nat),
            head <= queue.len(),
            queue.len() <= n,
            roots.len() <= queue.len(),
            valid_roots(g, roots@),
            roots@ == queue@.take(roots.len() as int),
            distinct_nodes(queue@, n as int),
            predecessors_first(g, queue@),
            forall|v: int|
                0 <= v < n ==> deg[v] == open_in_degree(
                    g,
                    listed(queue@.take(head as int)),
                    v,
                    n as int,
                ),
            forall|v: int| 0 <= v < n && lists(queue@, v) ==> deg[v] == 0,
            forall|v: int|
                0 <= v < n && deg[v] == 0 ==> lists(queue@, v) || in_degree(g, v) == 0,
        decreases n - head,
    {
        let cur = queue[head];
        let ghost before = listed(queue@.take(head as int));
        let ghost after = listed(queue@.take(head as int + 1));
        proof {
            assert(queue@.take(head as int + 1) =~= queue@.take(head as int).push(cur));
            lemma_listed_push(queue@.take(head as int), cur);
            assert(!before.contains(cur as int)) by {
                if before.contains(cur as int) {
                    let i = choose|i: int| #![auto] 0 <= i < head && queue@.take(head as int)[i] == cur;
                    assert(queue@[i] == queue@[head as int]);
                }
            }
            assert forall|v: int| 0 <= v < n && lists(queue@, v) implies occurrences(
                g[cur as int],
                v,
            ) == 0 by {
                if !before.contains(cur as int) {
                    lemma_open_in_degree_lower(g, before, cur as int, v, n as int);
                }
            }
            assert(after == before.insert(cur as int));
            assert forall|v: int| 0 <= v < n implies deg[v] == open_in_degree(g, after, v, n as int)
                + occurrences(g[cur as int], v) by {
                lemma_open_in_degree_mark(g, before, cur as int, v, n as int);
            }
        }
        let ghost q0 = queue@;
        let ghost d0 = deg@;
        proof {
            assert(kahn_run(g, q0, head as int, d0, (n - head) as nat) == kahn_run(
                g,
                row_step(n as int, g[cur as int], 0, q0, d0).0,
                head + 1,
                row_step(n as int, g[cur as int], 0, q0, d0).1,
                (n - head - 1) as nat,
            ));
        }
        head = head + 1;
        let row = &adj[cur];
        let mut k: usize = 0;
        proof {
            assert(row@ =~= g[cur as int]);
            assert(row@.take(0) =~= Seq::<usize>::empty());
            assert(occurrences(Seq::<usize>::empty(), 0) == 0);
            assert forall|v: int| occurrences(#[trigger] row@.take(0), v) == 0 by {}
        }
        while k < row.len()
            invariant
                g == adj.deep_view(),
                n == adj.len(),
                deg.len() == n,
                cur < n,
                row@ == g[cur as int],
                k <= row.len(),
                row_step(n as int, row@, 0, q0, d0) == row_step(n as int, row@, k as int, queue@, deg@),
                kahn_sequence(g, roots@) == kahn_run(g, row_step(n as int, row@, 0, q0, d0).0, head as int,
                    row_step(n as int, row@, 0, q0, d0).1, (n - head) as nat),
                1 <= head <= queue.len(),
                queue.len() <= n,
                roots.len() <= queue.len(),
                queue@[head - 1] == cur,
                after == listed(queue@.take(head as int)),
                valid_roots(g, roots@),
                roots@ == queue@.take(roots.len() as int),
                distinct_nodes(queue@, n as int),
                predecessors_first(g, queue@),
                forall|v: int|
                    0 <= v < n ==> deg[v] + occurrences(row@.take(k as int), v) == open_in_degree(
                        g,
                        after,
                        v,
                        n as int,
                    ) + occurrences(row@, v),
                forall|v: int|
                    0 <= v < n && lists(queue@, v) ==> deg[v] == 0
                        && occurrences(row@, v) == occurrences(row@.take(k as int), v),
                forall|v: int|
                    0 <= v < n && deg[v] == 0 ==> lists(queue@, v) || in_degree(g, v)
                        == 0,
            decreases row.len() - k,
        {
            let v = row[k];
            proof {
                lemma_occurrences_take_step(row@, k as int, v as int);
            }
            if v < n {
                proof {
                    lemma_occurrences_prefix_bound(row@, k as int + 1, v as int);
                }
                let d = deg[v];
                deg.set(v, d - 1);
                if d - 1 == 0 {
                    proof {
                        // every predecessor of v is already emitted
                        lemma_occurrences_prefix_bound(row@, k as int + 1, v as int);
                        assert(open_in_degree(g, after, v as int, n as int) == 0);
                        assert(!queue@.contains(v));
                        let old_q = queue@;
                        assert forall|w: int| #[trigger] has_edge(g, w, v as int) implies exists|i: int|
                            0 <= i < old_q.len() && old_q[i] == w by {
                            lemma_zero_open_in_degree(g, after, w, v as int);
                            let i = choose|i: int| #![auto]
                                0 <= i < head && queue@.take(head as int)[i] == w as usize;
                            assert(old_q[i] == w);
                        }
                    }
                    let ghost old_q = queue@;
                    queue.push(v);
                    proof {
                        assert(queue@.take(head as int) =~= old_q.take(head as int));
                        assert(queue@.take(roots.len() as int) =~= old_q.take(roots.len() as int));
                        assert forall|j: int, w: int|
                            0 <= j < queue.len() && #[trigger] has_edge(
                                g,
                                w,
                                queue@[j] as int,
                            ) implies exists|i: int| 0 <= i < j && queue@[i] == w by {
                            if j < old_q.len() {
                                assert(old_q[j] == queue@[j]);
                                let i = choose|i: int| #![auto] 0 <= i < j && old_q[i] == w;
                                assert(queue@[i] == w);
                            } else {
                                let i = choose|i: int| #![auto] 0 <= i < old_q.len() && old_q[i] == w;
                                assert(queue@[i] == w);
                            }
                        }
                        lemma_distinct_len(queue@, n as int);
                        assert(lists(queue@, v as int)) by {
                            assert(queue@[old_q.len() as int] == v);
                        }
                        assert forall|x: int| lists(old_q, x) implies #[trigger] lists(queue@, x) by {
                            let i = choose|i: int| #![auto] 0 <= i < old_q.len() && old_q[i] == x;
                            assert(queue@[i] == x);
                        }
                        assert forall|x: int| 0 <= x < n && lists(queue@, x) implies deg[x]
                            == 0 && occurrences(row@, x) == occurrences(
                            row@.take(k as int + 1),
                            x,
                        ) by {
                            if x != v as int {
                                let j = choose|j: int| #![auto]
                                    0 <= j < queue.len() && queue@[j] == x as usize;
assert(lists(old_q, x)) by {
                                    assert(old_q[j] == x as usize);
                                }
                                lemma_occurrences_take_step(row@, k as int, x);
                            } else {
                                lemma_occurrences_prefix_bound(row@, k as int + 1, x);
                            }
                        }
                    }
                }
            }
            proof {
                assert forall|x: int|
                    0 <= x < n implies deg[x] + occurrences(row@.take(k as int + 1), x)
                    == open_in_degree(g, after, x, n as int) + occurrences(row@, x) by {
                    lemma_occurrences_take_step(row@, k as int, x);
                }
                assert forall|x: int| 0 <= x < n && lists(queue@, x) implies deg[x] == 0
                    && occurrences(row@, x) == occurrences(row@.take(k as int + 1), x) by {
                    lemma_occurrences_take_step(row@, k as int, x);
                    if x == v as int && v < n {
                        lemma_occurrences_prefix_bound(row@, k as int + 1, x);
                    }
                }
            }
            k = k + 1;
        }
        proof {
            assert forall|x: int| 0 <= x < n implies deg[x] == open_in_degree(
                g,
                listed(queue@.take(head as int)),
                x,
                n as int,
            ) by {
                lemma_occurrences_full(row@, x);
            }
        }
    }
    proof {
        assert(queue@.take(head as int) =~= queue@);
        assert forall|i: int| 0 <= i < roots.len() implies queue@.contains(roots[i]) by {
            assert(queue@.take(roots.len() as int)[i] == roots[i]);
            assert(queue@[i] == roots[i]);
        }
        if covers_sources(g, roots@) && queue.len() < n && is_acyclic(g) {
            let ord = choose|ord: Seq<usize>| #![auto] is_topological_order(g, ord);
            assert forall|v: int|
                #![trigger lists(queue@, v)]
                0 <= v < g.len() && !lists(queue@, v) implies exists|w: int|
                #![trigger has_edge(g, w, v)]
                has_edge(g, w, v) && !lists(queue@, w) by {
                if in_degree(g, v) == 0 {
assert(lists(roots@, v));
                    let i = choose|i: int| #![auto] 0 <= i < roots.len() && roots@[i] == v as usize;
                    assert(queue@.contains(roots[i]));
                }
                assert(deg[v] > 0);
                lemma_open_in_degree_witness(g, listed(queue@), v, n as int);
                let w = choose|w: int|
                    0 <= w < n && !listed(queue@).contains(w) && #[trigger] occurrences(g[w], v)
                        > 0;
                lemma_occurrences_positive(g[w], v);
                assert(has_edge(g, w, v));
            }
            lemma_stuck_means_cycle(g, queue@, ord);
        }
    }
    queue
}

/// A prefix has no more occurrences than the whole sequence.
pub proof fn lemma_occurrences_prefix_bound(s: Seq<usize>, k: int, v: int)
    requires
        0 <= k <= s.len(),
    ensures
        occurrences(s.take(k), v) <= occurrences(s, v),
    decreases s.len() - k,
{
    if k < s.len() {
        lemma_occurrences_take_step(s, k, v);
        lemma_occurrences_prefix_bound(s, k + 1, v);
    } else {
        lemma_occurrences_full(s, v);
    }
}

} // verus!
