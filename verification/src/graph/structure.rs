//! The wiring of an experiment graph: adjacency lists, root nodes, topological
//! sorting and cycle detection.

use vstd::prelude::*;
use crate::graph::nodes::ExperimentNode;
use crate::graph::topo::{
    covers_sources, distinct_nodes, edge_total, has_edge, in_degree, is_acyclic,
    is_topological_order, kahn_order, kahn_sequence, lemma_distinct_len, lemma_occurrences_positive,
    lemma_open_in_degree_witness, lemma_source_has_no_edge, lists, occurrences,
    predecessors_first, valid_roots,
};

verus! {

/// A connection from output pin `output` of node `from` to input pin `input`
/// of node `to`. Nodes are given by their position in the graph's node list.
#[derive(Clone, Copy, Debug, PartialEq, Eq)]
pub struct Wire {
    pub from: usize,
    pub output: usize,
    pub to: usize,
    pub input: usize,
}

/// Every wire joins two nodes of a graph with `n` nodes.
pub open spec fn wires_wf(wires: Seq<Wire>, n: int) -> bool {
    forall|k: int| 0 <= k < wires.len() ==> #[trigger] wires[k].from < n && wires[k].to < n
}

/// Targets of the wires leaving node `i`, in wire order.
pub open spec fn out_list(wires: Seq<Wire>, i: int) -> Seq<usize>
    decreases wires.len(),
{
    if wires.len() == 0 {
        Seq::empty()
    } else {
        let rest = out_list(wires.drop_last(), i);
        if wires.last().from == i {
            rest.push(wires.last().to)
        } else {
            rest
        }
    }
}

/// The adjacency lists of a graph with `n` nodes and the given wires.
pub open spec fn adjacency(wires: Seq<Wire>, n: int) -> Seq<Seq<usize>> {
    Seq::new(n as nat, |i: int| out_list(wires, i))
}

/// Some wire leads from node `u` to node `v`.
pub open spec fn wired(wires: Seq<Wire>, u: int, v: int) -> bool {
    exists|k: int| 0 <= k < wires.len() && #[trigger] wires[k].from == u && wires[k].to == v
}

/// Some wire ends at node `v`.
pub open spec fn has_input(wires: Seq<Wire>, v: int) -> bool {
    exists|k: int| 0 <= k < wires.len() && #[trigger] wires[k].to == v
}

/// The nodes without incoming wires, in increasing order.
pub open spec fn is_root_list(wires: Seq<Wire>, n: int, roots: Seq<usize>) -> bool {
    &&& forall|i: int| 0 <= i < roots.len() ==> roots[i] < n && !has_input(wires, roots[i] as int)
    &&& forall|i: int, j: int| 0 <= i < j < roots.len() ==> roots[i] < roots[j]
    &&& forall|v: int| 0 <= v < n && !has_input(wires, v) ==> #[trigger] lists(roots, v)
}

/// `ord` is the order in which a graph's nodes are taken: Kahn's order
/// (first in, first out, rows in adjacency order) from the graph's root
/// list, the nodes without inputs in ascending order.
pub open spec fn is_kahn_order(g: GraphModel, ord: Seq<usize>) -> bool {
    exists|roots: Seq<usize>|
        #[trigger] is_root_list(g.wires@, g.nodes.len() as int, roots) && ord == kahn_sequence(g.adj(), roots)
}

proof fn lemma_root_lists_agree_upto(wires: Seq<Wire>, n: int, a: Seq<usize>, b: Seq<usize>, i: int)
    requires
        is_root_list(wires, n, a),
        is_root_list(wires, n, b),
        0 <= i <= a.len(),
        i <= b.len(),
    ensures
        forall|j: int| 0 <= j < i ==> a[j] == b[j],
    decreases i,
{
    if i > 0 {
        lemma_root_lists_agree_upto(wires, n, a, b, i - 1);
        let k = i - 1;
        if a[k] != b[k] {
            assert(lists(b, a[k] as int));
            let jb = choose|j: int| 0 <= j < b.len() && b[j] == a[k];
            assert(lists(a, b[k] as int));
            let ja = choose|j: int| 0 <= j < a.len() && a[j] == b[k];
            if a[k] < b[k] {
                if jb < k {
                    assert(b[jb] == a[jb]);
                } else if jb > k {
                    assert(b[k] < b[jb]);
                }
            } else {
                if ja < k {
                    assert(a[ja] == b[ja]);
                } else if ja > k {
                    assert(a[k] < a[ja]);
                }
            }
        }
    }
}

/// A graph has one root list: the nodes without inputs, in ascending order.
pub proof fn lemma_root_list_unique(wires: Seq<Wire>, n: int, a: Seq<usize>, b: Seq<usize>)
    requires
        is_root_list(wires, n, a),
        is_root_list(wires, n, b),
    ensures
        a == b,
{
    if a.len() <= b.len() {
        lemma_root_lists_agree_upto(wires, n, a, b, a.len() as int);
        if a.len() < b.len() {
            let x = b[a.len() as int];
            assert(lists(a, x as int));
            let j = choose|j: int| 0 <= j < a.len() && a[j] == x;
            assert(b[j] == a[j]);
            assert(b[j] < b[a.len() as int]);
        }
    } else {
        lemma_root_lists_agree_upto(wires, n, a, b, b.len() as int);
        let x = a[b.len() as int];
        assert(lists(b, x as int));
        let j = choose|j: int| 0 <= j < b.len() && b[j] == x;
        assert(a[j] == b[j]);
        assert(a[j] < a[b.len() as int]);
    }
    assert(a =~= b);
}

pub proof fn lemma_out_list_edge(wires: Seq<Wire>, u: int, v: int)
    ensures
        (exists|k: int| 0 <= k < out_list(wires, u).len() && out_list(wires, u)[k] == v) <==> wired(
            wires,
            u,
            v,
        ),
    decreases wires.len(),
{
    if wires.len() > 0 {
        let w = wires.drop_last();
        lemma_out_list_edge(w, u, v);
        let rest = out_list(w, u);
        let s = out_list(wires, u);
        if exists|k: int| 0 <= k < s.len() && s[k] == v {
            let k = choose|k: int| 0 <= k < s.len() && s[k] == v;
            if k < rest.len() {
                assert(rest[k] == v);
                let j = choose|j: int| 0 <= j < w.len() && #[trigger] w[j].from == u && w[j].to == v;
                assert(wires[j] == w[j]);
            } else {
                assert(wires[wires.len() - 1].from == u);
            }
        }
        if wired(wires, u, v) {
            let j = choose|j: int| 0 <= j < wires.len() && #[trigger] wires[j].from == u && wires[j].to
                == v;
            if j < wires.len() - 1 {
                assert(w[j] == wires[j]);
                let k = choose|k: int| 0 <= k < rest.len() && rest[k] == v;
                assert(s[k] == v);
            } else {
                assert(s[rest.len() as int] == v);
            }
        }
    }
}

/// Edges of the adjacency lists are exactly the wires.
pub proof fn lemma_adjacency_edges(wires: Seq<Wire>, n: int, u: int, v: int)
    requires
        0 <= n,
        wires_wf(wires, n),
    ensures
        has_edge(adjacency(wires, n), u, v) <==> wired(wires, u, v),
{
    lemma_out_list_edge(wires, u, v);
    let adj = adjacency(wires, n);
    if wired(wires, u, v) {
        let j = choose|j: int| 0 <= j < wires.len() && #[trigger] wires[j].from == u && wires[j].to == v;
        assert(wires[j].from < n);
        assert(adj[u] == out_list(wires, u));
    }
    if has_edge(adj, u, v) {
        assert(adj[u] == out_list(wires, u));
    }
}

/// A node has zero in-degree exactly when no wire ends at it.
pub proof fn lemma_adjacency_sources(wires: Seq<Wire>, n: int, v: int)
    requires
        0 <= n,
        wires_wf(wires, n),
    ensures
        in_degree(adjacency(wires, n), v) == 0 <==> !has_input(wires, v),
{
    let adj = adjacency(wires, n);
    if in_degree(adj, v) > 0 {
        lemma_open_in_degree_witness(adj, Set::empty(), v, n);
        let u = choose|u: int| 0 <= u < n && !Set::<int>::empty().contains(u) && #[trigger] occurrences(adj[u], v) > 0;
        lemma_occurrences_positive(adj[u], v);
        lemma_adjacency_edges(wires, n, u, v);
        let j = choose|j: int| 0 <= j < wires.len() && #[trigger] wires[j].from == u && wires[j].to == v;
        assert(wires[j].to == v);
    }
    if has_input(wires, v) {
        let j = choose|j: int| 0 <= j < wires.len() && #[trigger] wires[j].to == v;
        let u = wires[j].from as int;
        assert(wired(wires, u, v));
        lemma_adjacency_edges(wires, n, u, v);
        if in_degree(adj, v) == 0 {
            lemma_source_has_no_edge(adj, u, v);
        }
    }
}

/// The number of listed edges is the number of wires.
pub proof fn lemma_adjacency_edge_total(wires: Seq<Wire>, n: int)
    requires
        0 <= n,
        wires_wf(wires, n),
    ensures
        edge_total(adjacency(wires, n), n) == wires.len(),
    decreases wires.len(),
{
    if wires.len() > 0 {
        let w = wires.drop_last();
        assert(wires_wf(w, n)) by {
            assert forall|k: int| 0 <= k < w.len() implies #[trigger] w[k].from < n && w[k].to < n by {
                assert(w[k] == wires[k]);
            }
        }
        lemma_adjacency_edge_total(w, n);
        let f = wires.last().from as int;
        assert(wires[wires.len() - 1].from < n);
        assert forall|i: int| 0 <= i < n && i != f implies adjacency(w, n)[i] == adjacency(wires, n)[i] by {
            assert(out_list(wires, i) == out_list(w, i));
        }
        assert(out_list(wires, f) == out_list(w, f).push(wires.last().to));
        assert(adjacency(wires, n)[f] == out_list(wires, f));
        assert(adjacency(w, n)[f] == out_list(w, f));
        lemma_edge_total_bump(adjacency(w, n), adjacency(wires, n), f, n);
    } else {
        lemma_edge_total_empty(adjacency(wires, n), n);
    }
}

pub proof fn lemma_edge_total_empty(a: Seq<Seq<usize>>, upto: int)
    requires
        upto <= a.len(),
        forall|i: int| 0 <= i < upto ==> #[trigger] a[i].len() == 0,
    ensures
        edge_total(a, upto) == 0,
    decreases upto,
{
    if upto > 0 {
        lemma_edge_total_empty(a, upto - 1);
    }
}

/// Growing one list by one element grows the total by one.
pub proof fn lemma_edge_total_bump(a: Seq<Seq<usize>>, b: Seq<Seq<usize>>, f: int, upto: int)
    requires
        0 <= f,
        a.len() == b.len(),
        upto <= a.len(),
        forall|i: int| 0 <= i < a.len() && i != f ==> a[i] == b[i],
        f < a.len() ==> b[f].len() == a[f].len() + 1,
    ensures
        edge_total(b, upto) == edge_total(a, upto) + (if f < upto {
            1nat
        } else {
            0nat
        }),
    decreases upto,
{
    if upto > 0 {
        lemma_edge_total_bump(a, b, f, upto - 1);
    }
}

/// Errors that can occur when turning a graph into a plan.
#[derive(Debug, Clone, PartialEq, Eq)]
pub enum TranslationError {
    /// The graph contains a cycle.
    CycleDetected,
    /// A node has an invalid configuration.
    InvalidNode { node_id: usize, reason: String },
    /// The graph has no nodes.
    EmptyGraph,
    /// Every node has an input, so there is no place to start.
    NoRootNodes,
}

/// Build the adjacency lists (targets of each node's wires, in wire order)
/// and the list of root nodes (nodes no wire ends at), for a graph with `n`
/// nodes.
pub fn build_adjacency(n: usize, wires: &Vec<Wire>) -> (result: Result<(Vec<Vec<usize>>, Vec<usize>), TranslationError>)
    requires
        wires_wf(wires@, n as int),
    ensures
        result is Ok,
        result matches Ok((adj, roots)) ==> adj.deep_view() == adjacency(wires@, n as int)
            && is_root_list(wires@, n as int, roots@),
{
    let mut adj: Vec<Vec<usize>> = Vec::new();
    let mut i: usize = 0;
    while i < n
        invariant
            i <= n,
            adj.len() == i,
            forall|j: int| 0 <= j < i ==> (#[trigger] adj[j])@ == out_list(wires@, j),
        decreases n - i,
    {
        let mut row: Vec<usize> = Vec::new();
        let mut k: usize = 0;
        while k < wires.len()
            invariant
                k <= wires.len(),
                row@ == out_list(wires@.take(k as int), i as int),
            decreases wires.len() - k,
        {
            proof {
                assert(wires@.take(k as int + 1).drop_last() =~= wires@.take(k as int));
            }
            if wires[k].from == i {
                row.push(wires[k].to);
            }
            k = k + 1;
        }
        proof {
            assert(wires@.take(wires.len() as int) =~= wires@);
        }
        adj.push(row);
        i = i + 1;
    }
    let mut inputs: Vec<bool> = Vec::new();
    let mut v: usize = 0;
    while v < n
        invariant
            v <= n,
            inputs.len() == v,
            forall|j: int| 0 <= j < v ==> inputs[j] == has_input(wires@, j),
        decreases n - v,
    {
        let mut found = false;
        let mut k: usize = 0;
        while k < wires.len()
            invariant
                k <= wires.len(),
                found == has_input(wires@.take(k as int), v as int),
            decreases wires.len() - k,
        {
            proof {
                let t = wires@.take(k as int + 1);
                if has_input(wires@.take(k as int), v as int) {
                    let q = choose|q: int| 0 <= q < k && #[trigger] wires@.take(k as int)[q].to == v;
                    assert(t[q].to == v);
                }
                if has_input(t, v as int) {
                    let q = choose|q: int| 0 <= q < k + 1 && #[trigger] t[q].to == v;
                    if q < k {
                        assert(wires@.take(k as int)[q].to == v);
                    }
                }
                if wires[k as int].to == v {
                    assert(t[k as int].to == v);
                }
            }
            if wires[k].to == v {
                found = true;
            }
            k = k + 1;
        }
        proof {
            assert(wires@.take(wires.len() as int) =~= wires@);
        }
        inputs.push(found);
        v = v + 1;
    }
    proof {
        assert(adj.deep_view() =~= adjacency(wires@, n as int)) by {
            assert forall|j: int| 0 <= j < n implies adj.deep_view()[j] == adjacency(wires@, n as int)[j] by {
                assert(adj.deep_view()[j] =~= adj[j]@);
            }
        }
    }
    let mut roots: Vec<usize> = Vec::new();
    v = 0;
    while v < n
        invariant
            v <= n,
            inputs.len() == n,
            forall|j: int| 0 <= j < n ==> inputs[j] == has_input(wires@, j),
            forall|i: int| 0 <= i < roots.len() ==> roots[i] < v && !has_input(wires@, roots[i] as int),
            forall|i: int, j: int| 0 <= i < j < roots.len() ==> roots[i] < roots[j],
            forall|u: int| 0 <= u < v && !has_input(wires@, u) ==> #[trigger] lists(roots@, u),
        decreases n - v,
    {
        if !inputs[v] {
            let ghost old_roots = roots@;
            roots.push(v);
            proof {
                assert forall|u: int| 0 <= u < v + 1 && !has_input(wires@, u) implies #[trigger] lists(
                    roots@,
                    u,
                ) by {
                    if u < v {
                        assert(lists(old_roots, u));
                        let i = choose|i: int| #![auto] 0 <= i < old_roots.len() && old_roots[i] == u;
                        assert(roots@[i] == u);
                    } else {
                        assert(roots@[old_roots.len() as int] == u);
                    }
                }
            }
        }
        v = v + 1;
    }
    Ok((adj, roots))
}

/// A node of the graph: its editor identifier and its settings.
#[derive(Clone, Debug)]
pub struct GraphNode {
    pub id: usize,
    pub node: ExperimentNode,
}

/// An experiment graph: nodes in editor order, and the wires between them
/// (wire ends are positions in `nodes`).
#[derive(Clone, Debug)]
pub struct GraphModel {
    pub nodes: Vec<GraphNode>,
    pub wires: Vec<Wire>,
}

impl GraphModel {
    /// Every wire joins two nodes of the graph.
    pub open spec fn wf(&self) -> bool {
        wires_wf(self.wires@, self.nodes.len() as int)
    }

    /// The adjacency lists of the graph.
    pub open spec fn adj(&self) -> Seq<Seq<usize>> {
        adjacency(self.wires@, self.nodes.len() as int)
    }

    /// The graph admits a topological order of its nodes.
    pub open spec fn acyclic(&self) -> bool {
        is_acyclic(self.adj())
    }
}

/// A full duplicate-free list in which predecessors come first is a topological order.
pub proof fn lemma_full_list_is_order(adj: Seq<Seq<usize>>, s: Seq<usize>)
    requires
        distinct_nodes(s, adj.len() as int),
        s.len() == adj.len(),
        predecessors_first(adj, s),
    ensures
        is_topological_order(adj, s),
{
    assert forall|i: int, j: int|
        0 <= i < s.len() && 0 <= j < s.len() && #[trigger] has_edge(
            adj,
            s[i] as int,
            s[j] as int,
        ) implies i < j by {
        let k = choose|k: int| 0 <= k < j && s[k] == s[i] as int;
        assert(s[k] == s[i]);
    }
}

/// An acyclic graph with nodes has a node without incoming edges.
pub proof fn lemma_acyclic_has_source(adj: Seq<Seq<usize>>) -> (v: int)
    requires
        is_acyclic(adj),
        adj.len() > 0,
    ensures
        0 <= v < adj.len(),
        in_degree(adj, v) == 0,
{
    let ord = choose|ord: Seq<usize>| is_topological_order(adj, ord);
    let v = ord[0] as int;
    if in_degree(adj, v) > 0 {
        lemma_open_in_degree_witness(adj, Set::empty(), v, adj.len() as int);
        let u = choose|u: int|
            0 <= u < adj.len() && !Set::<int>::empty().contains(u) && #[trigger] occurrences(
                adj[u],
                v,
            ) > 0;
        lemma_occurrences_positive(adj[u], v);
        crate::graph::topo::lemma_full_list_covers(ord, adj.len() as int, u);
        let i = choose|i: int| 0 <= i < ord.len() && ord[i] == u;
        assert(has_edge(adj, ord[i] as int, ord[0] as int));
    }
    v
}

/// Root lists built from the wires are valid starting points that cover every source.
pub proof fn lemma_root_list_valid(wires: Seq<Wire>, n: int, roots: Seq<usize>)
    requires
        0 <= n,
        wires_wf(wires, n),
        is_root_list(wires, n, roots),
    ensures
        valid_roots(adjacency(wires, n), roots),
        covers_sources(adjacency(wires, n), roots),
{
    assert(roots.no_duplicates()) by {
        assert forall|i: int, j: int| 0 <= i < roots.len() && 0 <= j < roots.len() && i != j implies roots[i] != roots[j] by {
            if i < j {
                assert(roots[i] < roots[j]);
            } else {
                assert(roots[j] < roots[i]);
            }
        }
    }
    assert forall|i: int| 0 <= i < roots.len() implies in_degree(adjacency(wires, n), roots[i] as int) == 0 by {
        lemma_adjacency_sources(wires, n, roots[i] as int);
    }
    assert forall|v: int| 0 <= v < n && in_degree(adjacency(wires, n), v) == 0 implies #[trigger] lists(roots, v) by {
        lemma_adjacency_sources(wires, n, v);
    }
}

/// Topologically sort the nodes of an adjacency list, starting from `roots`
/// (distinct nodes without incoming edges), breadth first: the order begins
/// with the roots as given. Fails with
/// `CycleDetected` when the number of nodes reached is not `total_nodes`.
pub fn topological_sort(adjacency: &Vec<Vec<usize>>, roots: &Vec<usize>, total_nodes: usize) -> (result: Result<Vec<usize>, TranslationError>)
    requires
        valid_roots(adjacency.deep_view(), roots@),
        edge_total(adjacency.deep_view(), adjacency.len() as int) <= usize::MAX,
    ensures
        match result {
            Ok(sorted) => {
                &&& sorted.len() == total_nodes
                &&& distinct_nodes(sorted@, adjacency.len() as int)
                &&& predecessors_first(adjacency.deep_view(), sorted@)
                &&& forall|i: int| 0 <= i < roots.len() ==> sorted@.contains(roots[i])
                &&& roots.len() <= sorted.len() && sorted@.take(roots.len() as int) == roots@
                &&& sorted@ == kahn_sequence(adjacency.deep_view(), roots@)
            },
            Err(e) => e == TranslationError::CycleDetected,
        },
        total_nodes == adjacency.len() && covers_sources(adjacency.deep_view(), roots@) ==> (
        result is Ok <==> is_acyclic(adjacency.deep_view())),
        total_nodes == adjacency.len() ==> (result matches Ok(sorted) ==> is_topological_order(
            adjacency.deep_view(),
            sorted@,
        )),
{
    let sorted = kahn_order(adjacency, roots);
    proof {
        lemma_distinct_len(sorted@, adjacency.len() as int);
        if sorted.len() == adjacency.len() {
            lemma_full_list_is_order(adjacency.deep_view(), sorted@);
        }
    }
    if sorted.len() != total_nodes {
        return Err(TranslationError::CycleDetected);
    }
    Ok(sorted)
}

/// Graph-level result of a structure check.
pub open spec fn structure_verdict(g: GraphModel) -> Option<Seq<char>> {
    if g.nodes.len() == 0 {
        None
    } else if forall|v: int| 0 <= v < g.nodes.len() ==> has_input(g.wires@, v) {
        Some("No root nodes - graph may contain cycles"@)
    } else if g.acyclic() {
        None
    } else {
        Some("Graph contains a cycle"@)
    }
}

/// Validate the whole graph structure. An empty graph is valid; otherwise the
/// graph needs a node without inputs and must not contain a cycle.
pub fn validate_graph_structure(g: &GraphModel) -> (r: Option<String>)
    requires
        g.wf(),
    ensures
        r matches Some(m) ==> structure_verdict(*g) == Some(m@),
        r is None ==> structure_verdict(*g) is None,
        r is None <==> g.nodes.len() == 0 || g.acyclic(),
{
    let n = g.nodes.len();
    if n == 0 {
        return None;
    }
    let (adj, roots) = match build_adjacency(n, &g.wires) {
        Ok(p) => p,
        Err(_) => {
            return Some(String::from_str("Graph contains a cycle"));
        },
    };
    proof {
        lemma_root_list_valid(g.wires@, n as int, roots@);
        lemma_adjacency_edge_total(g.wires@, n as int);
        assert(g.wires@.len() == g.wires.len());
        assert(adj.len() == n);
    }
    if roots.len() == 0 {
        proof {
            assert forall|v: int| 0 <= v < n implies has_input(g.wires@, v) by {
                if !has_input(g.wires@, v) {
                    assert(lists(roots@, v));
                }
            }
            if g.acyclic() {
                let s = lemma_acyclic_has_source(g.adj());
                lemma_adjacency_sources(g.wires@, n as int, s);
            }
        }
        return Some(String::from_str("No root nodes - graph may contain cycles"));
    }
    proof {
        assert(!has_input(g.wires@, roots[0] as int));
    }
    match topological_sort(&adj, &roots, n) {
        Ok(_) => None,
        Err(_) => Some(String::from_str("Graph contains a cycle")),
    }
}

/// Outcome of cycle detection.
pub open spec fn cycle_report(g: GraphModel) -> Option<Seq<char>> {
    if g.nodes.len() == 0 {
        None
    } else if forall|v: int| 0 <= v < g.nodes.len() ==> has_input(g.wires@, v) {
        Some("All nodes have inputs - possible cycle"@)
    } else if g.acyclic() {
        None
    } else {
        Some("Graph contains a cycle"@)
    }
}

/// Detect cycles before translation: `None` when the graph can be ordered.
pub fn detect_cycles(g: &GraphModel) -> (r: Option<String>)
    requires
        g.wf(),
    ensures
        r matches Some(m) ==> cycle_report(*g) == Some(m@),
        r is None ==> cycle_report(*g) is None,
        r is None <==> g.nodes.len() == 0 || g.acyclic(),
{
    let n = g.nodes.len();
    if n == 0 {
        return None;
    }
    let (adj, roots) = match build_adjacency(n, &g.wires) {
        Ok(p) => p,
        Err(_) => {
            return Some(String::from_str("Graph contains a cycle"));
        },
    };
    proof {
        lemma_root_list_valid(g.wires@, n as int, roots@);
        lemma_adjacency_edge_total(g.wires@, n as int);
        assert(g.wires@.len() == g.wires.len());
        assert(adj.len() == n);
    }
    if roots.len() == 0 {
        proof {
            assert forall|v: int| 0 <= v < n implies has_input(g.wires@, v) by {
                if !has_input(g.wires@, v) {
                    assert(lists(roots@, v));
                }
            }
            if g.acyclic() {
                let s = lemma_acyclic_has_source(g.adj());
                lemma_adjacency_sources(g.wires@, n as int, s);
            }
        }
        return Some(String::from_str("All nodes have inputs - possible cycle"));
    }
    proof {
        assert(!has_input(g.wires@, roots[0] as int));
    }
    match topological_sort(&adj, &roots, n) {
        Ok(_) => None,
        Err(_) => Some(String::from_str("Graph contains a cycle")),
    }
}

/// How a translation error reads.
pub open spec fn translation_error_text(e: TranslationError) -> Seq<char> {
    match e {
        TranslationError::CycleDetected => "Graph contains a cycle"@,
        TranslationError::InvalidNode { node_id, reason } => "Invalid node "@ + crate::graph::validation::node_id_text(
            node_id as nat,
        ) + ": "@ + reason@,
        TranslationError::EmptyGraph => "Graph is empty"@,
        TranslationError::NoRootNodes => "No root nodes found"@,
    }
}

impl TranslationError {
    /// The error as text.
    pub fn message(&self) -> (r: String)
        ensures
            r@ == translation_error_text(*self),
    {
        match self {
            TranslationError::CycleDetected => String::from_str("Graph contains a cycle"),
            TranslationError::InvalidNode { node_id, reason } => {
                let mut m = String::from_str("Invalid node NodeId(");
                crate::text::push_decimal(&mut m, *node_id as u64);
                crate::text::push_str(&mut m, "): ");
                crate::text::push_str(&mut m, reason.as_str());
                proof {
                    reveal_strlit("Invalid node NodeId(");
                    reveal_strlit("Invalid node ");
                    reveal_strlit("NodeId(");
                    reveal_strlit(")");
                    reveal_strlit("): ");
                    reveal_strlit(": ");
                    assert(m@ =~= translation_error_text(*self));
                }
                m
            },
            TranslationError::EmptyGraph => String::from_str("Graph is empty"),
            TranslationError::NoRootNodes => String::from_str("No root nodes found"),
        }
    }
}

} // verus!
