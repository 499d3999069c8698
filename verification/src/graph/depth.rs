//! Nesting depth of loop bodies.
//!
//! Translation and script export unroll loop bodies recursively, with an
//! allowance (`fuel`) that shrinks at each level. On an acyclic graph every
//! walk is shorter than the number of nodes, and a loop's body lies further
//! down a walk than the loop itself, so an allowance of one unit per node is
//! never exhausted: any larger allowance gives the same result.

use vstd::prelude::*;
use crate::graph::codegen::{body_code, node_code, ScriptToken};
use crate::graph::plan::{bodies_ok, body_tr, has_body, is_body_listing, kind_tr, node_tr};
use crate::graph::reach::{in_loop_body, is_walk, reached_from, reaches, seed_wire};
use crate::graph::structure::{adjacency, lemma_adjacency_edges, wired, wires_wf, GraphModel, Wire};
use crate::graph::topo::{distinct_nodes, is_topological_order, lemma_full_list_covers, lists};
use crate::graph::nodes::ExperimentNode;

verus! {

/// Every walk that starts at node `i` has at most `d` wires.
pub open spec fn walk_bounded(wires: Seq<Wire>, i: int, d: nat) -> bool {
    forall|p: Seq<int>| #[trigger] is_walk(wires, p) && p[0] == i ==> p.len() <= d + 1
}

/// Position of node `v` in a topological order.
spec fn position_in(ord: Seq<usize>, v: int) -> int {
    choose|j: int| 0 <= j < ord.len() && ord[j] == v
}

/// Along a walk that starts at a node, the `k`-th node sits at position `k`
/// or later in a topological order.
proof fn lemma_walk_positions(wires: Seq<Wire>, n: int, ord: Seq<usize>, p: Seq<int>, k: int)
    requires
        wires_wf(wires, n),
        is_topological_order(adjacency(wires, n), ord),
        ord.len() == n,
        is_walk(wires, p),
        0 <= p[0] < n,
        0 <= k < p.len(),
    ensures
        0 <= p[k] < n,
        0 <= position_in(ord, p[k]) < n,
        ord[position_in(ord, p[k])] == p[k],
        position_in(ord, p[k]) >= k,
    decreases k,
{
    let adj = adjacency(wires, n);
    assert(distinct_nodes(ord, n));
    if k == 0 {
        lemma_full_list_covers(ord, n, p[0]);
    } else {
        lemma_walk_positions(wires, n, ord, p, k - 1);
        assert(wired(wires, p[k - 1], p[k - 1 + 1]));
        let w = choose|w: int| 0 <= w < wires.len() && #[trigger] wires[w].from == p[k - 1] && wires[w].to == p[k];
        assert(wires[w].to < n);
        lemma_full_list_covers(ord, n, p[k]);
        let a = position_in(ord, p[k - 1]);
        let b = position_in(ord, p[k]);
        lemma_adjacency_edges(wires, n, p[k - 1], p[k]);
        assert(crate::graph::topo::has_edge(adj, ord[a] as int, ord[b] as int));
    }
}

/// On an acyclic graph with `n` nodes, a walk from a node has fewer than `n` wires.
pub proof fn lemma_walks_are_short(wires: Seq<Wire>, n: int, i: int)
    requires
        wires_wf(wires, n),
        crate::graph::topo::is_acyclic(adjacency(wires, n)),
        0 <= i < n,
    ensures
        walk_bounded(wires, i, (n - 1) as nat),
{
    let adj = adjacency(wires, n);
    let ord = choose|ord: Seq<usize>| is_topological_order(adj, ord);
    assert forall|p: Seq<int>| #[trigger] is_walk(wires, p) && p[0] == i implies p.len() <= n by {
        lemma_walk_positions(wires, n, ord, p, p.len() - 1);
    }
}

/// A node of loop `l`'s body lies at least one wire further down every walk:
/// if walks from `l` have at most `d` wires, walks from `v` have at most `d - 1`.
pub proof fn lemma_body_walks_shorter(wires: Seq<Wire>, l: int, v: int, d: nat)
    requires
        walk_bounded(wires, l, d),
        in_loop_body(wires, l, v),
    ensures
        d >= 1,
        walk_bounded(wires, v, (d - 1) as nat),
{
    let k = choose|k: int| #[trigger] seed_wire(wires, l, Some(1usize), k) && reaches(wires, wires[k].to as int, v);
    let w = wires[k].to as int;
    let q = choose|q: Seq<int>| #[trigger] is_walk(wires, q) && q[0] == w && q.last() == v;
    assert(wired(wires, l, w));
    let lw = seq![l, w];
    assert(is_walk(wires, lw)) by {
        assert forall|j: int| 0 <= j < lw.len() - 1 implies #[trigger] wired(wires, lw[j], lw[j + 1]) by {
            assert(j == 0);
        }
    }
    assert(lw.len() <= d + 1);
    assert forall|p: Seq<int>| #[trigger] is_walk(wires, p) && p[0] == v implies p.len() <= d by {
        let full = seq![l] + q + p.skip(1);
        assert(full.len() == 1 + q.len() + p.len() - 1);
        assert forall|j: int| 0 <= j < full.len() - 1 implies #[trigger] wired(wires, full[j], full[j + 1]) by {
            if j == 0 {
                assert(full[0] == l && full[1] == q[0]);
            } else if j < q.len() {
                assert(full[j] == q[j - 1] && full[j + 1] == q[j]);
                assert(wired(wires, q[j - 1], q[j - 1 + 1]));
            } else {
                let t = j - q.len();
                assert(full[j] == if t == 0 { q.last() } else { p[t] });
                if t == 0 {
                    assert(full[j + 1] == p[1]);
                    assert(wired(wires, p[0], p[1]));
                } else {
                    assert(full[j] == p[t] && full[j + 1] == p[t + 1]);
                }
            }
        }
        assert(is_walk(wires, full));
        assert(full[0] == l);
    }
}

/// The nodes a body listing names are nodes of the body.
proof fn lemma_listed_in_body(g: GraphModel, bodies: Seq<Seq<usize>>, l: int, j: int)
    requires
        bodies_ok(g, bodies),
        0 <= l < g.nodes.len(),
        has_body(g.nodes@[l].node),
        0 <= j < bodies[l].len(),
    ensures
        bodies[l][j] < g.nodes.len(),
        in_loop_body(g.wires@, l, bodies[l][j] as int),
{
    assert(is_body_listing(g.wires@, g.nodes.len() as int, l, bodies[l]));
    assert(lists(bodies[l], bodies[l][j] as int));
}

proof fn lemma_kind_tr_fuel(g: GraphModel, bodies: Seq<Seq<usize>>, i: int, d: nat, f1: nat, f2: nat)
    requires
        bodies_ok(g, bodies),
        0 <= i < g.nodes.len(),
        walk_bounded(g.wires@, i, d),
        f1 > d,
        f2 > d,
    ensures
        kind_tr(g, bodies, i, f1) == kind_tr(g, bodies, i, f2),
    decreases d, 0int, 0int,
{
    if has_body(g.nodes@[i].node) {
        let body = bodies[i];
        if body.len() > 0 {
            lemma_listed_in_body(g, bodies, i, 0);
            lemma_body_walks_shorter(g.wires@, i, body[0] as int, d);
            assert forall|j: int| 0 <= j < body.len() implies #[trigger] body[j] < g.nodes.len() && walk_bounded(
                g.wires@,
                body[j] as int,
                (d - 1) as nat,
            ) by {
                lemma_listed_in_body(g, bodies, i, j);
                lemma_body_walks_shorter(g.wires@, i, body[j] as int, d);
            }
            lemma_body_tr_fuel(g, bodies, body, (d - 1) as nat, (f1 - 1) as nat, (f2 - 1) as nat);
        } else {
            assert(body_tr(g, bodies, body, (f1 - 1) as nat) == body_tr(g, bodies, body, (f2 - 1) as nat));
        }
    }
}

proof fn lemma_body_tr_fuel(g: GraphModel, bodies: Seq<Seq<usize>>, body: Seq<usize>, d: nat, f1: nat, f2: nat)
    requires
        bodies_ok(g, bodies),
        forall|j: int| 0 <= j < body.len() ==> #[trigger] body[j] < g.nodes.len() && walk_bounded(g.wires@, body[j] as int, d),
        f1 > d,
        f2 > d,
    ensures
        body_tr(g, bodies, body, f1) == body_tr(g, bodies, body, f2),
    decreases d, 1int, body.len(),
{
    if body.len() > 0 {
        let rest = body.drop_last();
        assert forall|j: int| 0 <= j < rest.len() implies #[trigger] rest[j] < g.nodes.len() && walk_bounded(
            g.wires@,
            rest[j] as int,
            d,
        ) by {
            assert(rest[j] == body[j]);
        }
        lemma_body_tr_fuel(g, bodies, rest, d, f1, f2);
        assert(body.last() == body[body.len() - 1]);
        let last = body.last() as int;
        lemma_kind_tr_fuel(g, bodies, last, d, f1, f2);
        assert(node_tr(g, bodies, last, f1) == node_tr(g, bodies, last, f2));
        assert(body_tr(g, bodies, body, f1) == crate::graph::plan::tr_cat(body_tr(g, bodies, rest, f1), node_tr(g, bodies, last, f1)));
        assert(body_tr(g, bodies, body, f2) == crate::graph::plan::tr_cat(body_tr(g, bodies, rest, f2), node_tr(g, bodies, last, f2)));
    }
}

/// On an acyclic graph, the translation of a node with one unit of fuel per
/// node is complete: any larger allowance translates it the same way.
pub proof fn lemma_translation_fuel_suffices(g: GraphModel, bodies: Seq<Seq<usize>>, i: int, fuel: nat)
    requires
        g.wf(),
        g.acyclic(),
        bodies_ok(g, bodies),
        0 <= i < g.nodes.len(),
        fuel >= g.nodes.len(),
    ensures
        node_tr(g, bodies, i, fuel) == node_tr(g, bodies, i, g.nodes.len() as nat),
{
    let n = g.nodes.len() as int;
    lemma_walks_are_short(g.wires@, n, i);
    lemma_kind_tr_fuel(g, bodies, i, (n - 1) as nat, fuel, n as nat);
}

proof fn lemma_node_code_fuel(a: Seq<ScriptToken>, g: GraphModel, bodies: Seq<Seq<usize>>, i: int, indent: nat, d: nat, f1: nat, f2: nat)
    requires
        bodies_ok(g, bodies),
        0 <= i < g.nodes.len(),
        walk_bounded(g.wires@, i, d),
        f1 > d,
        f2 > d,
    ensures
        node_code(a, g, bodies, i, indent, f1) == node_code(a, g, bodies, i, indent, f2),
    decreases d, 0int, 0int,
{
    if g.nodes@[i].node is Loop {
        assert(has_body(g.nodes@[i].node));
        let body = bodies[i];
        if body.len() > 0 {
            lemma_listed_in_body(g, bodies, i, 0);
            lemma_body_walks_shorter(g.wires@, i, body[0] as int, d);
            assert forall|j: int| 0 <= j < body.len() implies #[trigger] body[j] < g.nodes.len() && walk_bounded(
                g.wires@,
                body[j] as int,
                (d - 1) as nat,
            ) by {
                lemma_listed_in_body(g, bodies, i, j);
                lemma_body_walks_shorter(g.wires@, i, body[j] as int, d);
            }
            let c = g.nodes@[i].node->Loop_0;
            let a1 = crate::graph::codegen::loop_header(a, c.termination, crate::graph::codegen::txt(crate::graph::codegen::indent_text(indent)));
            lemma_body_code_fuel(a1, g, bodies, body, body.len() as int, indent + 1, (d - 1) as nat, (f1 - 1) as nat, (f2 - 1) as nat);
        }
    }
}

proof fn lemma_body_code_fuel(a: Seq<ScriptToken>, g: GraphModel, bodies: Seq<Seq<usize>>, body: Seq<usize>, k: int, indent: nat, d: nat, f1: nat, f2: nat)
    requires
        bodies_ok(g, bodies),
        k <= body.len(),
        forall|j: int| 0 <= j < body.len() ==> #[trigger] body[j] < g.nodes.len() && walk_bounded(g.wires@, body[j] as int, d),
        f1 > d,
        f2 > d,
    ensures
        body_code(a, g, bodies, body, k, indent, f1) == body_code(a, g, bodies, body, k, indent, f2),
    decreases d, 1int, k,
{
    if k > 0 {
        lemma_body_code_fuel(a, g, bodies, body, k - 1, indent, d, f1, f2);
        lemma_node_code_fuel(body_code(a, g, bodies, body, k - 1, indent, f1), g, bodies, body[k - 1] as int, indent, d, f1, f2);
    }
}

/// On an acyclic graph, the script of a node written with one unit of fuel
/// per node is complete: any larger allowance writes it the same way.
pub proof fn lemma_script_fuel_suffices(a: Seq<ScriptToken>, g: GraphModel, bodies: Seq<Seq<usize>>, i: int, indent: nat, fuel: nat)
    requires
        g.wf(),
        g.acyclic(),
        bodies_ok(g, bodies),
        0 <= i < g.nodes.len(),
        fuel >= g.nodes.len(),
    ensures
        node_code(a, g, bodies, i, indent, fuel) == node_code(a, g, bodies, i, indent, g.nodes.len() as nat),
{
    let n = g.nodes.len() as int;
    lemma_walks_are_short(g.wires@, n, i);
    lemma_node_code_fuel(a, g, bodies, i, indent, (n - 1) as nat, fuel, n as nat);
}

} // verus!
