//! Reachability along wires: loop bodies and ancestors.

use vstd::prelude::*;
use vstd::set_lib::{lemma_int_range, lemma_len_subset, set_int_range};
use crate::graph::structure::{
    adjacency, build_adjacency, is_root_list, lemma_adjacency_edge_total, lemma_adjacency_edges,
    lemma_root_list_valid, topological_sort, wired, wires_wf, Wire,
};
use crate::graph::topo::{
    distinct_nodes, has_edge, is_acyclic, lemma_full_list_covers, lists, predecessors_first,
};

verus! {

/// `p` follows wires from its first node to its last.
pub open spec fn is_walk(wires: Seq<Wire>, p: Seq<int>) -> bool {
    &&& p.len() > 0
    &&& forall|k: int| 0 <= k < p.len() - 1 ==> #[trigger] wired(wires, p[k], p[k + 1])
}

/// Node `b` can be reached from node `a` by following zero or more wires.
pub open spec fn reaches(wires: Seq<Wire>, a: int, b: int) -> bool {
    exists|p: Seq<int>| #[trigger] is_walk(wires, p) && p[0] == a && p.last() == b
}

/// Wire `k` leaves node `start` (on output pin `pin`, when one is given).
pub open spec fn seed_wire(wires: Seq<Wire>, start: int, pin: Option<usize>, k: int) -> bool {
    &&& 0 <= k < wires.len()
    &&& wires[k].from == start
    &&& (pin matches Some(p) ==> wires[k].output == p)
}

/// Node `v` is reached from a wire leaving `start` (on pin `pin`, when given).
pub open spec fn reached_from(wires: Seq<Wire>, start: int, pin: Option<usize>, v: int) -> bool {
    exists|k: int| #[trigger] seed_wire(wires, start, pin, k) && reaches(wires, wires[k].to as int, v)
}

/// The wires turned around.
pub open spec fn reversed(wires: Seq<Wire>) -> Seq<Wire> {
    wires.map_values(|w: Wire| Wire { from: w.to, output: w.input, to: w.from, input: w.output })
}

/// Node `a` can reach node `x` over at least one wire.
pub open spec fn is_ancestor(wires: Seq<Wire>, x: int, a: int) -> bool {
    reached_from(reversed(wires), x, None, a)
}

/// Node `v` belongs to the body of loop node `l`: it is reached from the body
/// output (pin 1) but not from the next output (pin 0).
pub open spec fn in_loop_body(wires: Seq<Wire>, l: int, v: int) -> bool {
    reached_from(wires, l, Some(1usize), v) && !reached_from(wires, l, Some(0usize), v)
}

pub proof fn lemma_walk_extend(wires: Seq<Wire>, a: int, u: int, v: int)
    requires
        reaches(wires, a, u),
        wired(wires, u, v),
    ensures
        reaches(wires, a, v),
{
    let p = choose|p: Seq<int>| #[trigger] is_walk(wires, p) && p[0] == a && p.last() == u;
    let q = p.push(v);
    assert forall|k: int| 0 <= k < q.len() - 1 implies #[trigger] wired(wires, q[k], q[k + 1]) by {
        if k < p.len() - 1 {
            assert(q[k] == p[k] && q[k + 1] == p[k + 1]);
        } else {
            assert(q[k] == u && q[k + 1] == v);
        }
    }
    assert(is_walk(wires, q));
}

pub proof fn lemma_reaches_self(wires: Seq<Wire>, a: int)
    ensures
        reaches(wires, a, a),
{
    let p = seq![a];
    assert(is_walk(wires, p));
}

/// A wire-closed set containing the start of a walk contains its end.
pub proof fn lemma_closed_contains_walk(wires: Seq<Wire>, marks: Seq<bool>, p: Seq<int>, i: int)
    requires
        is_walk(wires, p),
        0 <= i < p.len(),
        0 <= p[0] < marks.len(),
        marks[p[0]],
        forall|u: int, v: int|
            0 <= u < marks.len() && marks[u] && #[trigger] wired(wires, u, v) ==> 0 <= v < marks.len()
                && marks[v],
    ensures
        0 <= p[i] < marks.len() && marks[p[i]],
    decreases i,
{
    if i > 0 {
        lemma_closed_contains_walk(wires, marks, p, i - 1);
        let k = i - 1;
        assert(wired(wires, p[k], p[k + 1]));
    }
}

/// Mark every node reached from a wire leaving `start` (on output pin `pin`,
/// when given): `marks[v]` tells whether `v` is reached.
pub fn reach_marks(n: usize, wires: &Vec<Wire>, start: usize, pin: Option<usize>) -> (marks: Vec<bool>)
    requires
        wires_wf(wires@, n as int),
    ensures
        marks.len() == n,
        forall|v: int| 0 <= v < n ==> marks[v] == reached_from(wires@, start as int, pin, v),
{
    let ghost ws = wires@;
    let mut marks: Vec<bool> = Vec::new();
    let mut done: Vec<bool> = Vec::new();
    let mut i: usize = 0;
    while i < n
        invariant
            i <= n,
            marks.len() == i,
            done.len() == i,
            forall|v: int| 0 <= v < i ==> !marks[v] && !done[v],
        decreases n - i,
    {
        marks.push(false);
        done.push(false);
        i = i + 1;
    }
    let mut stack: Vec<usize> = Vec::new();
    let ghost mut seen: Set<int> = Set::empty();
    // Seed with the targets of the start node's wires.
    let mut k: usize = 0;
    while k < wires.len()
        invariant
            ws == wires@,
            wires_wf(ws, n as int),
            k <= wires.len(),
            marks.len() == n,
            done.len() == n,
            forall|v: int| 0 <= v < n ==> !done[v],
            forall|v: int| 0 <= v < n ==> (marks[v] <==> seen.contains(v)),
            forall|v: int| seen.contains(v) ==> 0 <= v < n,
            forall|v: int| 0 <= v < n && marks[v] ==> reached_from(ws, start as int, pin, v),
            forall|j: int| 0 <= j < k && #[trigger] seed_wire(ws, start as int, pin, j) ==> marks[ws[j].to as int],
            forall|j: int| 0 <= j < stack.len() ==> stack[j] < n && marks[stack[j] as int],
            forall|v: int| 0 <= v < n && marks[v] ==> (done[v] || stack@.contains(v as usize)),
            stack@.no_duplicates(),
            stack.len() == seen.len(),
            seen.finite(),
        decreases wires.len() - k,
    {
        let w = wires[k];
        let selected = w.from == start && match pin {
            Some(p) => w.output == p,
            None => true,
        };
        if selected && !marks[w.to] {
            proof {
                assert(seed_wire(ws, start as int, pin, k as int));
                lemma_reaches_self(ws, w.to as int);
                seen = seen.insert(w.to as int);
            }
            marks.set(w.to, true);
            let ghost old_stack = stack@;
            stack.push(w.to);
            proof {
                assert(!old_stack.contains(w.to)) by {
                    if old_stack.contains(w.to) {
                        let i = choose|i: int| 0 <= i < old_stack.len() && old_stack[i] == w.to;
                    }
                }
                assert(stack@.no_duplicates()) by {
                    assert forall|a: int, b: int| 0 <= a < stack.len() && 0 <= b < stack.len() && a != b implies stack@[a] != stack@[b] by {
                        if a < old_stack.len() && b < old_stack.len() {
                            assert(old_stack[a] != old_stack[b]);
                        } else if a < old_stack.len() {
                            assert(old_stack.contains(old_stack[a]));
                        } else if b < old_stack.len() {
                            assert(old_stack.contains(old_stack[b]));
                        }
                    }
                }
                assert forall|v: int| 0 <= v < n && marks[v] implies (done[v] || stack@.contains(
                    v as usize,
                )) by {
                    if v == w.to as int {
                        assert(stack@[old_stack.len() as int] == w.to);
                    } else {
                        let i = choose|i: int| 0 <= i < old_stack.len() && old_stack[i] == v as usize;
                        assert(stack@[i] == v as usize);
                    }
                }
            }
        }
        k = k + 1;
    }
    let ghost mut processed: nat = 0;
    proof {
        lemma_seen_bound(seen, n as int);
    }
    while stack.len() > 0
        invariant
            ws == wires@,
            wires_wf(ws, n as int),
            marks.len() == n,
            done.len() == n,
            forall|v: int| 0 <= v < n ==> (marks[v] <==> seen.contains(v)),
            forall|v: int| seen.contains(v) ==> 0 <= v < n,
            seen.finite(),
            processed + stack.len() == seen.len(),
            seen.len() <= n,
            forall|v: int| 0 <= v < n && marks[v] ==> reached_from(ws, start as int, pin, v),
            forall|j: int| 0 <= j < ws.len() && #[trigger] seed_wire(ws, start as int, pin, j) ==> marks[ws[j].to as int],
            forall|j: int| 0 <= j < stack.len() ==> stack[j] < n && marks[stack[j] as int] && !done[stack[j] as int],
            forall|v: int| 0 <= v < n && marks[v] ==> (done[v] || stack@.contains(v as usize)),
            stack@.no_duplicates(),
            forall|v: int| 0 <= v < n && done[v] ==> marks[v],
            forall|u: int, v: int|
                0 <= u < n && done[u] && #[trigger] wired(ws, u, v) ==> 0 <= v < n && marks[v],
        decreases n - processed,
    {
        let ghost before_pop = stack@;
        let u = stack.pop().unwrap();
        proof {
            assert(before_pop =~= stack@.push(u));
            assert(!stack@.contains(u)) by {
                if stack@.contains(u) {
                    let i = choose|i: int| 0 <= i < stack.len() && stack@[i] == u;
                    assert(before_pop[i] == before_pop[before_pop.len() - 1]);
                }
            }
            assert forall|v: int| 0 <= v < n && marks[v] implies (done[v] || v == u || stack@.contains(v as usize)) by {
                if !done[v] && v != u {
                    let i = choose|i: int| 0 <= i < before_pop.len() && before_pop[i] == v as usize;
                    assert(i < stack.len());
                    assert(stack@[i] == v as usize);
                }
            }
        }
        let mut j: usize = 0;
        while j < wires.len()
            invariant
                ws == wires@,
                wires_wf(ws, n as int),
                u < n,
                marks[u as int],
                j <= wires.len(),
                marks.len() == n,
                done.len() == n,
                forall|v: int| 0 <= v < n ==> (marks[v] <==> seen.contains(v)),
                forall|v: int| seen.contains(v) ==> 0 <= v < n,
                seen.finite(),
                processed + 1 + stack.len() == seen.len(),
                seen.len() <= n,
                forall|v: int| 0 <= v < n && marks[v] ==> reached_from(ws, start as int, pin, v),
                forall|q: int| 0 <= q < ws.len() && #[trigger] seed_wire(ws, start as int, pin, q) ==> marks[ws[q].to as int],
                forall|q: int| 0 <= q < stack.len() ==> stack[q] < n && marks[stack[q] as int] && !done[stack[q] as int],
                forall|v: int| 0 <= v < n && marks[v] ==> (done[v] || v == u || stack@.contains(v as usize)),
                stack@.no_duplicates(),
                !stack@.contains(u),
                forall|v: int| 0 <= v < n && done[v] ==> marks[v],
                forall|a: int, v: int|
                    0 <= a < n && done[a] && #[trigger] wired(ws, a, v) ==> 0 <= v < n && marks[v],
                forall|q: int| 0 <= q < j && ws[q].from == u ==> marks[#[trigger] ws[q].to as int],
                !done[u as int],
            decreases wires.len() - j,
        {
            let w = wires[j];
            if w.from == u && !marks[w.to] {
                proof {
                    assert(wired(ws, u as int, w.to as int));
                    let q = choose|q: int| #[trigger] seed_wire(ws, start as int, pin, q) && reaches(ws, ws[q].to as int, u as int);
                    lemma_walk_extend(ws, ws[q].to as int, u as int, w.to as int);
                    seen = seen.insert(w.to as int);
                    lemma_seen_bound(seen, n as int);
                }
                marks.set(w.to, true);
                let ghost old_stack = stack@;
                stack.push(w.to);
                proof {
                    assert(!old_stack.contains(w.to)) by {
                        if old_stack.contains(w.to) {
                            let i = choose|i: int| 0 <= i < old_stack.len() && old_stack[i] == w.to;
                        }
                    }
                    assert(stack@.no_duplicates()) by {
                        assert forall|a: int, b: int| 0 <= a < stack.len() && 0 <= b < stack.len() && a != b implies stack@[a] != stack@[b] by {
                            if a < old_stack.len() && b < old_stack.len() {
                                assert(old_stack[a] != old_stack[b]);
                            } else if a < old_stack.len() {
                                assert(old_stack.contains(old_stack[a]));
                            } else if b < old_stack.len() {
                                assert(old_stack.contains(old_stack[b]));
                            }
                        }
                    }
                    assert(!stack@.contains(u)) by {
                        if stack@.contains(u) {
                            let i = choose|i: int| 0 <= i < stack.len() && stack@[i] == u;
                            if i < old_stack.len() {
                                assert(old_stack.contains(u));
                            }
                        }
                    }
                    assert forall|v: int| 0 <= v < n && marks[v] implies (done[v] || v == u || stack@.contains(v as usize)) by {
                        if v == w.to as int {
                            assert(stack@[old_stack.len() as int] == w.to);
                        } else if !done[v] && v != u && old_stack.contains(v as usize) {
                            let i = choose|i: int| 0 <= i < old_stack.len() && old_stack[i] == v as usize;
                            assert(stack@[i] == v as usize);
                        }
                    }
                }
            }
            j = j + 1;
        }
        let ghost old_stack = stack@;
        done.set(u, true);
        proof {
            processed = processed + 1;
            assert forall|a: int, v: int|
                0 <= a < n && done[a] && #[trigger] wired(ws, a, v) implies 0 <= v < n && marks[v] by {
                if a == u as int {
                    let q = choose|q: int| 0 <= q < ws.len() && #[trigger] ws[q].from == a && ws[q].to == v;
                    assert(marks[ws[q].to as int]);
                }
            }
        }
    }
    proof {
        assert forall|v: int| 0 <= v < n implies marks[v] == reached_from(ws, start as int, pin, v) by {
            if reached_from(ws, start as int, pin, v) {
                let q = choose|q: int| #[trigger] seed_wire(ws, start as int, pin, q) && reaches(ws, ws[q].to as int, v);
                let p = choose|p: Seq<int>| #[trigger] is_walk(ws, p) && p[0] == ws[q].to as int && p.last() == v;
                assert(ws[q].to < n);
                lemma_closed_contains_walk(ws, marks@, p, p.len() - 1);
            }
        }
    }
    marks
}

/// A set of nodes below `n` has at most `n` members.
pub proof fn lemma_seen_bound(seen: Set<int>, n: int)
    requires
        0 <= n,
        forall|v: int| seen.contains(v) ==> 0 <= v < n,
    ensures
        seen.finite(),
        seen.len() <= n,
{
    lemma_int_range(0, n);
    assert(seen.subset_of(set_int_range(0, n)));
    lemma_len_subset(seen, set_int_range(0, n));
}

/// Turn every wire around.
pub fn reversed_wires(wires: &Vec<Wire>) -> (r: Vec<Wire>)
    ensures
        r@ == reversed(wires@),
{
    let mut r: Vec<Wire> = Vec::new();
    let mut k: usize = 0;
    while k < wires.len()
        invariant
            k <= wires.len(),
            r@ == reversed(wires@.take(k as int)),
        decreases wires.len() - k,
    {
        let w = wires[k];
        r.push(Wire { from: w.to, output: w.input, to: w.from, input: w.output });
        proof {
            assert(reversed(wires@.take(k as int + 1)) =~= reversed(wires@.take(k as int)).push(
                Wire { from: w.to, output: w.input, to: w.from, input: w.output },
            ));
        }
        k = k + 1;
    }
    proof {
        assert(wires@.take(wires.len() as int) =~= wires@);
    }
    r
}

/// Nodes that can reach `node` over at least one wire, as membership flags.
pub fn find_ancestors(n: usize, wires: &Vec<Wire>, node: usize) -> (marks: Vec<bool>)
    requires
        wires_wf(wires@, n as int),
    ensures
        marks.len() == n,
        forall|v: int| 0 <= v < n ==> marks[v] == is_ancestor(wires@, node as int, v),
{
    let back = reversed_wires(wires);
    proof {
        assert forall|k: int| 0 <= k < back@.len() implies #[trigger] back@[k].from < n && back@[k].to < n by {
            assert(back@[k].from == wires@[k].to);
        }
    }
    reach_marks(n, &back, node, None)
}

/// Membership flags of the body of loop node `l`.
pub open spec fn body_members(wires: Seq<Wire>, n: int, l: int) -> Seq<bool> {
    Seq::new(n as nat, |v: int| in_loop_body(wires, l, v))
}

/// The wires whose two ends are both members.
pub open spec fn inner_wires(wires: Seq<Wire>, member: Seq<bool>) -> Seq<Wire>
    decreases wires.len(),
{
    if wires.len() == 0 {
        Seq::empty()
    } else {
        let rest = inner_wires(wires.drop_last(), member);
        let w = wires.last();
        if member[w.from as int] && member[w.to as int] {
            rest.push(w)
        } else {
            rest
        }
    }
}

pub proof fn lemma_inner_wires(wires: Seq<Wire>, member: Seq<bool>, n: int)
    requires
        wires_wf(wires, n),
        member.len() == n,
    ensures
        wires_wf(inner_wires(wires, member), n),
        forall|k: int| 0 <= k < inner_wires(wires, member).len() ==> #[trigger] member[inner_wires(wires, member)[k].from as int]
            && member[inner_wires(wires, member)[k].to as int],
        inner_wires(wires, member).len() <= wires.len(),
    decreases wires.len(),
{
    if wires.len() > 0 {
        let w = wires.drop_last();
        assert(wires_wf(w, n)) by {
            assert forall|k: int| 0 <= k < w.len() implies #[trigger] w[k].from < n && w[k].to < n by {
                assert(w[k] == wires[k]);
            }
        }
        lemma_inner_wires(w, member, n);
        assert(wires[wires.len() - 1].from < n);
        let r = inner_wires(wires, member);
        let rest = inner_wires(w, member);
        assert forall|k: int| 0 <= k < r.len() implies #[trigger] r[k].from < n && r[k].to < n by {
            if k < rest.len() {
                assert(r[k] == rest[k]);
            }
        }
    }
}

/// Keep the wires whose two ends are both members.
pub fn keep_inner_wires(wires: &Vec<Wire>, member: &Vec<bool>) -> (r: Vec<Wire>)
    requires
        wires_wf(wires@, member.len() as int),
    ensures
        r@ == inner_wires(wires@, member@),
{
    let mut r: Vec<Wire> = Vec::new();
    let mut k: usize = 0;
    while k < wires.len()
        invariant
            k <= wires.len(),
            wires_wf(wires@, member.len() as int),
            r@ == inner_wires(wires@.take(k as int), member@),
        decreases wires.len() - k,
    {
        let w = wires[k];
        proof {
            assert(wires@.take(k as int + 1).drop_last() =~= wires@.take(k as int));
            assert(wires@[k as int].from < member.len());
        }
        if member[w.from] && member[w.to] {
            r.push(w);
        }
        k = k + 1;
    }
    proof {
        assert(wires@.take(wires.len() as int) =~= wires@);
    }
    r
}

/// The nodes of loop node `l`'s body, each once. When the wires among body
/// nodes form no cycle the nodes come in dependency order; otherwise in
/// increasing position.
pub fn find_loop_body_nodes(n: usize, wires: &Vec<Wire>, l: usize) -> (body: Vec<usize>)
    requires
        wires_wf(wires@, n as int),
    ensures
        distinct_nodes(body@, n as int),
        forall|v: int| 0 <= v < n ==> (lists(body@, v) <==> in_loop_body(wires@, l as int, v)),
        is_acyclic(adjacency(inner_wires(wires@, body_members(wires@, n as int, l as int)), n as int))
            ==> predecessors_first(
            adjacency(inner_wires(wires@, body_members(wires@, n as int, l as int)), n as int),
            body@,
        ),
        !is_acyclic(adjacency(inner_wires(wires@, body_members(wires@, n as int, l as int)), n as int))
            ==> forall|i: int, j: int| 0 <= i < j < body.len() ==> body[i] < body[j],
{
    let ghost ws = wires@;
    let from_body = reach_marks(n, wires, l, Some(1));
    let from_next = reach_marks(n, wires, l, Some(0));
    let mut member: Vec<bool> = Vec::new();
    let mut plain: Vec<usize> = Vec::new();
    let mut v: usize = 0;
    while v < n
        invariant
            v <= n,
            from_body.len() == n,
            from_next.len() == n,
            forall|x: int| 0 <= x < n ==> from_body[x] == reached_from(ws, l as int, Some(1usize), x),
            forall|x: int| 0 <= x < n ==> from_next[x] == reached_from(ws, l as int, Some(0usize), x),
            member.len() == v,
            forall|x: int| 0 <= x < v ==> member[x] == in_loop_body(ws, l as int, x),
            forall|i: int| 0 <= i < plain.len() ==> plain[i] < v && member[plain[i] as int],
            forall|i: int, j: int| 0 <= i < j < plain.len() ==> plain[i] < plain[j],
            forall|x: int| 0 <= x < v && member[x] ==> #[trigger] lists(plain@, x),
        decreases n - v,
    {
        let m = from_body[v] && !from_next[v];
        member.push(m);
        if m {
            let ghost old_plain = plain@;
            plain.push(v);
            proof {
                assert forall|x: int| 0 <= x < v + 1 && member[x] implies #[trigger] lists(plain@, x) by {
                    if x < v {
                        assert(lists(old_plain, x));
                        let i = choose|i: int| #![auto] 0 <= i < old_plain.len() && old_plain[i] == x;
                        assert(plain@[i] == x);
                    } else {
                        assert(plain@[old_plain.len() as int] == x);
                    }
                }
            }
        }
        v = v + 1;
    }
    let ghost mem = member@;
    proof {
        assert(mem =~= body_members(ws, n as int, l as int));
        assert(plain@.no_duplicates()) by {
            assert forall|i: int, j: int| 0 <= i < plain.len() && 0 <= j < plain.len() && i != j implies plain[i] != plain[j] by {
                if i < j {
                    assert(plain[i] < plain[j]);
                } else {
                    assert(plain[j] < plain[i]);
                }
            }
        }
        assert forall|x: int| 0 <= x < n implies (lists(plain@, x) <==> in_loop_body(ws, l as int, x)) by {
            if lists(plain@, x) {
                let i = choose|i: int| #![auto] 0 <= i < plain.len() && plain[i] == x;
                assert(member[plain[i] as int]);
            }
            if in_loop_body(ws, l as int, x) {
                assert(member[x]);
            }
        }
    }
    let inner = keep_inner_wires(wires, &member);
    proof {
        lemma_inner_wires(ws, mem, n as int);
    }
    let (adj, roots) = match build_adjacency(n, &inner) {
        Ok(p) => p,
        Err(_) => {
            return plain;
        },
    };
    proof {
        lemma_root_list_valid(inner@, n as int, roots@);
        lemma_adjacency_edge_total(inner@, n as int);
        assert(inner@.len() == inner.len());
    }
    let sorted = match topological_sort(&adj, &roots, n) {
        Ok(s) => s,
        Err(_) => {
            return plain;
        },
    };
    let ghost inner_adj = adj.deep_view();
    // Keep the body nodes, in sorted order.
    let mut body: Vec<usize> = Vec::new();
    let mut i: usize = 0;
    while i < sorted.len()
        invariant
            i <= sorted.len(),
            sorted.len() == n,
            member.len() == n,
            member@ == mem,
            inner_adj == adjacency(inner@, n as int),
            inner@ == inner_wires(ws, mem),
            wires_wf(inner@, n as int),
            forall|k: int| 0 <= k < inner@.len() ==> #[trigger] mem[inner@[k].from as int] && mem[inner@[k].to as int],
            distinct_nodes(sorted@, n as int),
            predecessors_first(inner_adj, sorted@),
            forall|j: int| 0 <= j < body.len() ==> body[j] < n && mem[body[j] as int],
            forall|j: int| 0 <= j < body.len() ==> exists|q: int| 0 <= q < i && sorted[q] == #[trigger] body[j],
            body@.no_duplicates(),
            forall|q: int| 0 <= q < i && mem[sorted[q] as int] ==> #[trigger] lists(body@, sorted[q] as int),
            predecessors_first(inner_adj, body@),
        decreases sorted.len() - i,
    {
        let x = sorted[i];
        if member[x] {
            let ghost old_body = body@;
            proof {
                assert(!old_body.contains(x)) by {
                    if old_body.contains(x) {
                        let j = choose|j: int| 0 <= j < old_body.len() && old_body[j] == x;
                        let q = choose|q: int| 0 <= q < i && sorted[q] == #[trigger] old_body[j];
                        assert(sorted@[q] == sorted@[i as int]);
                    }
                }
            }
            body.push(x);
            proof {
                assert(body@.no_duplicates()) by {
                    assert forall|a: int, b: int| 0 <= a < body.len() && 0 <= b < body.len() && a != b implies body@[a] != body@[b] by {
                        if a < old_body.len() && b < old_body.len() {
                            assert(old_body[a] != old_body[b]);
                        } else if a < old_body.len() {
                            assert(old_body.contains(old_body[a]));
                        } else if b < old_body.len() {
                            assert(old_body.contains(old_body[b]));
                        }
                    }
                }
                assert forall|j: int| 0 <= j < body.len() implies exists|q: int| 0 <= q < i + 1 && sorted[q] == #[trigger] body[j] by {
                    if j < old_body.len() {
                        assert(body[j] == old_body[j]);
                    } else {
                        assert(sorted[i as int] == body[j]);
                    }
                }
                assert forall|q: int| 0 <= q < i + 1 && mem[sorted[q] as int] implies #[trigger] lists(body@, sorted[q] as int) by {
                    if q < i {
                        assert(lists(old_body, sorted[q] as int));
                        let j = choose|j: int| #![auto] 0 <= j < old_body.len() && old_body[j] == sorted[q];
                        assert(body@[j] == sorted[q]);
                    } else {
                        assert(body@[old_body.len() as int] == sorted[q]);
                    }
                }
                assert forall|j: int, u: int| 0 <= j < body.len() && #[trigger] has_edge(inner_adj, u, body@[j] as int) implies exists|a: int| 0 <= a < j && body@[a] == u by {
                    if j < old_body.len() {
                        assert(body@[j] == old_body[j]);
                        let a = choose|a: int| 0 <= a < j && old_body[a] == u;
                        assert(body@[a] == u);
                    } else {
                        assert(has_edge(inner_adj, u, sorted@[i as int] as int));
                        let q = choose|q: int| 0 <= q < i && sorted@[q] == u;
                        lemma_adjacency_edges(inner@, n as int, u, x as int);
                        let k = choose|k: int| 0 <= k < inner@.len() && #[trigger] inner@[k].from == u && inner@[k].to == x;
                        assert(mem[inner@[k].from as int]);
                        assert(lists(old_body, sorted[q] as int));
                        let a = choose|a: int| #![auto] 0 <= a < old_body.len() && old_body[a] == sorted[q];
                        assert(body@[a] == u);
                    }
                }
            }
        }
        i = i + 1;
    }
    proof {
        assert forall|x: int| 0 <= x < n implies (lists(body@, x) <==> in_loop_body(ws, l as int, x)) by {
            if lists(body@, x) {
                let j = choose|j: int| #![auto] 0 <= j < body.len() && body[j] == x;
                assert(mem[body[j] as int]);
            }
            if in_loop_body(ws, l as int, x) {
                lemma_full_list_covers(sorted@, n as int, x);
                let q = choose|q: int| #![auto] 0 <= q < sorted.len() && sorted[q] == x;
                assert(mem[sorted[q] as int]);
            }
        }
    }
    body
}

} // verus!
