//! Execution state of a running graph: scan progress over nested dimensions,
//! which node is running, which have completed.

use vstd::prelude::*;
use std::collections::HashSet;
use crate::graph::validation::node_id_text;
use crate::graph::plan::tagged;
use crate::text::{
    all_digits, chars_of, decimal, digits_value, find_chars, find_first, find_from, has_prefix,
    lemma_decimal_digits, matches_at, parse_usize, parsed_usize, push_decimal, push_str, starts_with,
    string_of, subrange_chars,
};

verus! {

broadcast use vstd::std_specs::hash::group_hash_axioms;

/// Progress within one scan dimension.
#[derive(Debug)]
pub struct DimensionProgress {
    /// Dimension name, such as "wavelength" or "position".
    pub name: String,
    /// Index within the dimension, counted from 0.
    pub current: u32,
    /// Number of points in the dimension.
    pub total: u32,
}

/// "name current/total", with `current` shown counted from 1.
pub open spec fn dimension_text(name: Seq<char>, current: nat, total: nat) -> Seq<char> {
    name + " "@ + decimal(current + 1) + "/"@ + decimal(total)
}

impl DimensionProgress {
    pub fn new(name: &str, current: u32, total: u32) -> (r: DimensionProgress)
        ensures
            r.name@ == name@,
            r.current == current,
            r.total == total,
    {
        DimensionProgress { name: string_of(name), current, total }
    }

    /// A copy with the same name and counters.
    pub fn duplicate(&self) -> (r: DimensionProgress)
        ensures
            r.name@ == self.name@,
            r.current == self.current,
            r.total == self.total,
    {
        DimensionProgress { name: self.name.clone(), current: self.current, total: self.total }
    }

    /// Format as "name current/total", counting from 1.
    pub fn format(&self) -> (r: String)
        requires
            self.current < u32::MAX,
        ensures
            r@ == dimension_text(self.name@, self.current as nat, self.total as nat),
    {
        let mut r = self.name.clone();
        push_str(&mut r, " ");
        push_decimal(&mut r, self.current as u64 + 1);
        push_str(&mut r, "/");
        push_decimal(&mut r, self.total as u64);
        proof {
            reveal_strlit(" ");
            reveal_strlit("/");
        }
        r
    }
}

/// Product of the totals of the first `k` dimensions.
pub open spec fn prefix_product(dims: Seq<DimensionProgress>, k: int) -> nat
    decreases k,
{
    if k <= 0 {
        1
    } else {
        prefix_product(dims, k - 1) * (dims[k - 1].total as nat)
    }
}

/// The products formed while multiplying the totals in order all fit in a `u32`.
pub open spec fn product_fits(dims: Seq<DimensionProgress>) -> bool {
    forall|k: int| 0 <= k <= dims.len() ==> #[trigger] prefix_product(dims, k) <= u32::MAX
}

/// Weight of one step of dimension `i - 1`: the product of the non-zero totals
/// of dimensions `i` onwards.
pub open spec fn radix(dims: Seq<DimensionProgress>, i: int) -> nat
    decreases dims.len() - i,
{
    if i >= dims.len() {
        1
    } else if dims[i].total == 0 {
        radix(dims, i + 1)
    } else {
        radix(dims, i + 1) * (dims[i].total as nat)
    }
}

/// Index of dimension `i` for a flat index, in row-major order.
pub open spec fn digit_of(dims: Seq<DimensionProgress>, flat: nat, i: int) -> nat {
    (flat / radix(dims, i + 1)) % (dims[i].total as nat)
}

/// "d1, d2, ..." for the first `k` dimensions.
pub open spec fn dimensions_text(dims: Seq<DimensionProgress>, k: int) -> Seq<char>
    decreases k,
{
    if k <= 0 {
        Seq::empty()
    } else if k == 1 {
        dimension_text(dims[0].name@, dims[0].current as nat, dims[0].total as nat)
    } else {
        dimensions_text(dims, k - 1) + ", "@ + dimension_text(
            dims[k - 1].name@,
            dims[k - 1].current as nat,
            dims[k - 1].total as nat,
        )
    }
}

/// Progress over nested scan dimensions, outermost first, with the flat
/// (row-major) position over all of them.
#[derive(Debug)]
pub struct NestedProgress {
    pub dimensions: Vec<DimensionProgress>,
    /// Flat index, counted from 0.
    pub flat_current: u32,
    /// Number of flat steps: the product of the totals.
    pub flat_total: u32,
}

impl Default for NestedProgress {
    fn default() -> (r: NestedProgress)
        ensures
            r.dimensions@.len() == 0,
            r.flat_current == 0,
            r.flat_total == 0,
    {
        NestedProgress { dimensions: Vec::new(), flat_current: 0, flat_total: 0 }
    }
}

impl NestedProgress {
    /// Progress over the given dimensions, at flat index 0; the flat total is
    /// the product of the dimension totals (1 for no dimensions).
    pub fn new(dimensions: Vec<DimensionProgress>) -> (r: NestedProgress)
        requires
            product_fits(dimensions@),
        ensures
            r.dimensions@ == dimensions@,
            r.flat_current == 0,
            r.flat_total == prefix_product(dimensions@, dimensions@.len() as int),
    {
        let mut product: u32 = 1;
        let mut k: usize = 0;
        while k < dimensions.len()
            invariant
                k <= dimensions.len(),
                product_fits(dimensions@),
                product as nat == prefix_product(dimensions@, k as int),
            decreases dimensions.len() - k,
        {
            proof {
                assert(prefix_product(dimensions@, k + 1) <= u32::MAX);
            }
            product = product * dimensions[k].total;
            k = k + 1;
        }
        NestedProgress { dimensions, flat_current: 0, flat_total: product }
    }

    /// Move to a flat index: each dimension with a non-zero total gets its
    /// row-major index; dimensions with total 0 keep theirs.
    pub fn set_flat_current(&mut self, flat_current: u32)
        ensures
            final(self).flat_current == flat_current,
            final(self).flat_total == old(self).flat_total,
            final(self).dimensions@.len() == old(self).dimensions@.len(),
            forall|i: int| 0 <= i < old(self).dimensions@.len() ==> {
                &&& (#[trigger] final(self).dimensions@[i]).name == old(self).dimensions@[i].name
                &&& final(self).dimensions@[i].total == old(self).dimensions@[i].total
                &&& final(self).dimensions@[i].current == if old(self).dimensions@[i].total > 0 {
                    digit_of(old(self).dimensions@, flat_current as nat, i)
                } else {
                    old(self).dimensions@[i].current as nat
                }
            },
    {
        self.flat_current = flat_current;
        let ghost dims = self.dimensions@;
        let mut remaining = flat_current;
        let mut i: usize = self.dimensions.len();
        proof {
            assert(radix(dims, i as int) == 1);
            assert(flat_current as nat / 1 == flat_current as nat);
        }
        while i > 0
            invariant
                i <= self.dimensions@.len(),
                self.dimensions@.len() == dims.len(),
                self.flat_current == flat_current,
                self.flat_total == old(self).flat_total,
                dims == old(self).dimensions@,
                remaining as nat == flat_current as nat / radix(dims, i as int),
                forall|j: int| 0 <= j < dims.len() ==> {
                    &&& (#[trigger] self.dimensions@[j]).name == dims[j].name
                    &&& self.dimensions@[j].total == dims[j].total
                    &&& self.dimensions@[j].current == if j >= i && dims[j].total > 0 {
                        digit_of(dims, flat_current as nat, j)
                    } else {
                        dims[j].current as nat
                    }
                },
            decreases i,
        {
            i = i - 1;
            let dim_total = self.dimensions[i].total;
            if dim_total > 0 {
                proof {
                    lemma_radix_positive(dims, i + 1);
                    vstd::arithmetic::div_mod::lemma_div_denominator(
                        flat_current as int,
                        radix(dims, i + 1) as int,
                        dim_total as int,
                    );
                }
                self.dimensions[i].current = remaining % dim_total;
                remaining = remaining / dim_total;
            }
        }
    }

    /// Format as "name current/total, ...", or "No dimensions".
    pub fn format_nested(&self) -> (r: String)
        requires
            forall|i: int| 0 <= i < self.dimensions@.len() ==> (#[trigger] self.dimensions@[i]).current < u32::MAX,
        ensures
            self.dimensions@.len() == 0 ==> r@ == "No dimensions"@,
            self.dimensions@.len() > 0 ==> r@ == dimensions_text(self.dimensions@, self.dimensions@.len() as int),
    {
        if self.dimensions.len() == 0 {
            return string_of("No dimensions");
        }
        let mut result = String::new();
        let mut i: usize = 0;
        while i < self.dimensions.len()
            invariant
                i <= self.dimensions@.len(),
                forall|j: int| 0 <= j < self.dimensions@.len() ==> (#[trigger] self.dimensions@[j]).current < u32::MAX,
                result@ == dimensions_text(self.dimensions@, i as int),
            decreases self.dimensions.len() - i,
        {
            if i > 0 {
                push_str(&mut result, ", ");
            }
            let text = self.dimensions[i].format();
            push_str(&mut result, text.as_str());
            proof {
                reveal_strlit(", ");
                if i == 0 {
                    assert(result@ =~= dimensions_text(self.dimensions@, 1));
                }
            }
            i = i + 1;
        }
        result
    }

    /// Format as "current/total (percent%)", with the current step counted
    /// from 1; `percent` is the percentage text (one decimal place) for
    /// `flat_current / flat_total`, which takes floating point to compute.
    /// With a flat total of 0 the text is "0/0 (0.0%)".
    pub fn format_flat(&self, percent: &str) -> (r: String)
        requires
            self.flat_current < u32::MAX,
        ensures
            self.flat_total == 0 ==> r@ == "0/0 (0.0%)"@,
            self.flat_total != 0 ==> r@ == decimal(self.flat_current as nat + 1) + "/"@ + decimal(
                self.flat_total as nat,
            ) + " ("@ + percent@ + "%)"@,
    {
        if self.flat_total == 0 {
            return string_of("0/0 (0.0%)");
        }
        let mut r = String::new();
        push_decimal(&mut r, self.flat_current as u64 + 1);
        push_str(&mut r, "/");
        push_decimal(&mut r, self.flat_total as u64);
        push_str(&mut r, " (");
        push_str(&mut r, percent);
        push_str(&mut r, "%)");
        r
    }
}

proof fn lemma_radix_positive(dims: Seq<DimensionProgress>, i: int)
    ensures
        radix(dims, i) > 0,
    decreases dims.len() - i,
{
    if i < dims.len() {
        lemma_radix_positive(dims, i + 1);
        if dims[i].total != 0 {
            vstd::arithmetic::mul::lemma_mul_strictly_positive(radix(dims, i + 1) as int, dims[i].total as int);
        }
    }
}

/// Sum of index times step weight over dimensions `i` onwards.
pub open spec fn recomposed(dims: Seq<DimensionProgress>, flat: nat, i: int) -> nat
    decreases dims.len() - i,
{
    if i >= dims.len() {
        0
    } else {
        digit_of(dims, flat, i) * radix(dims, i + 1) + recomposed(dims, flat, i + 1)
    }
}

proof fn lemma_recomposed_is_remainder(dims: Seq<DimensionProgress>, flat: nat, i: int)
    requires
        0 <= i <= dims.len(),
        forall|j: int| 0 <= j < dims.len() ==> (#[trigger] dims[j]).total > 0,
    ensures
        recomposed(dims, flat, i) == flat % radix(dims, i),
    decreases dims.len() - i,
{
    if i >= dims.len() {
    } else {
        lemma_recomposed_is_remainder(dims, flat, i + 1);
        lemma_radix_positive(dims, i + 1);
        let r = radix(dims, i + 1) as int;
        let t = dims[i].total as int;
        vstd::arithmetic::div_mod::lemma_mod_breakdown(flat as int, r, t);
        vstd::arithmetic::mul::lemma_mul_is_commutative(r, (flat as int / r) % t);
    }
}

proof fn lemma_prefix_times_radix(dims: Seq<DimensionProgress>, k: int)
    requires
        0 <= k <= dims.len(),
        forall|j: int| 0 <= j < dims.len() ==> (#[trigger] dims[j]).total > 0,
    ensures
        prefix_product(dims, k) * radix(dims, k) == radix(dims, 0),
    decreases k,
{
    if k > 0 {
        lemma_prefix_times_radix(dims, k - 1);
        let p = prefix_product(dims, k - 1) as int;
        let t = dims[k - 1].total as int;
        let r = radix(dims, k) as int;
        assert(radix(dims, k - 1) == r * t);
        assert(prefix_product(dims, k) == p * t);
        vstd::arithmetic::mul::lemma_mul_is_associative(p, t, r);
        vstd::arithmetic::mul::lemma_mul_is_associative(p, r, t);
        vstd::arithmetic::mul::lemma_mul_is_commutative(r, t);
        assert((p * t) * r == p * (r * t));
        assert(prefix_product(dims, k) * radix(dims, k) == (p * t) * r);
        assert(p * radix(dims, k - 1) == radix(dims, 0));
        assert(prefix_product(dims, k) * radix(dims, k) == radix(dims, 0));
    } else {
        assert(prefix_product(dims, 0) == 1);
    }
}

/// With non-zero totals, the flat total is the product of all totals, and a
/// flat index below it is the row-major combination of the per-dimension
/// indices that `set_flat_current` assigns, each of which is below its total.
pub proof fn lemma_flat_index_recomposes(dims: Seq<DimensionProgress>, flat: nat)
    requires
        forall|j: int| 0 <= j < dims.len() ==> (#[trigger] dims[j]).total > 0,
        flat < prefix_product(dims, dims.len() as int),
    ensures
        recomposed(dims, flat, 0) == flat,
        forall|j: int| 0 <= j < dims.len() ==> #[trigger] digit_of(dims, flat, j) < dims[j].total,
{
    lemma_prefix_times_radix(dims, dims.len() as int);
    lemma_recomposed_is_remainder(dims, flat, 0);
    lemma_radix_positive(dims, 0);
    assert(radix(dims, dims.len() as int) == 1);
    let pp = prefix_product(dims, dims.len() as int);
    assert(pp * radix(dims, dims.len() as int) == radix(dims, 0));
    vstd::arithmetic::mul::lemma_mul_basics(pp as int);
    assert(pp == radix(dims, 0));
    vstd::arithmetic::div_mod::lemma_small_mod(flat, radix(dims, 0));
    assert forall|j: int| 0 <= j < dims.len() implies #[trigger] digit_of(dims, flat, j) < dims[j].total by {
        vstd::arithmetic::div_mod::lemma_mod_bound((flat / radix(dims, j + 1)) as int, dims[j].total as int);
    }
}

/// State of one node during execution.
#[derive(Debug, Clone, Copy, PartialEq, Eq, Structural)]
pub enum NodeExecutionState {
    Pending,
    Running,
    Completed,
    Skipped,
}

/// Engine state as the graph editor tracks it.
#[derive(Debug, Clone, Copy, PartialEq, Eq, Structural)]
pub enum EngineStateLocal {
    Idle,
    Running,
    Paused,
    Aborting,
}

impl Default for EngineStateLocal {
    fn default() -> (r: EngineStateLocal)
        ensures
            r == EngineStateLocal::Idle,
    {
        EngineStateLocal::Idle
    }
}

/// Engine state for a status code of the engine protocol (unknown codes read as idle).
pub open spec fn engine_state_of(code: i32) -> EngineStateLocal {
    if code == 1 {
        EngineStateLocal::Running
    } else if code == 2 {
        EngineStateLocal::Paused
    } else if code == 3 {
        EngineStateLocal::Aborting
    } else {
        EngineStateLocal::Idle
    }
}

/// The node a checkpoint label names: labels read
/// `node_NodeId(<n>)_start` or `node_NodeId(<n>)_end`. The node part ends
/// at the first `_start` after `node_`, or else at the first `_end`.
pub open spec fn checkpoint_node(label: Seq<char>) -> Option<nat> {
    if !starts_with(label, "node_"@) {
        None
    } else {
        let rest = label.skip(5);
        let end = match find_first(rest, "_start"@) {
            Some(i) => Some(i),
            None => find_first(rest, "_end"@),
        };
        match end {
            None => None,
            Some(e) => {
                let id = rest.take(e);
                if starts_with(id, "NodeId("@) && id.len() >= 8 && id.last() == ')' {
                    parsed_usize(id.subrange(7, id.len() - 1))
                } else {
                    None
                }
            },
        }
    }
}

/// `s` ends with `suffix`.
pub open spec fn ends_with(s: Seq<char>, suffix: Seq<char>) -> bool {
    suffix.len() <= s.len() && s.skip(s.len() - suffix.len()) == suffix
}

/// `after` is `before` moved to flat index `ev` by `set_flat_current`.
pub open spec fn nested_moved(before: NestedProgress, after: Option<NestedProgress>, ev: u32) -> bool {
    &&& after matches Some(n)
    &&& n.flat_current == ev
    &&& n.flat_total == before.flat_total
    &&& n.dimensions@.len() == before.dimensions@.len()
    &&& forall|i: int| 0 <= i < before.dimensions@.len() ==> {
        &&& (#[trigger] n.dimensions@[i]).name == before.dimensions@[i].name
        &&& n.dimensions@[i].total == before.dimensions@[i].total
        &&& n.dimensions@[i].current == if before.dimensions@[i].total > 0 {
            digit_of(before.dimensions@, ev as nat, i)
        } else {
            before.dimensions@[i].current as nat
        }
    }
}

/// Execution state of the graph: engine state, running and completed nodes,
/// run id and event counts.
#[derive(Debug)]
pub struct ExecutionState {
    pub engine_state: EngineStateLocal,
    /// Node running now (from checkpoint labels).
    pub active_node: Option<usize>,
    /// Nodes that have completed.
    pub completed_nodes: HashSet<usize>,
    pub run_uid: Option<String>,
    pub current_event: u32,
    pub total_events: u32,
    /// Progress over nested dimensions, for multi-dimensional scans.
    pub nested_progress: Option<NestedProgress>,
}

impl ExecutionState {
    /// The idle state.
    pub fn new() -> (r: ExecutionState)
        ensures
            r.engine_state == EngineStateLocal::Idle,
            r.active_node is None,
            r.completed_nodes@ == Set::<usize>::empty(),
            r.run_uid is None,
            r.current_event == 0,
            r.total_events == 0,
            r.nested_progress is None,
    {
        ExecutionState {
            engine_state: EngineStateLocal::Idle,
            active_node: None,
            completed_nodes: HashSet::new(),
            run_uid: None,
            current_event: 0,
            total_events: 0,
            nested_progress: None,
        }
    }

    /// Back to the idle state.
    pub fn reset(&mut self)
        ensures
            final(self).engine_state == EngineStateLocal::Idle,
            final(self).active_node is None,
            final(self).completed_nodes@ == Set::<usize>::empty(),
            final(self).run_uid is None,
            final(self).current_event == 0,
            final(self).total_events == 0,
            final(self).nested_progress is None,
    {
        *self = ExecutionState::new();
    }

    /// Start a run expecting `total_events` events.
    pub fn start_execution(&mut self, run_uid: String, total_events: u32)
        ensures
            final(self).engine_state == EngineStateLocal::Running,
            final(self).run_uid == Some(run_uid),
            final(self).total_events == total_events,
            final(self).current_event == 0,
            final(self).active_node is None,
            final(self).completed_nodes@ == Set::<usize>::empty(),
            final(self).nested_progress is None,
    {
        self.engine_state = EngineStateLocal::Running;
        self.run_uid = Some(run_uid);
        self.total_events = total_events;
        self.current_event = 0;
        self.active_node = None;
        self.completed_nodes.clear();
        self.nested_progress = None;
    }

    /// Start a multi-dimensional run; its events are the nested flat total.
    pub fn start_nested_execution(&mut self, run_uid: String, nested: NestedProgress)
        ensures
            final(self).engine_state == EngineStateLocal::Running,
            final(self).run_uid == Some(run_uid),
            final(self).total_events == nested.flat_total,
            final(self).current_event == 0,
            final(self).active_node is None,
            final(self).completed_nodes@ == Set::<usize>::empty(),
            final(self).nested_progress == Some(nested),
    {
        self.engine_state = EngineStateLocal::Running;
        self.run_uid = Some(run_uid);
        self.total_events = nested.flat_total;
        self.current_event = 0;
        self.active_node = None;
        self.completed_nodes.clear();
        self.nested_progress = Some(nested);
    }

    /// Take in an engine status: the state code, and the current and total
    /// event counts where the status carries them.
    pub fn update_from_status(&mut self, state: i32, current_event: Option<u32>, total_events: Option<u32>)
        ensures
            final(self).engine_state == engine_state_of(state),
            final(self).current_event == match current_event {
                Some(ev) => ev,
                None => old(self).current_event,
            },
            final(self).total_events == match total_events {
                Some(t) => t,
                None => old(self).total_events,
            },
            final(self).active_node == old(self).active_node,
            final(self).completed_nodes@ == old(self).completed_nodes@,
            final(self).run_uid == old(self).run_uid,
            old(self).nested_progress is None ==> final(self).nested_progress is None,
            current_event is None ==> final(self).nested_progress == old(self).nested_progress,
            old(self).nested_progress matches Some(old_n) ==> (current_event matches Some(ev) ==> nested_moved(
                old_n,
                final(self).nested_progress,
                ev,
            )),
    {
        self.engine_state = if state == 0 {
            EngineStateLocal::Idle
        } else if state == 1 {
            EngineStateLocal::Running
        } else if state == 2 {
            EngineStateLocal::Paused
        } else if state == 3 {
            EngineStateLocal::Aborting
        } else {
            EngineStateLocal::Idle
        };
        if let Some(ev) = current_event {
            self.current_event = ev;
            match &mut self.nested_progress {
                Some(nested) => {
                    nested.set_flat_current(ev);
                },
                None => {},
            }
        }
        if let Some(total) = total_events {
            self.total_events = total;
        }
    }

    /// Take in a checkpoint label. A `_start` label makes its node the active
    /// one (the previous active node counts as completed); an `_end` label for
    /// the active node completes it. Other labels change nothing.
    pub fn update_from_checkpoint(&mut self, label: &str)
        ensures
            final(self).engine_state == old(self).engine_state,
            final(self).run_uid == old(self).run_uid,
            final(self).current_event == old(self).current_event,
            final(self).total_events == old(self).total_events,
            final(self).nested_progress == old(self).nested_progress,
            match checkpoint_node(label@) {
                Some(id) if ends_with(label@, "_start"@) => {
                    &&& final(self).active_node == Some(id as usize)
                    &&& final(self).completed_nodes@ == match old(self).active_node {
                        Some(prev) => old(self).completed_nodes@.insert(prev),
                        None => old(self).completed_nodes@,
                    }
                },
                Some(id) if ends_with(label@, "_end"@) && old(self).active_node == Some(id as usize) => {
                    &&& final(self).active_node is None
                    &&& final(self).completed_nodes@ == old(self).completed_nodes@.insert(id as usize)
                },
                _ => {
                    &&& final(self).active_node == old(self).active_node
                    &&& final(self).completed_nodes@ == old(self).completed_nodes@
                },
            },
    {
        match parse_checkpoint(label) {
            Some(node) => {
                if has_suffix(label, "_start") {
                    if let Some(prev) = self.active_node {
                        self.completed_nodes.insert(prev);
                    }
                    self.active_node = Some(node);
                } else if has_suffix(label, "_end") && self.active_node == Some(node) {
                    self.completed_nodes.insert(node);
                    self.active_node = None;
                }
            },
            None => {},
        }
    }

    /// State of one node: running if active, completed if it has completed,
    /// pending otherwise.
    pub fn node_state(&self, node_id: usize) -> (r: NodeExecutionState)
        ensures
            r == if self.active_node == Some(node_id) {
                NodeExecutionState::Running
            } else if self.completed_nodes@.contains(node_id) {
                NodeExecutionState::Completed
            } else {
                NodeExecutionState::Pending
            },
    {
        if self.active_node == Some(node_id) {
            NodeExecutionState::Running
        } else if self.completed_nodes.contains(&node_id) {
            NodeExecutionState::Completed
        } else {
            NodeExecutionState::Pending
        }
    }

    /// Running or paused.
    pub fn is_active(&self) -> (r: bool)
        ensures
            r == (self.engine_state == EngineStateLocal::Running || self.engine_state == EngineStateLocal::Paused),
    {
        match self.engine_state {
            EngineStateLocal::Running | EngineStateLocal::Paused => true,
            _ => false,
        }
    }

    pub fn is_running(&self) -> (r: bool)
        ensures
            r == (self.engine_state == EngineStateLocal::Running),
    {
        match self.engine_state {
            EngineStateLocal::Running => true,
            _ => false,
        }
    }

    pub fn is_paused(&self) -> (r: bool)
        ensures
            r == (self.engine_state == EngineStateLocal::Paused),
    {
        match self.engine_state {
            EngineStateLocal::Paused => true,
            _ => false,
        }
    }

    /// Events still to come, when a time estimate makes sense: at least one
    /// event has been seen and not all of them; `None` otherwise. The time
    /// left is the average time per event so far times this count.
    pub fn remaining_events(&self) -> (r: Option<u32>)
        ensures
            r == if self.current_event == 0 || self.current_event >= self.total_events {
                None
            } else {
                Some((self.total_events - self.current_event) as u32)
            },
    {
        if self.current_event == 0 || self.current_event >= self.total_events {
            None
        } else {
            Some(self.total_events - self.current_event)
        }
    }
}

/// Does `s` end with `suffix`?
fn has_suffix(s: &str, suffix: &str) -> (r: bool)
    ensures
        r == ends_with(s@, suffix@),
{
    let a = chars_of(s);
    let b = chars_of(suffix);
    if b.len() > a.len() {
        return false;
    }
    let off = a.len() - b.len();
    let mut k: usize = 0;
    while k < b.len()
        invariant
            a@ == s@,
            b@ == suffix@,
            off + b.len() == a.len(),
            k <= b.len(),
            forall|q: int| 0 <= q < k ==> a@[off + q] == b@[q],
        decreases b.len() - k,
    {
        if a[off + k] != b[k] {
            proof {
                assert(a@.skip(off as int)[k as int] != b@[k as int]);
            }
            return false;
        }
        k = k + 1;
    }
    proof {
        assert(a@.skip(off as int) =~= b@);
    }
    true
}

/// The node named by a checkpoint label.
fn parse_checkpoint(label: &str) -> (r: Option<usize>)
    ensures
        r matches Some(id) ==> checkpoint_node(label@) == Some(id as nat),
        r is None ==> checkpoint_node(label@) is None,
{
    proof {
        reveal_strlit("node_");
        reveal_strlit("NodeId(");
    }
    let chars = chars_of(label);
    let prefix = chars_of("node_");
    if !has_prefix(&chars, &prefix) {
        return None;
    }
    let rest = subrange_chars(&chars, 5, chars.len());
    proof {
        assert(rest@ =~= label@.skip(5));
    }
    let start_pat = chars_of("_start");
    let end_pat = chars_of("_end");
    let end = match find_chars(&rest, &start_pat) {
        Some(e) => e,
        None => match find_chars(&rest, &end_pat) {
            Some(e) => e,
            None => {
                return None;
            },
        },
    };
    let id = subrange_chars(&rest, 0, end);
    proof {
        assert(id@ =~= rest@.take(end as int));
    }
    let id_prefix = chars_of("NodeId(");
    if !has_prefix(&id, &id_prefix) || id.len() < 8 || id[id.len() - 1] != ')' {
        return None;
    }
    let digits = subrange_chars(&id, 7, id.len() - 1);
    parse_usize(&digits)
}

proof fn lemma_find_from_at(s: Seq<char>, pat: Seq<char>, i: int, e: int)
    requires
        0 <= i <= e,
        e + pat.len() <= s.len(),
        matches_at(s, pat, e),
        forall|j: int| i <= j < e ==> !#[trigger] matches_at(s, pat, j),
    ensures
        find_from(s, pat, i) == Some(e),
    decreases e - i,
{
    if i < e {
        lemma_find_from_at(s, pat, i + 1, e);
    }
}

proof fn lemma_find_from_none(s: Seq<char>, pat: Seq<char>, i: int)
    requires
        0 <= i,
        forall|j: int| i <= j && j + pat.len() <= s.len() ==> !#[trigger] matches_at(s, pat, j),
    ensures
        find_from(s, pat, i) is None,
    decreases s.len() + 1 - i,
{
    if i + pat.len() <= s.len() {
        lemma_find_from_none(s, pat, i + 1);
    }
}

/// The labels that a translated plan's checkpoints carry name their node:
/// `node_NodeId(n)_start` and `node_NodeId(n)_end` are read back as node `n`,
/// the first as a start and the second as an end.
pub proof fn lemma_checkpoint_labels_name_their_node(id: nat)
    requires
        id <= usize::MAX,
    ensures
        checkpoint_node(tagged("node_"@, id, "_start"@)) == Some(id),
        ends_with(tagged("node_"@, id, "_start"@), "_start"@),
        checkpoint_node(tagged("node_"@, id, "_end"@)) == Some(id),
        ends_with(tagged("node_"@, id, "_end"@), "_end"@),
        !ends_with(tagged("node_"@, id, "_end"@), "_start"@),
{
    reveal_strlit("node_");
    reveal_strlit("_start");
    reveal_strlit("_end");
    reveal_strlit("NodeId(");
    reveal_strlit(")");
    lemma_decimal_digits(id);
    let d = decimal(id);
    let idt = "NodeId("@ + d + ")"@;
    assert(idt == node_id_text(id));
    let e = idt.len() as int;
    assert forall|j: int| 0 <= j < e implies idt[j] != '_' by {
        if 7 <= j < 7 + d.len() {
            assert(idt[j] == d[j - 7]);
        }
    }
    // The start label.
    let ls = "node_"@ + idt + "_start"@;
    assert(ls == tagged("node_"@, id, "_start"@));
    let rs = ls.skip(5);
    assert(rs =~= idt + "_start"@);
    assert(ls.take(5) =~= "node_"@);
    assert(matches_at(rs, "_start"@, e)) by {
        assert(rs.subrange(e, e + 6) =~= "_start"@);
    }
    assert forall|j: int| 0 <= j < e implies !#[trigger] matches_at(rs, "_start"@, j) by {
        assert(rs[j] == idt[j]);
        assert(rs.subrange(j, j + 6)[0] == rs[j]);
    }
    lemma_find_from_at(rs, "_start"@, 0, e);
    assert(rs.take(e) =~= idt);
    assert(idt.take(7) =~= "NodeId("@);
    assert(idt.subrange(7, idt.len() - 1) =~= d);
    assert(ls.skip(ls.len() - 6) =~= "_start"@);
    // The end label.
    let le = "node_"@ + idt + "_end"@;
    assert(le == tagged("node_"@, id, "_end"@));
    let re = le.skip(5);
    assert(re =~= idt + "_end"@);
    assert(le.take(5) =~= "node_"@);
    assert forall|j: int| 0 <= j && j + 6 <= re.len() implies !#[trigger] matches_at(re, "_start"@, j) by {
        if j < e {
            assert(re[j] == idt[j]);
            assert(re.subrange(j, j + 6)[0] == re[j]);
        }
    }
    lemma_find_from_none(re, "_start"@, 0);
    assert(matches_at(re, "_end"@, e)) by {
        assert(re.subrange(e, e + 4) =~= "_end"@);
    }
    assert forall|j: int| 0 <= j < e implies !#[trigger] matches_at(re, "_end"@, j) by {
        assert(re[j] == idt[j]);
        assert(re.subrange(j, j + 4)[0] == re[j]);
    }
    lemma_find_from_at(re, "_end"@, 0, e);
    assert(re.take(e) =~= idt);
    assert(le.skip(le.len() - 4) =~= "_end"@);
    assert(le[le.len() - 5] == ')');
    assert(le.skip(le.len() - 6)[1] == ')');
}

/// Reading a status code: each of the engine's states has its own code, in
/// the order idle 0, running 1, paused 2, aborting 3, and any other code
/// reads as idle. So after a status update the execution counts as running
/// exactly for code 1, as paused exactly for code 2, and as active (running
/// or paused) exactly for codes 1 and 2.
pub proof fn lemma_status_codes_name_their_states(code: i32)
    ensures
        (engine_state_of(code) == EngineStateLocal::Running) <==> code == 1,
        (engine_state_of(code) == EngineStateLocal::Paused) <==> code == 2,
        (engine_state_of(code) == EngineStateLocal::Aborting) <==> code == 3,
        (engine_state_of(code) == EngineStateLocal::Idle) <==> (code < 1 || code > 3),
{
}

/// The server reports its idle, running and paused states under codes that
/// the execution view reads back as the same states.
pub proof fn lemma_server_states_read_back(s: crate::run::EngineState)
    ensures
        s == crate::run::EngineState::Idle ==> engine_state_of(crate::run::engine_code(s) as i32) == EngineStateLocal::Idle,
        s == crate::run::EngineState::Running ==> engine_state_of(crate::run::engine_code(s) as i32)
            == EngineStateLocal::Running,
        s == crate::run::EngineState::Paused ==> engine_state_of(crate::run::engine_code(s) as i32)
            == EngineStateLocal::Paused,
{
}

} // verus!
