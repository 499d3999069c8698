//! Translation of an experiment graph into a flat list of plan commands.
//!
//! Real-valued positions are not computed here: a command names the scan
//! grid point (start, stop, point count, index) or the configured value, and
//! the executor evaluates it.

use vstd::prelude::*;
use crate::graph::nodes::{
    action_name, real_positive, AcquireConfig, AdaptiveScanConfig, ExperimentNode,
    LoopTermination, NestedScanConfig, Real, WaitCondition,
};
use crate::graph::reach::{body_members, find_loop_body_nodes, in_loop_body, inner_wires};
use crate::graph::structure::{
    adjacency, build_adjacency, has_input, is_kahn_order, lemma_adjacency_edge_total, lemma_root_list_valid,
    is_root_list, topological_sort, wires_wf, GraphModel, TranslationError, Wire,
};
use crate::graph::structure::lemma_acyclic_has_source;
use crate::graph::structure::lemma_adjacency_sources;
use crate::graph::topo::{
    distinct_nodes, is_acyclic, is_topological_order, lists, predecessors_first,
};
use crate::graph::validation::node_id_text;
use crate::text::{decimal, push_decimal, push_str, string_of};

verus! {

/// A position handed to an actuator or recorded with an event.
#[derive(Clone, Copy, Debug, PartialEq, Eq)]
pub enum Coordinate {
    /// A configured value.
    Value(Real),
    /// Point `index` of the grid from `start` to `stop` with `points` points:
    /// `start + index * (stop - start) / (points - 1)`, or `start` for a
    /// single point.
    Grid { start: Real, stop: Real, points: u32, index: u32 },
    /// A grid index recorded as a number.
    Index(u32),
}

/// A command of an executable plan.
#[derive(Debug)]
pub enum PlanCommand {
    /// Progress marker.
    Checkpoint { label: String },
    /// Move an actuator.
    MoveTo { device_id: String, position: Coordinate },
    /// Emit an event on a stream with the given positions; a later entry for
    /// the same name replaces an earlier one.
    EmitEvent { stream: String, positions: Vec<(String, Coordinate)> },
    /// Set a device parameter to a real value.
    SetParameter { device_id: String, parameter: String, value: Real },
    /// Trigger a detector.
    Trigger { device_id: String },
    /// Read a detector.
    Read { device_id: String },
    /// Wait for the given number of milliseconds.
    Wait { milliseconds: Real },
}

/// The mathematical content of a plan command.
pub enum Step {
    Checkpoint { label: Seq<char> },
    MoveTo { device: Seq<char>, position: Coordinate },
    EmitEvent { stream: Seq<char>, positions: Map<Seq<char>, Coordinate> },
    SetParameter { device: Seq<char>, parameter: Seq<char>, value: Real },
    Trigger { device: Seq<char> },
    Read { device: Seq<char> },
    Wait { milliseconds: Real },
}

/// Positions as a map: later entries replace earlier ones.
pub open spec fn positions_map(p: Seq<(String, Coordinate)>) -> Map<Seq<char>, Coordinate>
    decreases p.len(),
{
    if p.len() == 0 {
        Map::empty()
    } else {
        positions_map(p.drop_last()).insert(p.last().0@, p.last().1)
    }
}

impl View for PlanCommand {
    type V = Step;

    open spec fn view(&self) -> Step {
        match self {
            PlanCommand::Checkpoint { label } => Step::Checkpoint { label: label@ },
            PlanCommand::MoveTo { device_id, position } => Step::MoveTo { device: device_id@, position: *position },
            PlanCommand::EmitEvent { stream, positions } => Step::EmitEvent {
                stream: stream@,
                positions: positions_map(positions@),
            },
            PlanCommand::SetParameter { device_id, parameter, value } => Step::SetParameter {
                device: device_id@,
                parameter: parameter@,
                value: *value,
            },
            PlanCommand::Trigger { device_id } => Step::Trigger { device: device_id@ },
            PlanCommand::Read { device_id } => Step::Read { device: device_id@ },
            PlanCommand::Wait { milliseconds } => Step::Wait { milliseconds: *milliseconds },
        }
    }
}

/// The steps of a list of commands.
pub open spec fn steps_of(v: Seq<PlanCommand>) -> Seq<Step> {
    v.map_values(|c: PlanCommand| c@)
}

/// The texts of a list of strings.
pub open spec fn names_of(v: Seq<String>) -> Seq<Seq<char>> {
    v.map_values(|s: String| s@)
}

/// Number of event emissions among `s`.
pub open spec fn count_emits(s: Seq<Step>) -> nat
    decreases s.len(),
{
    if s.len() == 0 {
        0
    } else {
        count_emits(s.drop_last()) + (if s.last() is EmitEvent {
            1nat
        } else {
            0nat
        })
    }
}

pub proof fn lemma_count_emits_concat(a: Seq<Step>, b: Seq<Step>)
    ensures
        count_emits(a + b) == count_emits(a) + count_emits(b),
    decreases b.len(),
{
    if b.len() > 0 {
        lemma_count_emits_concat(a, b.drop_last());
        assert((a + b).drop_last() =~= a + b.drop_last());
    } else {
        assert(a + b =~= a);
    }
}

pub proof fn lemma_count_emits_bound(s: Seq<Step>)
    ensures
        count_emits(s) <= s.len(),
    decreases s.len(),
{
    if s.len() > 0 {
        lemma_count_emits_bound(s.drop_last());
    }
}

/// What translating part of a graph produces: steps, and the actuators and
/// detectors involved (in the order met, repetitions included).
#[verifier::ext_equal]
pub struct Tr {
    pub steps: Seq<Step>,
    pub movers: Seq<Seq<char>>,
    pub detectors: Seq<Seq<char>>,
}

pub open spec fn tr_empty() -> Tr {
    Tr { steps: seq![], movers: seq![], detectors: seq![] }
}

pub open spec fn tr_cat(a: Tr, b: Tr) -> Tr {
    Tr { steps: a.steps + b.steps, movers: a.movers + b.movers, detectors: a.detectors + b.detectors }
}

pub open spec fn tr_steps(s: Seq<Step>) -> Tr {
    Tr { steps: s, movers: seq![], detectors: seq![] }
}

pub open spec fn checkpoint(label: Seq<char>) -> Step {
    Step::Checkpoint { label }
}

/// A label made of a prefix, a node identifier and a rest.
pub open spec fn tagged(prefix: Seq<char>, id: nat, rest: Seq<char>) -> Seq<char> {
    prefix + node_id_text(id) + rest
}

/// The position map of a single entry.
pub open spec fn single_position(name: Seq<char>, c: Coordinate) -> Map<Seq<char>, Coordinate> {
    Map::<Seq<char>, Coordinate>::empty().insert(name, c)
}

pub open spec fn primary() -> Seq<char> {
    "primary"@
}

pub open spec fn grid(start: Real, stop: Real, points: u32, index: int) -> Coordinate {
    Coordinate::Grid { start, stop, points, index: index as u32 }
}

/// Steps of the first `k` points of a plain scan.
pub open spec fn scan_points(actuator: Seq<char>, start: Real, stop: Real, points: u32, id: nat, k: int) -> Seq<Step>
    decreases k,
{
    if k <= 0 {
        seq![]
    } else {
        scan_points(actuator, start, stop, points, id, k - 1) + seq![
            Step::MoveTo { device: actuator, position: grid(start, stop, points, k - 1) },
            checkpoint(tagged("node_"@, id, "_point_"@ + decimal((k - 1) as nat))),
            Step::EmitEvent { stream: primary(), positions: single_position(actuator, grid(start, stop, points, k - 1)) },
        ]
    }
}

/// Steps of the first `k` frames of an acquisition.
pub open spec fn acquire_frames(detector: Seq<char>, k: int) -> Seq<Step>
    decreases k,
{
    if k <= 0 {
        seq![]
    } else {
        acquire_frames(detector, k - 1) + seq![
            Step::Trigger { device: detector },
            Step::Read { device: detector },
            Step::EmitEvent { stream: primary(), positions: Map::empty() },
        ]
    }
}

/// Iteration count of a loop: the count, or the safety limit.
pub open spec fn loop_iterations(t: LoopTermination) -> u32 {
    match t {
        LoopTermination::Count { iterations } => iterations,
        LoopTermination::Condition { max_iterations, .. } => max_iterations,
        LoopTermination::Infinite { max_iterations } => max_iterations,
    }
}

/// The first `k` iterations of an unrolled loop around `body`.
pub open spec fn loop_unrolled(id: nat, body: Tr, k: int) -> Tr
    decreases k,
{
    if k <= 0 {
        tr_empty()
    } else {
        tr_cat(
            loop_unrolled(id, body, k - 1),
            tr_cat(
                tr_cat(tr_steps(seq![checkpoint(tagged("loop_"@, id, "_iter_"@ + decimal((k - 1) as nat) + "_start"@))]), body),
                tr_steps(seq![checkpoint(tagged("loop_"@, id, "_iter_"@ + decimal((k - 1) as nat) + "_end"@))]),
            ),
        )
    }
}

/// The move to a grid point, if the axis has an actuator.
pub open spec fn axis_move(actuator: Seq<char>, c: Coordinate) -> Seq<Step> {
    if actuator.len() == 0 {
        seq![]
    } else {
        seq![Step::MoveTo { device: actuator, position: c }]
    }
}

/// Positions recorded at a grid point of a nested scan.
pub open spec fn nested_positions(c: NestedScanConfig, o: int, k: int) -> Map<Seq<char>, Coordinate> {
    let m0 = Map::<Seq<char>, Coordinate>::empty();
    let m1 = if c.outer.actuator@.len() == 0 {
        m0
    } else {
        m0.insert(c.outer.actuator@, grid(c.outer.start, c.outer.stop, c.outer.points, o))
    };
    let m2 = if c.inner.actuator@.len() == 0 {
        m1
    } else {
        m1.insert(c.inner.actuator@, grid(c.inner.start, c.inner.stop, c.inner.points, k))
    };
    m2.insert("_outer_idx"@, Coordinate::Index(o as u32)).insert("_inner_idx"@, Coordinate::Index(k as u32))
}

/// The first `k` inner points of outer point `o` of a nested scan.
pub open spec fn nested_inner(c: NestedScanConfig, id: nat, body: Tr, o: int, k: int) -> Tr
    decreases k,
{
    if k <= 0 {
        tr_empty()
    } else {
        tr_cat(
            nested_inner(c, id, body, o, k - 1),
            tr_cat(
                tr_cat(
                    tr_steps(
                        axis_move(c.inner.actuator@, grid(c.inner.start, c.inner.stop, c.inner.points, k - 1))
                            + seq![checkpoint(tagged("nested_"@, id, "_outer_"@ + decimal(o as nat) + "_inner_"@ + decimal((k - 1) as nat)))],
                    ),
                    body,
                ),
                tr_steps(seq![Step::EmitEvent { stream: primary(), positions: nested_positions(c, o, k - 1) }]),
            ),
        )
    }
}

/// The first `o` outer points of a nested scan.
pub open spec fn nested_outer(c: NestedScanConfig, id: nat, body: Tr, o: int) -> Tr
    decreases o,
{
    if o <= 0 {
        tr_empty()
    } else {
        tr_cat(
            nested_outer(c, id, body, o - 1),
            tr_cat(
                tr_cat(
                    tr_steps(
                        axis_move(c.outer.actuator@, grid(c.outer.start, c.outer.stop, c.outer.points, o - 1))
                            + seq![checkpoint(tagged("nested_"@, id, "_outer_"@ + decimal((o - 1) as nat) + "_start"@))],
                    ),
                    nested_inner(c, id, body, o - 1, c.inner.points as int),
                ),
                tr_steps(seq![checkpoint(tagged("nested_"@, id, "_outer_"@ + decimal((o - 1) as nat) + "_end"@))]),
            ),
        )
    }
}

/// Steps of the first `k` points of an adaptive scan.
pub open spec fn adaptive_points(c: AdaptiveScanConfig, id: nat, k: int) -> Seq<Step>
    decreases k,
{
    if k <= 0 {
        seq![]
    } else {
        adaptive_points(c, id, k - 1) + seq![
            Step::MoveTo { device: c.scan.actuator@, position: grid(c.scan.start, c.scan.stop, c.scan.points, k - 1) },
            checkpoint(tagged("adaptive_"@, id, "_point_"@ + decimal((k - 1) as nat) + "_triggers_"@ + decimal(c.triggers.len() as nat))),
            Step::EmitEvent {
                stream: primary(),
                positions: single_position(c.scan.actuator@, grid(c.scan.start, c.scan.stop, c.scan.points, k - 1)),
            },
        ]
    }
}

/// What a node translates to, apart from the start and end markers. Loop
/// bodies are taken from `bodies` (indexed by node position) and translated
/// with one unit of `fuel` less.
pub open spec fn kind_tr(g: crate::graph::structure::GraphModel, bodies: Seq<Seq<usize>>, i: int, fuel: nat) -> Tr
    decreases fuel, 0int, 0int,
{
    let id = g.nodes@[i].id as nat;
    match g.nodes@[i].node {
        ExperimentNode::Scan { actuator, start, stop, points } => if points > 0 && actuator@.len() > 0 {
            Tr {
                steps: scan_points(actuator@, start, stop, points, id, points as int),
                movers: seq![actuator@],
                detectors: seq![],
            }
        } else {
            tr_empty()
        },
        ExperimentNode::Acquire(c) => if c.detector@.len() > 0 {
            Tr {
                steps: (if c.exposure_ms matches Some(e) && real_positive(e) {
                    seq![Step::SetParameter { device: c.detector@, parameter: "exposure_ms"@, value: c.exposure_ms->0 }]
                } else {
                    seq![]
                }) + acquire_frames(c.detector@, c.frame_count as int),
                movers: seq![],
                detectors: seq![c.detector@],
            }
        } else {
            tr_empty()
        },
        ExperimentNode::Move(c) => if c.device@.len() > 0 {
            Tr {
                steps: seq![Step::MoveTo { device: c.device@, position: Coordinate::Value(c.position) }] + (if c.wait_settled {
                    seq![checkpoint(tagged("node_"@, id, "_settled"@))]
                } else {
                    seq![]
                }),
                movers: seq![c.device@],
                detectors: seq![],
            }
        } else {
            tr_empty()
        },
        ExperimentNode::Wait { condition } => tr_steps(seq![Step::Wait {
            milliseconds: match condition {
                WaitCondition::Duration { milliseconds } => milliseconds,
                WaitCondition::Threshold { timeout_ms, .. } => timeout_ms,
                WaitCondition::Stability { timeout_ms, .. } => timeout_ms,
            },
        }]),
        ExperimentNode::Loop(c) => if fuel == 0 {
            tr_empty()
        } else {
            loop_unrolled(id, body_tr(g, bodies, bodies[i], (fuel - 1) as nat), loop_iterations(c.termination) as int)
        },
        ExperimentNode::NestedScan(c) => if fuel == 0 {
            tr_empty()
        } else {
            tr_cat(
                Tr {
                    steps: seq![],
                    movers: (if c.outer.actuator@.len() > 0 { seq![c.outer.actuator@] } else { seq![] }) + (if c.inner.actuator@.len() > 0 {
                        seq![c.inner.actuator@]
                    } else {
                        seq![]
                    }),
                    detectors: seq![],
                },
                nested_outer(c, id, body_tr(g, bodies, bodies[i], (fuel - 1) as nat), c.outer.points as int),
            )
        },
        ExperimentNode::AdaptiveScan(c) => if c.scan.points > 0 && c.scan.actuator@.len() > 0 {
            Tr {
                steps: seq![checkpoint(tagged("adaptive_"@, id, "_start"@))] + adaptive_points(c, id, c.scan.points as int)
                    + seq![checkpoint(tagged("adaptive_"@, id, "_evaluate_action_"@ + action_name(c.action)))]
                    + (if c.require_approval {
                    seq![checkpoint(tagged("adaptive_"@, id, "_approval_required"@))]
                } else {
                    seq![]
                }),
                movers: seq![c.scan.actuator@],
                detectors: seq![],
            }
        } else {
            tr_empty()
        },
    }
}

/// What node `i` translates to: its start marker, its own steps, its end marker.
pub open spec fn node_tr(g: crate::graph::structure::GraphModel, bodies: Seq<Seq<usize>>, i: int, fuel: nat) -> Tr
    decreases fuel, 1int, 0int,
{
    let id = g.nodes@[i].id as nat;
    tr_cat(
        tr_cat(tr_steps(seq![checkpoint(tagged("node_"@, id, "_start"@))]), kind_tr(g, bodies, i, fuel)),
        tr_steps(seq![checkpoint(tagged("node_"@, id, "_end"@))]),
    )
}

/// The translations of the nodes of `body`, one after another.
pub open spec fn body_tr(g: crate::graph::structure::GraphModel, bodies: Seq<Seq<usize>>, body: Seq<usize>, fuel: nat) -> Tr
    decreases fuel, 2int, body.len(),
{
    if body.len() == 0 {
        tr_empty()
    } else {
        tr_cat(body_tr(g, bodies, body.drop_last(), fuel), node_tr(g, bodies, body.last() as int, fuel))
    }
}

/// A translation being built: commands, actuators, detectors, event count.
pub struct Translation {
    pub commands: Vec<PlanCommand>,
    pub movers: Vec<String>,
    pub detectors: Vec<String>,
    pub events: usize,
}

impl Translation {
    pub open spec fn tr(&self) -> Tr {
        Tr { steps: steps_of(self.commands@), movers: names_of(self.movers@), detectors: names_of(self.detectors@) }
    }

    /// The event counter counts the event emissions.
    pub open spec fn wf(&self) -> bool {
        self.events == count_emits(steps_of(self.commands@))
    }

    fn new() -> (t: Translation)
        ensures
            t.wf(),
            t.tr() == tr_empty(),
    {
        let t = Translation { commands: Vec::new(), movers: Vec::new(), detectors: Vec::new(), events: 0 };
        proof {
            assert(t.tr() =~= tr_empty());
        }
        t
    }

    fn push(&mut self, c: PlanCommand)
        requires
            old(self).wf(),
        ensures
            final(self).wf(),
            final(self).tr() == tr_cat(old(self).tr(), tr_steps(seq![c@])),
    {
        let emit = match &c {
            PlanCommand::EmitEvent { .. } => true,
            _ => false,
        };
        let ghost before = self.commands@;
        self.commands.push(c);
        proof {
            assert(steps_of(self.commands@) =~= steps_of(before).push(c@));
            assert(steps_of(self.commands@).drop_last() =~= steps_of(before));
            lemma_count_emits_bound(steps_of(before));
            assert(steps_of(before).len() == before.len());
        }
        let len_now = self.commands.len();
        proof {
            assert(self.commands@.len() == len_now);
        }
        if emit {
            self.events = self.events + 1;
        }
        proof {
            assert(self.tr() =~= tr_cat(old(self).tr(), tr_steps(seq![c@])));
        }
    }

    fn add_mover(&mut self, name: String)
        ensures
            final(self).wf() == old(self).wf(),
            final(self).tr() == tr_cat(old(self).tr(), Tr { steps: seq![], movers: seq![name@], detectors: seq![] }),
    {
        let ghost before = self.movers@;
        self.movers.push(name);
        proof {
            assert(names_of(self.movers@) =~= names_of(before).push(name@));
            assert(self.tr() =~= tr_cat(old(self).tr(), Tr { steps: seq![], movers: seq![name@], detectors: seq![] }));
        }
    }

    fn add_detector(&mut self, name: String)
        ensures
            final(self).wf() == old(self).wf(),
            final(self).tr() == tr_cat(old(self).tr(), Tr { steps: seq![], movers: seq![], detectors: seq![name@] }),
    {
        let ghost before = self.detectors@;
        self.detectors.push(name);
        proof {
            assert(names_of(self.detectors@) =~= names_of(before).push(name@));
            assert(self.tr() =~= tr_cat(old(self).tr(), Tr { steps: seq![], movers: seq![], detectors: seq![name@] }));
        }
    }

    fn absorb(&mut self, other: Translation)
        requires
            old(self).wf(),
            other.wf(),
        ensures
            final(self).wf(),
            final(self).tr() == tr_cat(old(self).tr(), other.tr()),
    {
        let mut other = other;
        let ghost a = steps_of(self.commands@);
        let ghost b = steps_of(other.commands@);
        let ghost om = names_of(other.movers@);
        let ghost od = names_of(other.detectors@);
        let ghost ac = self.commands@;
        let ghost bc = other.commands@;
        let ghost am = self.movers@;
        let ghost bm = other.movers@;
        let ghost ad = self.detectors@;
        let ghost bd = other.detectors@;
        self.commands.append(&mut other.commands);
        self.movers.append(&mut other.movers);
        self.detectors.append(&mut other.detectors);
        let len_now = self.commands.len();
        proof {
            assert(self.commands@.len() == len_now);
            assert(steps_of(self.commands@) =~= a + b);
            assert(names_of(self.movers@) =~= names_of(am) + om);
            assert(names_of(self.detectors@) =~= names_of(ad) + od);
            lemma_count_emits_concat(a, b);
            lemma_count_emits_bound(a + b);
            assert((a + b).len() == self.commands@.len());
        }
        self.events = self.events + other.events;
        proof {
            assert(self.tr() =~= tr_cat(old(self).tr(), Tr { steps: b, movers: om, detectors: od }));
        }
    }
}

fn checkpoint_cmd(label: String) -> (c: PlanCommand)
    ensures
        c@ == checkpoint(label@),
{
    PlanCommand::Checkpoint { label }
}

/// `prefix` followed by the node identifier.
fn tag(prefix: &str, id: usize) -> (s: String)
    ensures
        s@ == prefix@ + node_id_text(id as nat),
{
    let mut s = string_of(prefix);
    push_str(&mut s, "NodeId(");
    push_decimal(&mut s, id as u64);
    push_str(&mut s, ")");
    proof {
        assert(s@ =~= prefix@ + node_id_text(id as nat));
    }
    s
}

fn tag_rest(prefix: &str, id: usize, rest: &str) -> (s: String)
    ensures
        s@ == tagged(prefix@, id as nat, rest@),
{
    let mut s = tag(prefix, id);
    push_str(&mut s, rest);
    s
}

fn one_position(name: &String, c: Coordinate) -> (v: Vec<(String, Coordinate)>)
    ensures
        positions_map(v@) == single_position(name@, c),
{
    let mut v: Vec<(String, Coordinate)> = Vec::new();
    let copy = name.clone();
    v.push((copy, c));
    proof {
        assert(v@.drop_last() =~= Seq::<(String, Coordinate)>::empty());
        assert(v@.last().0@ == name@);
        assert(positions_map(v@) == positions_map(v@.drop_last()).insert(v@.last().0@, v@.last().1));
    }
    v
}

/// Graph plus loop bodies for which translation is defined.
pub open spec fn translation_ready(g: GraphModel, bodies: Seq<Seq<usize>>) -> bool {
    &&& g.wf()
    &&& bodies.len() == g.nodes.len()
    &&& forall|l: int, k: int| 0 <= l < bodies.len() && 0 <= k < bodies[l].len() ==> #[trigger] bodies[l][k] < g.nodes.len()
}

fn scan_translation(t: &mut Translation, actuator: &String, start: Real, stop: Real, points: u32, id: usize)
    requires
        old(t).wf(),
    ensures
        final(t).wf(),
        final(t).tr() == tr_cat(old(t).tr(), tr_steps(scan_points(actuator@, start, stop, points, id as nat, points as int))),
{
    let ghost base = t.tr();
    let mut i: u32 = 0;
    while i < points
        invariant
            i <= points,
            t.wf(),
            t.tr() == tr_cat(base, tr_steps(scan_points(actuator@, start, stop, points, id as nat, i as int))),
        decreases points - i,
    {
        let pos = Coordinate::Grid { start, stop, points, index: i };
        t.push(PlanCommand::MoveTo { device_id: actuator.clone(), position: pos });
        let mut label = tag("node_", id);
        push_str(&mut label, "_point_");
        push_decimal(&mut label, i as u64);
        t.push(checkpoint_cmd(label));
        t.push(PlanCommand::EmitEvent { stream: string_of("primary"), positions: one_position(actuator, pos) });
        proof {
            assert(tagged("node_"@, id as nat, "_point_"@ + decimal(i as nat)) =~= "node_"@ + node_id_text(id as nat) + "_point_"@ + decimal(i as nat));
            assert(t.tr() =~= tr_cat(base, tr_steps(scan_points(actuator@, start, stop, points, id as nat, i as int + 1))));
        }
        i = i + 1;
    }
}

fn acquire_translation(t: &mut Translation, c: &AcquireConfig)
    requires
        old(t).wf(),
        c.detector@.len() > 0,
    ensures
        final(t).wf(),
        final(t).tr() == tr_cat(old(t).tr(), Tr {
            steps: (if c.exposure_ms matches Some(e) && real_positive(e) {
                seq![Step::SetParameter { device: c.detector@, parameter: "exposure_ms"@, value: c.exposure_ms->0 }]
            } else {
                seq![]
            }) + acquire_frames(c.detector@, c.frame_count as int),
            movers: seq![],
            detectors: seq![c.detector@],
        }),
{
    let ghost base = t.tr();
    t.add_detector(c.detector.clone());
    let ghost with_detector = t.tr();
    match c.exposure_ms {
        Some(e) => {
            if e.is_positive() {
                t.push(PlanCommand::SetParameter { device_id: c.detector.clone(), parameter: string_of("exposure_ms"), value: e });
            }
        },
        None => {},
    }
    let ghost head = t.tr();
    let mut k: u32 = 0;
    while k < c.frame_count
        invariant
            k <= c.frame_count,
            t.wf(),
            t.tr() == tr_cat(head, tr_steps(acquire_frames(c.detector@, k as int))),
        decreases c.frame_count - k,
    {
        t.push(PlanCommand::Trigger { device_id: c.detector.clone() });
        t.push(PlanCommand::Read { device_id: c.detector.clone() });
        t.push(PlanCommand::EmitEvent { stream: string_of("primary"), positions: Vec::new() });
        proof {
            assert(positions_map(Seq::<(String, Coordinate)>::empty()) == Map::<Seq<char>, Coordinate>::empty());
            assert(t.tr() =~= tr_cat(head, tr_steps(acquire_frames(c.detector@, k as int + 1))));
        }
        k = k + 1;
    }
    proof {
        assert(t.tr() =~= tr_cat(base, Tr {
            steps: (if c.exposure_ms matches Some(e) && real_positive(e) {
                seq![Step::SetParameter { device: c.detector@, parameter: "exposure_ms"@, value: c.exposure_ms->0 }]
            } else {
                seq![]
            }) + acquire_frames(c.detector@, c.frame_count as int),
            movers: seq![],
            detectors: seq![c.detector@],
        }));
    }
}

fn adaptive_translation(t: &mut Translation, c: &AdaptiveScanConfig, id: usize)
    requires
        old(t).wf(),
        c.scan.points > 0,
        c.scan.actuator@.len() > 0,
    ensures
        final(t).wf(),
        final(t).tr() == tr_cat(old(t).tr(), Tr {
            steps: seq![checkpoint(tagged("adaptive_"@, id as nat, "_start"@))] + adaptive_points(*c, id as nat, c.scan.points as int)
                + seq![checkpoint(tagged("adaptive_"@, id as nat, "_evaluate_action_"@ + action_name(c.action)))]
                + (if c.require_approval {
                seq![checkpoint(tagged("adaptive_"@, id as nat, "_approval_required"@))]
            } else {
                seq![]
            }),
            movers: seq![c.scan.actuator@],
            detectors: seq![],
        }),
{
    let ghost base = t.tr();
    t.add_mover(c.scan.actuator.clone());
    t.push(checkpoint_cmd(tag_rest("adaptive_", id, "_start")));
    let ghost head = t.tr();
    let points = c.scan.points;
    let mut i: u32 = 0;
    while i < points
        invariant
            i <= points,
            points == c.scan.points,
            t.wf(),
            t.tr() == tr_cat(head, tr_steps(adaptive_points(*c, id as nat, i as int))),
        decreases points - i,
    {
        let pos = Coordinate::Grid { start: c.scan.start, stop: c.scan.stop, points, index: i };
        t.push(PlanCommand::MoveTo { device_id: c.scan.actuator.clone(), position: pos });
        let mut label = tag("adaptive_", id);
        push_str(&mut label, "_point_");
        push_decimal(&mut label, i as u64);
        push_str(&mut label, "_triggers_");
        push_decimal(&mut label, c.triggers.len() as u64);
        t.push(checkpoint_cmd(label));
        t.push(PlanCommand::EmitEvent { stream: string_of("primary"), positions: one_position(&c.scan.actuator, pos) });
        proof {
            assert((c.triggers.len() as u64) as nat == c.triggers.len() as nat);
            assert(tagged("adaptive_"@, id as nat, "_point_"@ + decimal(i as nat) + "_triggers_"@ + decimal(c.triggers.len() as nat))
                =~= "adaptive_"@ + node_id_text(id as nat) + "_point_"@ + decimal(i as nat) + "_triggers_"@ + decimal(c.triggers.len() as nat));
            assert(t.tr() =~= tr_cat(head, tr_steps(adaptive_points(*c, id as nat, i as int + 1))));
        }
        i = i + 1;
    }
    let mut label = tag("adaptive_", id);
    push_str(&mut label, "_evaluate_action_");
    push_str(&mut label, c.action.name());
    proof {
        assert(label@ =~= tagged("adaptive_"@, id as nat, "_evaluate_action_"@ + action_name(c.action)));
    }
    t.push(checkpoint_cmd(label));
    let ghost before_approval = t.tr();
    if c.require_approval {
        t.push(checkpoint_cmd(tag_rest("adaptive_", id, "_approval_required")));
    }
    proof {
        assert(t.tr() =~= tr_cat(base, Tr {
            steps: seq![checkpoint(tagged("adaptive_"@, id as nat, "_start"@))] + adaptive_points(*c, id as nat, c.scan.points as int)
                + seq![checkpoint(tagged("adaptive_"@, id as nat, "_evaluate_action_"@ + action_name(c.action)))]
                + (if c.require_approval {
                seq![checkpoint(tagged("adaptive_"@, id as nat, "_approval_required"@))]
            } else {
                seq![]
            }),
            movers: seq![c.scan.actuator@],
            detectors: seq![],
        }));
    }
}

fn wait_milliseconds(condition: &WaitCondition) -> (r: Real)
    ensures
        r == (match *condition {
            WaitCondition::Duration { milliseconds } => milliseconds,
            WaitCondition::Threshold { timeout_ms, .. } => timeout_ms,
            WaitCondition::Stability { timeout_ms, .. } => timeout_ms,
        }),
{
    match condition {
        WaitCondition::Duration { milliseconds } => *milliseconds,
        WaitCondition::Threshold { timeout_ms, .. } => *timeout_ms,
        WaitCondition::Stability { timeout_ms, .. } => *timeout_ms,
    }
}

fn termination_iterations(t: &LoopTermination) -> (r: u32)
    ensures
        r == loop_iterations(*t),
{
    match t {
        LoopTermination::Count { iterations } => *iterations,
        LoopTermination::Condition { max_iterations, .. } => *max_iterations,
        LoopTermination::Infinite { max_iterations } => *max_iterations,
    }
}

/// Translate the nodes of `body` one after another.
fn body_translation(g: &GraphModel, bodies: &Vec<Vec<usize>>, body: &Vec<usize>, fuel: usize) -> (t: Translation)
    requires
        translation_ready(*g, bodies.deep_view()),
        forall|k: int| 0 <= k < body.len() ==> body[k] < g.nodes.len(),
    ensures
        t.wf(),
        t.tr() == body_tr(*g, bodies.deep_view(), body@, fuel as nat),
    decreases fuel, 2int, body.len(),
{
    let mut t = Translation::new();
    let mut k: usize = 0;
    while k < body.len()
        invariant
            translation_ready(*g, bodies.deep_view()),
            forall|q: int| 0 <= q < body.len() ==> body[q] < g.nodes.len(),
            k <= body.len(),
            t.wf(),
            t.tr() == body_tr(*g, bodies.deep_view(), body@.take(k as int), fuel as nat),
        decreases body.len() - k,
    {
        let part = node_translation(g, bodies, body[k], fuel);
        t.absorb(part);
        proof {
            assert(body@.take(k as int + 1).drop_last() =~= body@.take(k as int));
            assert(body@.take(k as int + 1).last() == body@[k as int]);
        }
        k = k + 1;
    }
    proof {
        assert(body@.take(body.len() as int) =~= body@);
    }
    t
}

/// Translate node `i`: start marker, the node's own commands, end marker.
pub fn node_translation(g: &GraphModel, bodies: &Vec<Vec<usize>>, i: usize, fuel: usize) -> (t: Translation)
    requires
        translation_ready(*g, bodies.deep_view()),
        i < g.nodes.len(),
    ensures
        t.wf(),
        t.tr() == node_tr(*g, bodies.deep_view(), i as int, fuel as nat),
    decreases fuel, 1int, 0int,
{
    let id = g.nodes[i].id;
    let mut t = Translation::new();
    t.push(checkpoint_cmd(tag_rest("node_", id, "_start")));
    let inner = kind_translation(g, bodies, i, fuel);
    t.absorb(inner);
    t.push(checkpoint_cmd(tag_rest("node_", id, "_end")));
    t
}

fn loop_translation(g: &GraphModel, bodies: &Vec<Vec<usize>>, i: usize, iterations: u32, fuel: usize) -> (t: Translation)
    requires
        translation_ready(*g, bodies.deep_view()),
        i < g.nodes.len(),
    ensures
        t.wf(),
        t.tr() == loop_unrolled(g.nodes@[i as int].id as nat, body_tr(*g, bodies.deep_view(), bodies.deep_view()[i as int], fuel as nat), iterations as int),
    decreases fuel, 3int, 0int,
{
    let id = g.nodes[i].id;
    let ghost body_spec = body_tr(*g, bodies.deep_view(), bodies.deep_view()[i as int], fuel as nat);
    let mut t = Translation::new();
    let mut it: u32 = 0;
    proof {
        assert(bodies.deep_view()[i as int] == bodies[i as int]@);
    }
    while it < iterations
        invariant
            translation_ready(*g, bodies.deep_view()),
            i < g.nodes.len(),
            id == g.nodes@[i as int].id,
            bodies.deep_view()[i as int] == bodies[i as int]@,
            body_spec == body_tr(*g, bodies.deep_view(), bodies.deep_view()[i as int], fuel as nat),
            it <= iterations,
            t.wf(),
            t.tr() == loop_unrolled(id as nat, body_spec, it as int),
        decreases iterations - it,
    {
        let ghost before = t.tr();
        let mut start = tag("loop_", id);
        push_str(&mut start, "_iter_");
        push_decimal(&mut start, it as u64);
        push_str(&mut start, "_start");
        proof {
            assert(start@ =~= tagged("loop_"@, id as nat, "_iter_"@ + decimal(it as nat) + "_start"@));
        }
        t.push(checkpoint_cmd(start));
        proof {
            assert forall|q: int| 0 <= q < bodies[i as int].len() implies bodies[i as int][q] < g.nodes.len() by {
                assert(bodies.deep_view()[i as int][q] == bodies[i as int][q]);
            }
        }
        let body = body_translation(g, bodies, &bodies[i], fuel);
        t.absorb(body);
        let mut end = tag("loop_", id);
        push_str(&mut end, "_iter_");
        push_decimal(&mut end, it as u64);
        push_str(&mut end, "_end");
        proof {
            assert(end@ =~= tagged("loop_"@, id as nat, "_iter_"@ + decimal(it as nat) + "_end"@));
        }
        t.push(checkpoint_cmd(end));
        proof {
            assert(t.tr() =~= loop_unrolled(id as nat, body_spec, it as int + 1));
        }
        it = it + 1;
    }
    t
}

fn nested_translation(g: &GraphModel, bodies: &Vec<Vec<usize>>, i: usize, c: &NestedScanConfig, fuel: usize) -> (t: Translation)
    requires
        translation_ready(*g, bodies.deep_view()),
        i < g.nodes.len(),
    ensures
        t.wf(),
        t.tr() == nested_outer(*c, g.nodes@[i as int].id as nat, body_tr(*g, bodies.deep_view(), bodies.deep_view()[i as int], fuel as nat), c.outer.points as int),
    decreases fuel, 3int, 0int,
{
    let id = g.nodes[i].id;
    let ghost body_spec = body_tr(*g, bodies.deep_view(), bodies.deep_view()[i as int], fuel as nat);
    proof {
        assert(bodies.deep_view()[i as int] == bodies[i as int]@);
        assert forall|q: int| 0 <= q < bodies[i as int].len() implies bodies[i as int][q] < g.nodes.len() by {
            assert(bodies.deep_view()[i as int][q] == bodies[i as int][q]);
        }
    }
    let mut t = Translation::new();
    let mut o: u32 = 0;
    while o < c.outer.points
        invariant
            translation_ready(*g, bodies.deep_view()),
            i < g.nodes.len(),
            id == g.nodes@[i as int].id,
            bodies.deep_view()[i as int] == bodies[i as int]@,
            forall|q: int| 0 <= q < bodies[i as int].len() ==> bodies[i as int][q] < g.nodes.len(),
            body_spec == body_tr(*g, bodies.deep_view(), bodies.deep_view()[i as int], fuel as nat),
            o <= c.outer.points,
            t.wf(),
            t.tr() == nested_outer(*c, id as nat, body_spec, o as int),
        decreases c.outer.points - o,
    {
        let ghost before = t.tr();
        let outer_pos = Coordinate::Grid { start: c.outer.start, stop: c.outer.stop, points: c.outer.points, index: o };
        if c.outer.actuator.as_str().unicode_len() > 0 {
            t.push(PlanCommand::MoveTo { device_id: c.outer.actuator.clone(), position: outer_pos });
        }
        let mut start = tag("nested_", id);
        push_str(&mut start, "_outer_");
        push_decimal(&mut start, o as u64);
        push_str(&mut start, "_start");
        proof {
            assert(start@ =~= tagged("nested_"@, id as nat, "_outer_"@ + decimal(o as nat) + "_start"@));
        }
        t.push(checkpoint_cmd(start));
        let ghost head = t.tr();
        proof {
            assert(head =~= tr_cat(before, tr_steps(axis_move(c.outer.actuator@, grid(c.outer.start, c.outer.stop, c.outer.points, o as int))
                + seq![checkpoint(tagged("nested_"@, id as nat, "_outer_"@ + decimal(o as nat) + "_start"@))])));
        }
        let mut k: u32 = 0;
        while k < c.inner.points
            invariant
                translation_ready(*g, bodies.deep_view()),
                i < g.nodes.len(),
                id == g.nodes@[i as int].id,
                bodies.deep_view()[i as int] == bodies[i as int]@,
                forall|q: int| 0 <= q < bodies[i as int].len() ==> bodies[i as int][q] < g.nodes.len(),
                body_spec == body_tr(*g, bodies.deep_view(), bodies.deep_view()[i as int], fuel as nat),
                o < c.outer.points,
                outer_pos == grid(c.outer.start, c.outer.stop, c.outer.points, o as int),
                k <= c.inner.points,
                t.wf(),
                t.tr() == tr_cat(head, nested_inner(*c, id as nat, body_spec, o as int, k as int)),
            decreases c.inner.points - k,
        {
            let ghost before_point = t.tr();
            let inner_pos = Coordinate::Grid { start: c.inner.start, stop: c.inner.stop, points: c.inner.points, index: k };
            if c.inner.actuator.as_str().unicode_len() > 0 {
                t.push(PlanCommand::MoveTo { device_id: c.inner.actuator.clone(), position: inner_pos });
            }
            let mut label = tag("nested_", id);
            push_str(&mut label, "_outer_");
            push_decimal(&mut label, o as u64);
            push_str(&mut label, "_inner_");
            push_decimal(&mut label, k as u64);
            proof {
                assert(label@ =~= tagged("nested_"@, id as nat, "_outer_"@ + decimal(o as nat) + "_inner_"@ + decimal(k as nat)));
            }
            t.push(checkpoint_cmd(label));
            let ghost mid = t.tr();
            let body = body_translation(g, bodies, &bodies[i], fuel);
            t.absorb(body);
            let ghost m0 = Map::<Seq<char>, Coordinate>::empty();
            let ghost m1 = if c.outer.actuator@.len() == 0 {
                m0
            } else {
                m0.insert(c.outer.actuator@, grid(c.outer.start, c.outer.stop, c.outer.points, o as int))
            };
            let ghost m2 = if c.inner.actuator@.len() == 0 {
                m1
            } else {
                m1.insert(c.inner.actuator@, grid(c.inner.start, c.inner.stop, c.inner.points, k as int))
            };
            let mut positions: Vec<(String, Coordinate)> = Vec::new();
            proof {
                assert(positions_map(positions@) == m0);
            }
            if c.outer.actuator.as_str().unicode_len() > 0 {
                let ghost pb = positions@;
                positions.push((c.outer.actuator.clone(), outer_pos));
                proof {
                    assert(positions@.drop_last() == pb);
                    assert(positions@.last().0@ == c.outer.actuator@);
                    assert(positions@.last().1 == grid(c.outer.start, c.outer.stop, c.outer.points, o as int));
                    assert(positions_map(positions@) == positions_map(pb).insert(positions@.last().0@, positions@.last().1));
                    assert(c.outer.actuator@.len() != 0);
                    assert(positions_map(positions@) == m1);
                }
            }
            proof {
                assert(positions_map(positions@) == m1);
            }
            if c.inner.actuator.as_str().unicode_len() > 0 {
                let ghost pb = positions@;
                positions.push((c.inner.actuator.clone(), inner_pos));
                proof {
                    assert(positions@.drop_last() == pb);
                    assert(positions@.last().0@ == c.inner.actuator@);
                    assert(positions_map(positions@) == positions_map(pb).insert(positions@.last().0@, positions@.last().1));
                }
            }
            proof {
                assert(positions_map(positions@) == m2);
            }
            let ghost pb3 = positions@;
            positions.push((string_of("_outer_idx"), Coordinate::Index(o)));
            proof {
                assert(positions@.drop_last() == pb3);
                assert(positions@.last().0@ == "_outer_idx"@);
                assert(positions_map(positions@) == m2.insert("_outer_idx"@, Coordinate::Index(o)));
            }
            let ghost pb4 = positions@;
            positions.push((string_of("_inner_idx"), Coordinate::Index(k)));
            proof {
                assert(positions@.drop_last() == pb4);
                assert(positions@.last().0@ == "_inner_idx"@);
                assert(positions_map(positions@) == m2.insert("_outer_idx"@, Coordinate::Index(o)).insert("_inner_idx"@, Coordinate::Index(k)));
                assert(positions_map(positions@) == nested_positions(*c, o as int, k as int));
            }
            t.push(PlanCommand::EmitEvent { stream: string_of("primary"), positions });
            proof {
                assert(mid =~= tr_cat(before_point, tr_steps(axis_move(c.inner.actuator@, grid(c.inner.start, c.inner.stop, c.inner.points, k as int))
                    + seq![checkpoint(tagged("nested_"@, id as nat, "_outer_"@ + decimal(o as nat) + "_inner_"@ + decimal(k as nat)))])));
                assert(t.tr() =~= tr_cat(head, nested_inner(*c, id as nat, body_spec, o as int, k as int + 1)));
            }
            k = k + 1;
        }
        let mut end = tag("nested_", id);
        push_str(&mut end, "_outer_");
        push_decimal(&mut end, o as u64);
        push_str(&mut end, "_end");
        proof {
            assert(end@ =~= tagged("nested_"@, id as nat, "_outer_"@ + decimal(o as nat) + "_end"@));
        }
        t.push(checkpoint_cmd(end));
        proof {
            assert(t.tr() =~= nested_outer(*c, id as nat, body_spec, o as int + 1));
        }
        o = o + 1;
    }
    t
}

/// Translate what node `i` does, apart from its start and end markers.
fn kind_translation(g: &GraphModel, bodies: &Vec<Vec<usize>>, i: usize, fuel: usize) -> (t: Translation)
    requires
        translation_ready(*g, bodies.deep_view()),
        i < g.nodes.len(),
    ensures
        t.wf(),
        t.tr() == kind_tr(*g, bodies.deep_view(), i as int, fuel as nat),
    decreases fuel, 0int, 1int,
{
    let id = g.nodes[i].id;
    let mut t = Translation::new();
    match &g.nodes[i].node {
        ExperimentNode::Scan { actuator, start, stop, points } => {
            if *points > 0 && actuator.as_str().unicode_len() > 0 {
                t.add_mover(actuator.clone());
                scan_translation(&mut t, actuator, *start, *stop, *points, id);
                proof {
                    assert(t.tr() =~= kind_tr(*g, bodies.deep_view(), i as int, fuel as nat));
                }
            }
        },
        ExperimentNode::Acquire(c) => {
            if c.detector.as_str().unicode_len() > 0 {
                acquire_translation(&mut t, c);
                proof {
                    assert(t.tr() =~= kind_tr(*g, bodies.deep_view(), i as int, fuel as nat));
                }
            }
        },
        ExperimentNode::Move(c) => {
            if c.device.as_str().unicode_len() > 0 {
                t.add_mover(c.device.clone());
                t.push(PlanCommand::MoveTo { device_id: c.device.clone(), position: Coordinate::Value(c.position) });
                if c.wait_settled {
                    t.push(checkpoint_cmd(tag_rest("node_", id, "_settled")));
                }
                proof {
                    assert(t.tr() =~= kind_tr(*g, bodies.deep_view(), i as int, fuel as nat));
                }
            }
        },
        ExperimentNode::Wait { condition } => {
            t.push(PlanCommand::Wait { milliseconds: wait_milliseconds(condition) });
            proof {
                assert(t.tr() =~= kind_tr(*g, bodies.deep_view(), i as int, fuel as nat));
            }
        },
        ExperimentNode::Loop(c) => {
            if fuel > 0 {
                let iterations = termination_iterations(&c.termination);
                let l = loop_translation(g, bodies, i, iterations, fuel - 1);
                t.absorb(l);
                proof {
                    assert(t.tr() =~= kind_tr(*g, bodies.deep_view(), i as int, fuel as nat));
                }
            }
        },
        ExperimentNode::NestedScan(c) => {
            if fuel > 0 {
                if c.outer.actuator.as_str().unicode_len() > 0 {
                    t.add_mover(c.outer.actuator.clone());
                }
                if c.inner.actuator.as_str().unicode_len() > 0 {
                    t.add_mover(c.inner.actuator.clone());
                }
                let ghost head = t.tr();
                let grid_part = nested_translation(g, bodies, i, c, fuel - 1);
                t.absorb(grid_part);
                proof {
                    assert(t.tr() =~= kind_tr(*g, bodies.deep_view(), i as int, fuel as nat));
                }
            }
        },
        ExperimentNode::AdaptiveScan(c) => {
            if c.scan.points > 0 && c.scan.actuator.as_str().unicode_len() > 0 {
                adaptive_translation(&mut t, c, id);
                proof {
                    assert(t.tr() =~= kind_tr(*g, bodies.deep_view(), i as int, fuel as nat));
                }
            }
        },
    }
    t
}

impl PlanCommand {
    /// A copy of this command.
    pub fn duplicate(&self) -> (r: PlanCommand)
        ensures
            r@ == self@,
    {
        match self {
            PlanCommand::Checkpoint { label } => PlanCommand::Checkpoint { label: label.clone() },
            PlanCommand::MoveTo { device_id, position } => PlanCommand::MoveTo { device_id: device_id.clone(), position: *position },
            PlanCommand::EmitEvent { stream, positions } => {
                let mut copy: Vec<(String, Coordinate)> = Vec::new();
                let mut k: usize = 0;
                while k < positions.len()
                    invariant
                        k <= positions.len(),
                        copy.len() == k,
                        forall|q: int| 0 <= q < k ==> (#[trigger] copy@[q]).0@ == positions@[q].0@ && copy@[q].1 == positions@[q].1,
                    decreases positions.len() - k,
                {
                    copy.push((positions[k].0.clone(), positions[k].1));
                    k = k + 1;
                }
                proof {
                    lemma_positions_map_same(copy@, positions@);
                }
                PlanCommand::EmitEvent { stream: stream.clone(), positions: copy }
            },
            PlanCommand::SetParameter { device_id, parameter, value } => PlanCommand::SetParameter {
                device_id: device_id.clone(),
                parameter: parameter.clone(),
                value: *value,
            },
            PlanCommand::Trigger { device_id } => PlanCommand::Trigger { device_id: device_id.clone() },
            PlanCommand::Read { device_id } => PlanCommand::Read { device_id: device_id.clone() },
            PlanCommand::Wait { milliseconds } => PlanCommand::Wait { milliseconds: *milliseconds },
        }
    }
}

pub proof fn lemma_positions_map_same(a: Seq<(String, Coordinate)>, b: Seq<(String, Coordinate)>)
    requires
        a.len() == b.len(),
        forall|q: int| 0 <= q < a.len() ==> (#[trigger] a[q]).0@ == b[q].0@ && a[q].1 == b[q].1,
    ensures
        positions_map(a) == positions_map(b),
    decreases a.len(),
{
    if a.len() > 0 {
        lemma_positions_map_same(a.drop_last(), b.drop_last());
        assert(a.last() == a[a.len() - 1]);
    }
}

/// Loop and nested-scan nodes carry a body.
pub open spec fn has_body(node: ExperimentNode) -> bool {
    match node {
        ExperimentNode::Loop(..) | ExperimentNode::NestedScan(..) => true,
        _ => false,
    }
}

/// `body` lists the body of loop `l` as `find_loop_body_nodes` produces it.
pub open spec fn is_body_listing(wires: Seq<Wire>, n: int, l: int, body: Seq<usize>) -> bool {
    &&& distinct_nodes(body, n)
    &&& forall|v: int| 0 <= v < n ==> (lists(body, v) <==> in_loop_body(wires, l, v))
    &&& is_acyclic(adjacency(inner_wires(wires, body_members(wires, n, l)), n)) ==> predecessors_first(
        adjacency(inner_wires(wires, body_members(wires, n, l)), n),
        body,
    )
    &&& !is_acyclic(adjacency(inner_wires(wires, body_members(wires, n, l)), n)) ==> forall|i: int, j: int|
        0 <= i < j < body.len() ==> body[i] < body[j]
}

/// Body lists for every node: the body of each loop or nested scan, nothing for the others.
pub open spec fn bodies_ok(g: GraphModel, bodies: Seq<Seq<usize>>) -> bool {
    &&& bodies.len() == g.nodes.len()
    &&& forall|l: int|
        0 <= l < g.nodes.len() ==> if has_body(#[trigger] g.nodes@[l].node) {
            is_body_listing(g.wires@, g.nodes.len() as int, l, bodies[l])
        } else {
            bodies[l].len() == 0
        }
}

/// Node `v` belongs to the body of some loop or nested scan.
pub open spec fn in_some_body(g: GraphModel, v: int) -> bool {
    exists|l: int| 0 <= l < g.nodes.len() && has_body(#[trigger] g.nodes@[l].node) && in_loop_body(g.wires@, l, v)
}

/// The translation of the first `k` nodes of `ord`, skipping body nodes.
pub open spec fn plan_tr(g: GraphModel, bodies: Seq<Seq<usize>>, ord: Seq<usize>, k: int, fuel: nat) -> Tr
    decreases k,
{
    if k <= 0 {
        tr_empty()
    } else if in_some_body(g, ord[k - 1] as int) {
        plan_tr(g, bodies, ord, k - 1, fuel)
    } else {
        tr_cat(plan_tr(g, bodies, ord, k - 1, fuel), node_tr(g, bodies, ord[k - 1] as int, fuel))
    }
}

/// The bodies of the graph's loops and nested scans, one list per node
/// (empty for the other nodes).
pub fn loop_bodies(g: &GraphModel) -> (bodies: Vec<Vec<usize>>)
    requires
        g.wf(),
    ensures
        bodies_ok(*g, bodies.deep_view()),
{
    let n = g.nodes.len();
    let mut bodies: Vec<Vec<usize>> = Vec::new();
    let mut l: usize = 0;
    while l < n
        invariant
            g.wf(),
            n == g.nodes.len(),
            l <= n,
            bodies.len() == l,
            forall|j: int|
                0 <= j < l ==> if has_body(#[trigger] g.nodes@[j].node) {
                    is_body_listing(g.wires@, n as int, j, bodies.deep_view()[j])
                } else {
                    bodies.deep_view()[j].len() == 0
                },
        decreases n - l,
    {
        let ghost before = bodies.deep_view();
        let body = match &g.nodes[l].node {
            ExperimentNode::Loop(..) | ExperimentNode::NestedScan(..) => find_loop_body_nodes(n, &g.wires, l),
            _ => Vec::new(),
        };
        proof {
            assert(body.deep_view() =~= body@);
        }
        bodies.push(body);
        proof {
            assert(bodies.deep_view() =~= before.push(body@));
        }
        l = l + 1;
    }
    bodies
}

/// Node `v` belongs to the body of some loop node.
pub open spec fn in_loop_set(g: GraphModel, v: int) -> bool {
    exists|l: int| 0 <= l < g.nodes.len() && (#[trigger] g.nodes@[l].node is Loop) && in_loop_body(g.wires@, l, v)
}

/// Does node `v` belong to the body of some loop node?
pub fn is_loop_body_node(g: &GraphModel, v: usize) -> (r: bool)
    requires
        g.wf(),
        v < g.nodes.len(),
    ensures
        r == in_loop_set(*g, v as int),
{
    let n = g.nodes.len();
    let mut q: usize = 0;
    while q < n
        invariant
            g.wf(),
            n == g.nodes.len(),
            v < n,
            q <= n,
            forall|j: int| 0 <= j < q ==> !((#[trigger] g.nodes@[j].node is Loop) && in_loop_body(g.wires@, j, v as int)),
        decreases n - q,
    {
        let is_loop = match &g.nodes[q].node {
            ExperimentNode::Loop(..) => true,
            _ => false,
        };
        if is_loop {
            let body = find_loop_body_nodes(n, &g.wires, q);
            let mut hit = false;
            let mut k: usize = 0;
            while k < body.len()
                invariant
                    k <= body.len(),
                    hit == exists|j: int| 0 <= j < k && body@[j] == v,
                decreases body.len() - k,
            {
                if body[k] == v {
                    hit = true;
                }
                k = k + 1;
            }
            proof {
                assert(hit == lists(body@, v as int));
            }
            if hit {
                proof {
                    assert(g.nodes@[q as int].node is Loop && in_loop_body(g.wires@, q as int, v as int));
                }
                return true;
            }
        }
        q = q + 1;
    }
    false
}

/// Pushing a string pushes its characters onto the names.
proof fn lemma_names_push(a: Seq<String>, x: String)
    ensures
        names_of(a.push(x)) == names_of(a).push(x@),
        names_of(a.push(x)).to_set() == names_of(a).to_set().insert(x@),
{
    a.lemma_push_map_commute(|s: String| s@, x);
    names_of(a).lemma_push_to_set_commute(x@);
}

/// Keep the first copy of each name.
fn distinct_names(v: &Vec<String>) -> (r: Vec<String>)
    ensures
        names_of(r@).no_duplicates(),
        names_of(r@).to_set() == names_of(v@).to_set(),
{
    let mut r: Vec<String> = Vec::new();
    let mut k: usize = 0;
    while k < v.len()
        invariant
            k <= v.len(),
            names_of(r@).no_duplicates(),
            names_of(r@).to_set() == names_of(v@.take(k as int)).to_set(),
        decreases v.len() - k,
    {
        let mut seen = false;
        let mut q: usize = 0;
        while q < r.len()
            invariant
                k < v.len(),
                q <= r.len(),
                seen == exists|j: int| 0 <= j < q && r@[j]@ == v@[k as int]@,
            decreases r.len() - q,
        {
            if r[q] == v[k] {
                seen = true;
            }
            q = q + 1;
        }
        let ghost before = r@;
        proof {
            assert(v@.take(k as int + 1) =~= v@.take(k as int).push(v@[k as int]));
            lemma_names_push(v@.take(k as int), v@[k as int]);
        }
        if !seen {
            r.push(v[k].clone());
            proof {
                lemma_names_push(before, v@[k as int]);
                assert(!names_of(before).contains(v@[k as int]@)) by {
                    if names_of(before).contains(v@[k as int]@) {
                        let j = choose|j: int| 0 <= j < names_of(before).len() && names_of(before)[j] == v@[k as int]@;
                        assert(r@[j]@ == v@[k as int]@);
                    }
                }
            }
        } else {
            proof {
                let j = choose|j: int| 0 <= j < r.len() && r@[j]@ == v@[k as int]@;
                assert(names_of(r@)[j] == v@[k as int]@);
                assert(names_of(r@).to_set().contains(v@[k as int]@));
                assert(names_of(r@).to_set() =~= names_of(v@.take(k as int + 1)).to_set());
            }
        }
        k = k + 1;
    }
    proof {
        assert(v@.take(v.len() as int) =~= v@);
    }
    r
}

/// A copy of a list of names.
fn copy_names(v: &Vec<String>) -> (r: Vec<String>)
    ensures
        names_of(r@) == names_of(v@),
{
    let mut r: Vec<String> = Vec::new();
    let mut k: usize = 0;
    while k < v.len()
        invariant
            k <= v.len(),
            names_of(r@) == names_of(v@.take(k as int)),
        decreases v.len() - k,
    {
        let ghost before = r@;
        r.push(v[k].clone());
        proof {
            lemma_names_push(before, v@[k as int]);
            assert(v@.take(k as int + 1) =~= v@.take(k as int).push(v@[k as int]));
            lemma_names_push(v@.take(k as int), v@[k as int]);
        }
        k = k + 1;
    }
    proof {
        assert(v@.take(v.len() as int) =~= v@);
    }
    r
}

/// A plan generated from an experiment graph: commands handed out one at a time.
pub struct GraphPlan {
    commands: Vec<PlanCommand>,
    current_idx: usize,
    total_events: usize,
    movers: Vec<String>,
    detectors: Vec<String>,
}

impl GraphPlan {
    /// The plan's steps.
    pub closed spec fn steps(&self) -> Seq<Step> {
        steps_of(self.commands@)
    }

    /// Number of commands already handed out.
    pub closed spec fn cursor(&self) -> nat {
        self.current_idx as nat
    }

    /// The plan's actuators.
    pub closed spec fn mover_names(&self) -> Seq<Seq<char>> {
        names_of(self.movers@)
    }

    /// The plan's detectors.
    pub closed spec fn detector_names(&self) -> Seq<Seq<char>> {
        names_of(self.detectors@)
    }

    /// Number of events the plan emits.
    pub closed spec fn event_total(&self) -> nat {
        self.total_events as nat
    }

    /// Translate a graph into an executable plan. Nodes are taken in Kahn's
    /// order from the root list (a topological order); nodes inside a loop or nested-scan body are
    /// translated as part of that body (unrolled), not on their own.
    pub fn from_graph(g: &GraphModel) -> (result: Result<GraphPlan, TranslationError>)
        requires
            g.wf(),
        ensures
            (result matches Err(e) && e == TranslationError::EmptyGraph) <==> g.nodes.len() == 0,
            (result matches Err(e) && e == TranslationError::NoRootNodes) <==> g.nodes.len() > 0
                && forall|v: int| 0 <= v < g.nodes.len() ==> has_input(g.wires@, v),
            (result matches Err(e) && e == TranslationError::CycleDetected) <==> g.nodes.len() > 0
                && (exists|v: int| 0 <= v < g.nodes.len() && !has_input(g.wires@, v)) && !g.acyclic(),
            result is Ok <==> g.nodes.len() > 0 && g.acyclic(),
            result matches Ok(plan) ==> {
                &&& plan.cursor() == 0
                &&& plan.event_total() == count_emits(plan.steps())
                &&& plan.mover_names().no_duplicates()
                &&& plan.detector_names().no_duplicates()
                &&& exists|ord: Seq<usize>, bodies: Seq<Seq<usize>>| {
                    &&& is_topological_order(g.adj(), ord)
                    &&& is_kahn_order(*g, ord)
                    &&& bodies_ok(*g, bodies)
                    &&& plan.steps() == plan_tr(*g, bodies, ord, ord.len() as int, g.nodes.len() as nat).steps
                    &&& plan.mover_names().to_set() == plan_tr(*g, bodies, ord, ord.len() as int, g.nodes.len() as nat).movers.to_set()
                    &&& plan.detector_names().to_set() == plan_tr(*g, bodies, ord, ord.len() as int, g.nodes.len() as nat).detectors.to_set()
                }
            },
    {
        let n = g.nodes.len();
        if n == 0 {
            return Err(TranslationError::EmptyGraph);
        }
        let (adj, roots) = match build_adjacency(n, &g.wires) {
            Ok(p) => p,
            Err(e) => {
                return Err(e);
            },
        };
        proof {
            lemma_root_list_valid(g.wires@, n as int, roots@);
            lemma_adjacency_edge_total(g.wires@, n as int);
            assert(g.wires@.len() == g.wires.len());
            assert(adj.len() == n);
        }
        if roots.len() == 0 {
            proof {
                assert forall|v: int| 0 <= v < n implies has_input(g.wires@, v) by {
                    if !has_input(g.wires@, v) {
                        assert(lists(roots@, v));
                    }
                }
                if g.acyclic() {
                    let s = lemma_acyclic_has_source(g.adj());
                    lemma_adjacency_sources(g.wires@, n as int, s);
                }
            }
            return Err(TranslationError::NoRootNodes);
        }
        proof {
            assert(!has_input(g.wires@, roots[0] as int));
        }
        let sorted = match topological_sort(&adj, &roots, n) {
            Ok(s) => s,
            Err(e) => {
                return Err(e);
            },
        };
        let bodies = loop_bodies(g);
        let mut member: Vec<bool> = Vec::new();
        let mut v: usize = 0;
        while v < n
            invariant
                g.wf(),
                n == g.nodes.len(),
                bodies_ok(*g, bodies.deep_view()),
                v <= n,
                member.len() == v,
                forall|x: int| 0 <= x < v ==> member[x] == in_some_body(*g, x),
            decreases n - v,
        {
            let mut found = false;
            let mut q: usize = 0;
            while q < n
                invariant
                    g.wf(),
                    n == g.nodes.len(),
                    v < n,
                    bodies_ok(*g, bodies.deep_view()),
                    q <= n,
                    found == exists|j: int| 0 <= j < q && has_body(#[trigger] g.nodes@[j].node) && in_loop_body(g.wires@, j, v as int),
                decreases n - q,
            {
                let is_loop = match &g.nodes[q].node {
                    ExperimentNode::Loop(..) | ExperimentNode::NestedScan(..) => true,
                    _ => false,
                };
                if is_loop {
                    let body = &bodies[q];
                    let mut k: usize = 0;
                    let mut hit = false;
                    proof {
                        assert(bodies.deep_view()[q as int] == body@);
                    }
                    while k < body.len()
                        invariant
                            k <= body.len(),
                            hit == exists|j: int| 0 <= j < k && body@[j] == v,
                        decreases body.len() - k,
                    {
                        if body[k] == v {
                            hit = true;
                        }
                        k = k + 1;
                    }
                    proof {
                        assert(hit == lists(body@, v as int));
                    }
                    if hit {
                        found = true;
                    }
                }
                q = q + 1;
            }
            member.push(found);
            v = v + 1;
        }
        proof {
            assert forall|l: int, k: int| 0 <= l < bodies.deep_view().len() && 0 <= k < bodies.deep_view()[l].len() implies #[trigger] bodies.deep_view()[l][k] < g.nodes.len() by {
                if has_body(g.nodes@[l].node) {
                } else {
                }
            }
        }
        let mut t = Translation::new();
        let mut i: usize = 0;
        while i < sorted.len()
            invariant
                translation_ready(*g, bodies.deep_view()),
                bodies_ok(*g, bodies.deep_view()),
                n == g.nodes.len(),
                sorted.len() == n,
                distinct_nodes(sorted@, n as int),
                member.len() == n,
                forall|x: int| 0 <= x < n ==> member[x] == in_some_body(*g, x),
                i <= sorted.len(),
                t.wf(),
                t.tr() == plan_tr(*g, bodies.deep_view(), sorted@, i as int, n as nat),
            decreases sorted.len() - i,
        {
            let x = sorted[i];
            if !member[x] {
                let part = node_translation(g, &bodies, x, n);
                t.absorb(part);
            }
            i = i + 1;
        }
        let movers = distinct_names(&t.movers);
        let detectors = distinct_names(&t.detectors);
        let plan = GraphPlan { commands: t.commands, current_idx: 0, total_events: t.events, movers, detectors };
        proof {
            assert(is_topological_order(g.adj(), sorted@));
            assert(is_root_list(g.wires@, n as int, roots@));
            assert(is_kahn_order(*g, sorted@));
        }
        Ok(plan)
    }

    /// Plan type identifier.
    pub fn plan_type(&self) -> (r: &'static str)
        ensures
            r@ == "graph_plan"@,
    {
        "graph_plan"
    }

    /// Human-readable plan name.
    pub fn plan_name(&self) -> (r: &'static str)
        ensures
            r@ == "Graph Plan"@,
    {
        "Graph Plan"
    }

    /// The actuators the plan moves, each once.
    pub fn movers(&self) -> (r: Vec<String>)
        ensures
            names_of(r@) == self.mover_names(),
    {
        copy_names(&self.movers)
    }

    /// The detectors the plan reads, each once.
    pub fn detectors(&self) -> (r: Vec<String>)
        ensures
            names_of(r@) == self.detector_names(),
    {
        copy_names(&self.detectors)
    }

    /// Number of events the plan emits.
    pub fn num_points(&self) -> (r: usize)
        ensures
            r == self.event_total(),
    {
        self.total_events
    }

    /// All commands of the plan.
    pub fn commands(&self) -> (r: &Vec<PlanCommand>)
        ensures
            steps_of(r@) == self.steps(),
    {
        &self.commands
    }

    /// Hand out the next command, or `None` once all were handed out.
    pub fn next_command(&mut self) -> (r: Option<PlanCommand>)
        ensures
            final(self).steps() == old(self).steps(),
            old(self).cursor() < old(self).steps().len() ==> (r matches Some(c) && c@ == old(self).steps()[old(self).cursor() as int]
                && final(self).cursor() == old(self).cursor() + 1),
            old(self).cursor() >= old(self).steps().len() ==> (r is None && final(self).cursor() == old(self).cursor()),
            final(self).event_total() == old(self).event_total(),
            final(self).mover_names() == old(self).mover_names(),
            final(self).detector_names() == old(self).detector_names(),
    {
        if self.current_idx >= self.commands.len() {
            return None;
        }
        let c = self.commands[self.current_idx].duplicate();
        self.current_idx = self.current_idx + 1;
        Some(c)
    }

    /// Start handing out commands from the beginning again.
    pub fn reset(&mut self)
        ensures
            final(self).cursor() == 0,
            final(self).steps() == old(self).steps(),
            final(self).event_total() == old(self).event_total(),
            final(self).mover_names() == old(self).mover_names(),
            final(self).detector_names() == old(self).detector_names(),
    {
        self.current_idx = 0;
    }
}

/// A grid coordinate whose index is below `points`.
pub open spec fn grid_index_below(c: Coordinate, points: u32) -> bool {
    match c {
        Coordinate::Grid { index, .. } => index < points,
        _ => false,
    }
}

proof fn lemma_scan_points_layout(actuator: Seq<char>, start: Real, stop: Real, points: u32, id: nat, k: int)
    requires
        0 <= k <= points,
    ensures
        scan_points(actuator, start, stop, points, id, k).len() == 3 * k,
        forall|j: int| 0 <= j < k ==> {
            &&& #[trigger] scan_points(actuator, start, stop, points, id, k)[3 * j] == Step::MoveTo {
                device: actuator,
                position: Coordinate::Grid { start, stop, points, index: j as u32 },
            }
            &&& scan_points(actuator, start, stop, points, id, k)[3 * j + 2] == Step::EmitEvent {
                stream: "primary"@,
                positions: Map::<Seq<char>, Coordinate>::empty().insert(
                    actuator,
                    Coordinate::Grid { start, stop, points, index: j as u32 },
                ),
            }
        },
    decreases k,
{
    if k > 0 {
        lemma_scan_points_layout(actuator, start, stop, points, id, k - 1);
        let prev = scan_points(actuator, start, stop, points, id, k - 1);
        let cur = scan_points(actuator, start, stop, points, id, k);
        assert forall|j: int| 0 <= j < k implies {
            &&& #[trigger] cur[3 * j] == Step::MoveTo {
                device: actuator,
                position: Coordinate::Grid { start, stop, points, index: j as u32 },
            }
            &&& cur[3 * j + 2] == Step::EmitEvent {
                stream: "primary"@,
                positions: Map::<Seq<char>, Coordinate>::empty().insert(
                    actuator,
                    Coordinate::Grid { start, stop, points, index: j as u32 },
                ),
            }
        } by {
            if j < k - 1 {
                assert(cur[3 * j] == prev[3 * j]);
                assert(cur[3 * j + 2] == prev[3 * j + 2]);
            }
        }
    }
}

/// A plain scan visits its grid in order, one point per step: the `j`-th
/// move (counted from 0) goes to grid index `j` and the `j`-th event records
/// that same index, for every `j` below the point count, so the first point
/// is the start (index 0) and the last the stop (index `points - 1`); no
/// move reaches index `points`.
pub proof fn lemma_scan_visits_grid_in_order(g: GraphModel, bodies: Seq<Seq<usize>>, i: int, fuel: nat)
    requires
        0 <= i < g.nodes.len(),
        g.nodes@[i].node is Scan,
        g.nodes@[i].node->Scan_points > 0,
        g.nodes@[i].node->Scan_actuator@.len() > 0,
    ensures
        ({
            let steps = kind_tr(g, bodies, i, fuel).steps;
            let actuator = g.nodes@[i].node->Scan_actuator@;
            let start = g.nodes@[i].node->Scan_start;
            let stop = g.nodes@[i].node->Scan_stop;
            let points = g.nodes@[i].node->Scan_points;
            &&& steps.len() == 3 * points
            &&& forall|j: int| 0 <= j < points ==> {
                &&& #[trigger] steps[3 * j] == Step::MoveTo {
                    device: actuator,
                    position: Coordinate::Grid { start, stop, points, index: j as u32 },
                }
                &&& steps[3 * j + 2] == Step::EmitEvent {
                    stream: "primary"@,
                    positions: Map::<Seq<char>, Coordinate>::empty().insert(
                        actuator,
                        Coordinate::Grid { start, stop, points, index: j as u32 },
                    ),
                }
            }
            &&& forall|j: int| 0 <= j < steps.len() && #[trigger] steps[j] is MoveTo ==> grid_index_below(
                steps[j]->MoveTo_position,
                points,
            )
        }),
{
    let actuator = g.nodes@[i].node->Scan_actuator;
    let start = g.nodes@[i].node->Scan_start;
    let stop = g.nodes@[i].node->Scan_stop;
    let points = g.nodes@[i].node->Scan_points;
    let id = g.nodes@[i].id as nat;
    lemma_scan_points_layout(actuator@, start, stop, points, id, points as int);
    lemma_scan_moves_in_range(actuator@, start, stop, points, id, points as int);
    assert(kind_tr(g, bodies, i, fuel).steps == scan_points(actuator@, start, stop, points, id, points as int));
}

proof fn lemma_scan_moves_in_range(actuator: Seq<char>, start: Real, stop: Real, points: u32, id: nat, k: int)
    requires
        0 <= k <= points,
    ensures
        forall|j: int| 0 <= j < scan_points(actuator, start, stop, points, id, k).len() && #[trigger] scan_points(actuator, start, stop, points, id, k)[j] is MoveTo
            ==> grid_index_below(scan_points(actuator, start, stop, points, id, k)[j]->MoveTo_position, points),
    decreases k,
{
    if k > 0 {
        lemma_scan_moves_in_range(actuator, start, stop, points, id, k - 1);
        lemma_scan_points_layout(actuator, start, stop, points, id, k - 1);
        let prev = scan_points(actuator, start, stop, points, id, k - 1);
        let cur = scan_points(actuator, start, stop, points, id, k);
        assert forall|j: int| 0 <= j < cur.len() && #[trigger] cur[j] is MoveTo implies grid_index_below(cur[j]->MoveTo_position, points) by {
            if j < prev.len() {
                assert(cur[j] == prev[j]);
            }
        }
    }
}

/// The event of a nested scan at outer point `o` and inner point `k`
/// records each axis at its own grid index: the outer actuator at index `o`
/// of the outer grid, the inner actuator at index `k` of the inner grid, and
/// the two indices themselves.
pub proof fn lemma_nested_event_positions(c: NestedScanConfig, o: int, k: int)
    requires
        c.outer.actuator@.len() > 0,
        c.inner.actuator@.len() > 0,
        c.outer.actuator@ != c.inner.actuator@,
        c.outer.actuator@ != "_outer_idx"@ && c.outer.actuator@ != "_inner_idx"@,
        c.inner.actuator@ != "_outer_idx"@ && c.inner.actuator@ != "_inner_idx"@,
    ensures
        nested_positions(c, o, k)[c.outer.actuator@] == (Coordinate::Grid {
            start: c.outer.start,
            stop: c.outer.stop,
            points: c.outer.points,
            index: o as u32,
        }),
        nested_positions(c, o, k)[c.inner.actuator@] == (Coordinate::Grid {
            start: c.inner.start,
            stop: c.inner.stop,
            points: c.inner.points,
            index: k as u32,
        }),
        nested_positions(c, o, k)["_outer_idx"@] == Coordinate::Index(o as u32),
        nested_positions(c, o, k)["_inner_idx"@] == Coordinate::Index(k as u32),
{
    reveal_strlit("_outer_idx");
    reveal_strlit("_inner_idx");
    assert("_outer_idx"@ != "_inner_idx"@) by {
        assert("_outer_idx"@[1] != "_inner_idx"@[1]);
    }
}

proof fn lemma_adaptive_points_layout(c: AdaptiveScanConfig, id: nat, k: int)
    requires
        0 <= k <= c.scan.points,
    ensures
        adaptive_points(c, id, k).len() == 3 * k,
        forall|j: int| 0 <= j < k ==> #[trigger] adaptive_points(c, id, k)[3 * j] == (Step::MoveTo {
            device: c.scan.actuator@,
            position: Coordinate::Grid { start: c.scan.start, stop: c.scan.stop, points: c.scan.points, index: j as u32 },
        }),
    decreases k,
{
    if k > 0 {
        lemma_adaptive_points_layout(c, id, k - 1);
        let prev = adaptive_points(c, id, k - 1);
        let cur = adaptive_points(c, id, k);
        assert forall|j: int| 0 <= j < k implies #[trigger] cur[3 * j] == (Step::MoveTo {
            device: c.scan.actuator@,
            position: Coordinate::Grid { start: c.scan.start, stop: c.scan.stop, points: c.scan.points, index: j as u32 },
        }) by {
            if j < k - 1 {
                assert(cur[3 * j] == prev[3 * j]);
            }
        }
    }
}

/// An adaptive scan also visits its grid in order: after its start marker,
/// the `j`-th move goes to grid index `j`, for every `j` below the point
/// count, from the start (index 0) to the stop (index `points - 1`).
pub proof fn lemma_adaptive_scan_visits_grid_in_order(g: GraphModel, bodies: Seq<Seq<usize>>, i: int, fuel: nat)
    requires
        0 <= i < g.nodes.len(),
        g.nodes@[i].node is AdaptiveScan,
        g.nodes@[i].node->AdaptiveScan_0.scan.points > 0,
        g.nodes@[i].node->AdaptiveScan_0.scan.actuator@.len() > 0,
    ensures
        ({
            let c = g.nodes@[i].node->AdaptiveScan_0;
            let steps = kind_tr(g, bodies, i, fuel).steps;
            forall|j: int| 0 <= j < c.scan.points ==> #[trigger] steps[1 + 3 * j] == (Step::MoveTo {
                device: c.scan.actuator@,
                position: Coordinate::Grid { start: c.scan.start, stop: c.scan.stop, points: c.scan.points, index: j as u32 },
            })
        }),
{
    let c = g.nodes@[i].node->AdaptiveScan_0;
    let id = g.nodes@[i].id as nat;
    lemma_adaptive_points_layout(c, id, c.scan.points as int);
    let pts = adaptive_points(c, id, c.scan.points as int);
    let head = seq![checkpoint(tagged("adaptive_"@, id, "_start"@))];
    let steps = kind_tr(g, bodies, i, fuel).steps;
    assert forall|j: int| 0 <= j < c.scan.points implies #[trigger] steps[1 + 3 * j] == pts[3 * j] by {
        assert((head + pts)[1 + 3 * j] == pts[3 * j]);
    }
}

} // verus!
