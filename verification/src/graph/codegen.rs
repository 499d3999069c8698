//! Rhai script export of experiment graphs.
//!
//! The export is one-way: the graph is the source of truth, and the script is
//! a read-only artifact for learning and debugging. A script is built as a
//! sequence of pieces: text, and real numbers that the application renders
//! (as `{}` does, with one decimal place, or as seconds from milliseconds).

use vstd::prelude::*;
use crate::graph::nodes::{
    real_positive, AcquireConfig, AdaptiveAction, AdaptiveScanConfig, ExperimentNode, LoopTermination,
    MoveConfig, MoveMode, NestedScanConfig, Real, ThresholdOp, TriggerCondition, TriggerLogic,
    WaitCondition,
};
use crate::graph::nodes::{node_name_spec, LoopConfig};
use crate::graph::plan::{bodies_ok, has_body, in_loop_set, loop_bodies, translation_ready};
use crate::graph::reach::in_loop_body;
use crate::graph::structure::{
    build_adjacency, has_input, lemma_acyclic_has_source, lemma_adjacency_edge_total,
    is_kahn_order, is_root_list, lemma_adjacency_sources, lemma_root_list_valid, topological_sort, GraphModel,
};
use crate::graph::topo::{is_topological_order, lists};
use crate::clock::{is_rfc3339_utc_text, rfc3339_now};
use crate::text::{decimal, push_decimal, push_str, string_of};

verus! {

/// How a number is rendered.
#[derive(Clone, Copy, Debug, PartialEq, Eq, Structural)]
pub enum NumberStyle {
    /// As `{}` renders an `f64`.
    Plain,
    /// With one decimal place (`{:.1}`).
    OneDecimal,
    /// A number of milliseconds, shown in seconds: divided by 1000, then as `{}`.
    Seconds,
}

/// One piece of a script.
#[derive(Debug)]
pub enum ScriptPiece {
    Text(String),
    Number(NumberStyle, Real),
}

/// One element of a script's meaning: a character or a number to render.
pub enum ScriptToken {
    Char(char),
    Number(NumberStyle, Real),
}

/// The characters of a text as script tokens.
pub open spec fn txt(s: Seq<char>) -> Seq<ScriptToken> {
    s.map_values(|c: char| ScriptToken::Char(c))
}

/// A number to render.
pub open spec fn num(style: NumberStyle, x: Real) -> Seq<ScriptToken> {
    seq![ScriptToken::Number(style, x)]
}

/// Tokens of one piece.
pub open spec fn piece_tokens(p: ScriptPiece) -> Seq<ScriptToken> {
    match p {
        ScriptPiece::Text(s) => txt(s@),
        ScriptPiece::Number(style, x) => num(style, x),
    }
}

/// Tokens of a sequence of pieces.
pub open spec fn tokens_of(ps: Seq<ScriptPiece>) -> Seq<ScriptToken>
    decreases ps.len(),
{
    if ps.len() == 0 {
        Seq::empty()
    } else {
        tokens_of(ps.drop_last()) + piece_tokens(ps.last())
    }
}

proof fn lemma_tokens_append(a: Seq<ScriptPiece>, b: Seq<ScriptPiece>)
    ensures
        tokens_of(a + b) == tokens_of(a) + tokens_of(b),
    decreases b.len(),
{
    if b.len() == 0 {
        assert(a + b =~= a);
        assert(tokens_of(a) + tokens_of(b) =~= tokens_of(a));
    } else {
        lemma_tokens_append(a, b.drop_last());
        assert((a + b).drop_last() =~= a + b.drop_last());
        assert((a + b).last() == b.last());
        assert(tokens_of(a) + tokens_of(b) =~= tokens_of(a) + tokens_of(b.drop_last()) + piece_tokens(b.last()));
    }
}

/// Two spaces per level.
pub open spec fn indent_text(level: nat) -> Seq<char>
    decreases level,
{
    if level == 0 {
        Seq::empty()
    } else {
        indent_text((level - 1) as nat) + "  "@
    }
}

/// Indentation: two spaces per level.
pub fn indent_str(level: usize) -> (r: String)
    ensures
        r@ == indent_text(level as nat),
{
    let mut r = String::new();
    let mut k: usize = 0;
    while k < level
        invariant
            k <= level,
            r@ == indent_text(k as nat),
        decreases level - k,
    {
        push_str(&mut r, "  ");
        k = k + 1;
    }
    r
}

/// A script under construction.
#[derive(Debug)]
pub struct Script {
    pieces: Vec<ScriptPiece>,
}

impl Script {
    /// What the script says.
    pub closed spec fn tokens(&self) -> Seq<ScriptToken> {
        tokens_of(self.pieces@)
    }

    pub fn new() -> (s: Script)
        ensures
            s.tokens() == Seq::<ScriptToken>::empty(),
    {
        Script { pieces: Vec::new() }
    }

    /// The pieces, in order.
    pub fn pieces(&self) -> (r: &Vec<ScriptPiece>)
        ensures
            tokens_of(r@) == self.tokens(),
    {
        &self.pieces
    }

    fn push_piece(&mut self, p: ScriptPiece)
        ensures
            final(self).tokens() == old(self).tokens() + piece_tokens(p),
    {
        let ghost before = self.pieces@;
        self.pieces.push(p);
        proof {
            assert(self.pieces@.drop_last() =~= before);
        }
    }

    fn text(&mut self, s: &str)
        ensures
            final(self).tokens() == old(self).tokens() + txt(s@),
    {
        self.push_piece(ScriptPiece::Text(string_of(s)));
    }

    fn number(&mut self, style: NumberStyle, x: Real)
        ensures
            final(self).tokens() == old(self).tokens() + num(style, x),
    {
        self.push_piece(ScriptPiece::Number(style, x));
    }

    fn decimal(&mut self, n: u64)
        ensures
            final(self).tokens() == old(self).tokens() + txt(decimal(n as nat)),
    {
        let mut t = String::new();
        push_decimal(&mut t, n);
        proof {
            assert(t@ =~= decimal(n as nat));
        }
        self.push_piece(ScriptPiece::Text(t));
    }

    fn indent(&mut self, level: usize)
        ensures
            final(self).tokens() == old(self).tokens() + txt(indent_text(level as nat)),
    {
        self.push_piece(ScriptPiece::Text(indent_str(level)));
    }

    /// Append another script.
    fn append(&mut self, other: Script)
        ensures
            final(self).tokens() == old(self).tokens() + other.tokens(),
    {
        let mut o = other;
        proof {
            lemma_tokens_append(self.pieces@, o.pieces@);
        }
        self.pieces.append(&mut o.pieces);
    }
}

/// Scan code appended to `a`.
pub open spec fn scan_code(a: Seq<ScriptToken>, actuator: Seq<char>, start: Real, stop: Real, points: u32, indent: nat) -> Seq<ScriptToken> {
    let ind = txt(indent_text(indent));
    let bi = txt(indent_text(indent + 1));
    let act = txt(actuator);
    let p = txt(decimal(points as nat));
    if actuator.len() == 0 {
        a + ind + txt("// WARNING: Scan node has no actuator specified\n"@)
    } else if points == 0 {
        a + ind + txt("// WARNING: Scan has zero points - skipping\n"@)
    } else {
        let a1 = a + ind + txt("// Scan "@) + act + txt(" from "@) + num(NumberStyle::OneDecimal, start) + txt(" to "@)
            + num(NumberStyle::OneDecimal, stop) + txt(" in "@) + p + txt(" steps\n"@);
        let a2 = a1 + ind + txt("for i in 0.."@) + p + txt(" {\n"@);
        let a3 = if points > 1 {
            a2 + bi + txt("let pos = "@) + num(NumberStyle::Plain, start) + txt(" + ("@) + num(NumberStyle::Plain, stop)
                + txt(" - "@) + num(NumberStyle::Plain, start) + txt(") * i / ("@) + p + txt(" - 1);\n"@)
        } else {
            a2 + bi + txt("let pos = "@) + num(NumberStyle::Plain, start) + txt(";\n"@)
        };
        let a4 = a3 + bi + act + txt(".move_abs(pos);\n"@) + bi + act + txt(".wait_settled();\n"@);
        let a5 = a4 + bi + txt("yield_event(#{ \""@) + act + txt("\": pos });\n"@);
        a5 + ind + txt("}\n"@)
    }
}

/// Append the code of a scan node.
pub fn scan_to_rhai(s: &mut Script, actuator: &str, start: Real, stop: Real, points: u32, indent: usize)
    requires
        indent < usize::MAX,
    ensures
        final(s).tokens() == scan_code(old(s).tokens(), actuator@, start, stop, points, indent as nat),
{
    if actuator.unicode_len() == 0 {
        s.indent(indent);
        s.text("// WARNING: Scan node has no actuator specified\n");
        return;
    }
    if points == 0 {
        s.indent(indent);
        s.text("// WARNING: Scan has zero points - skipping\n");
        return;
    }
    s.indent(indent);
    s.text("// Scan ");
    s.text(actuator);
    s.text(" from ");
    s.number(NumberStyle::OneDecimal, start);
    s.text(" to ");
    s.number(NumberStyle::OneDecimal, stop);
    s.text(" in ");
    s.decimal(points as u64);
    s.text(" steps\n");
    s.indent(indent);
    s.text("for i in 0..");
    s.decimal(points as u64);
    s.text(" {\n");
    if points > 1 {
        s.indent(indent + 1);
        s.text("let pos = ");
        s.number(NumberStyle::Plain, start);
        s.text(" + (");
        s.number(NumberStyle::Plain, stop);
        s.text(" - ");
        s.number(NumberStyle::Plain, start);
        s.text(") * i / (");
        s.decimal(points as u64);
        s.text(" - 1);\n");
    } else {
        s.indent(indent + 1);
        s.text("let pos = ");
        s.number(NumberStyle::Plain, start);
        s.text(";\n");
    }
    s.indent(indent + 1);
    s.text(actuator);
    s.text(".move_abs(pos);\n");
    s.indent(indent + 1);
    s.text(actuator);
    s.text(".wait_settled();\n");
    s.indent(indent + 1);
    s.text("yield_event(#{ \"");
    s.text(actuator);
    s.text("\": pos });\n");
    s.indent(indent);
    s.text("}\n");
}

/// Move code appended to `a`.
pub open spec fn move_code(a: Seq<ScriptToken>, c: MoveConfig, indent: nat) -> Seq<ScriptToken> {
    let ind = txt(indent_text(indent));
    let dev = txt(c.device@);
    if c.device@.len() == 0 {
        a + ind + txt("// WARNING: Move node has no device specified\n"@)
    } else {
        let a1 = a + ind + txt("// Move "@) + dev + txt(
            if c.mode == MoveMode::Absolute {
                " to absolute position "@
            } else {
                " by relative distance "@
            },
        ) + num(NumberStyle::Plain, c.position) + txt("\n"@);
        let a2 = a1 + ind + dev + txt(
            if c.mode == MoveMode::Absolute {
                ".move_abs("@
            } else {
                ".move_rel("@
            },
        ) + num(NumberStyle::Plain, c.position) + txt(");\n"@);
        if c.wait_settled {
            a2 + ind + dev + txt(".wait_settled();\n"@)
        } else {
            a2
        }
    }
}

/// Append the code of a move node.
pub fn move_to_rhai(s: &mut Script, c: &MoveConfig, indent: usize)
    ensures
        final(s).tokens() == move_code(old(s).tokens(), *c, indent as nat),
{
    let dev = c.device.as_str();
    if dev.unicode_len() == 0 {
        s.indent(indent);
        s.text("// WARNING: Move node has no device specified\n");
        return;
    }
    let absolute = match c.mode {
        MoveMode::Absolute => true,
        MoveMode::Relative => false,
    };
    s.indent(indent);
    s.text("// Move ");
    s.text(dev);
    if absolute {
        s.text(" to absolute position ");
    } else {
        s.text(" by relative distance ");
    }
    s.number(NumberStyle::Plain, c.position);
    s.text("\n");
    s.indent(indent);
    s.text(dev);
    if absolute {
        s.text(".move_abs(");
    } else {
        s.text(".move_rel(");
    }
    s.number(NumberStyle::Plain, c.position);
    s.text(");\n");
    if c.wait_settled {
        s.indent(indent);
        s.text(dev);
        s.text(".wait_settled();\n");
    }
}

/// A threshold operator appended to `a`; `within` opens the tolerance form.
pub open spec fn op_code(a: Seq<ScriptToken>, op: ThresholdOp, within: Seq<char>) -> Seq<ScriptToken> {
    match op {
        ThresholdOp::LessThan => a + txt("<"@),
        ThresholdOp::GreaterThan => a + txt(">"@),
        ThresholdOp::EqualWithin { tolerance } => a + txt(within) + num(NumberStyle::Plain, tolerance) + txt(")"@),
    }
}

fn op_to_rhai(s: &mut Script, op: ThresholdOp, within: &str)
    ensures
        final(s).tokens() == op_code(old(s).tokens(), op, within@),
{
    match op {
        ThresholdOp::LessThan => s.text("<"),
        ThresholdOp::GreaterThan => s.text(">"),
        ThresholdOp::EqualWithin { tolerance } => {
            s.text(within);
            s.number(NumberStyle::Plain, tolerance);
            s.text(")");
        },
    }
}

/// Wait code appended to `a`.
pub open spec fn wait_code(a: Seq<ScriptToken>, c: WaitCondition, indent: nat) -> Seq<ScriptToken> {
    let ind = txt(indent_text(indent));
    match c {
        WaitCondition::Duration { milliseconds } => a + ind + txt("// Wait for "@) + num(NumberStyle::Seconds, milliseconds)
            + txt(" seconds\n"@) + ind + txt("sleep("@) + num(NumberStyle::Seconds, milliseconds) + txt(");\n"@),
        WaitCondition::Threshold { device_id, operator, value, timeout_ms } => {
            let a1 = op_code(a + ind + txt("// TODO: Wait until "@) + txt(device_id@) + txt(" "@), operator, "== (±"@);
            a1 + txt(" "@) + num(NumberStyle::Plain, value) + txt(" (timeout: "@) + num(NumberStyle::Plain, timeout_ms)
                + txt("ms)\n"@) + ind + txt("// Threshold-based waits not yet implemented in Rhai\n"@) + ind + txt(
                "sleep("@,
            ) + num(NumberStyle::Seconds, timeout_ms) + txt(");\n"@)
        },
        WaitCondition::Stability { device_id, tolerance, duration_ms, timeout_ms } => a + ind + txt(
            "// TODO: Wait until "@,
        ) + txt(device_id@) + txt(" stabilizes within ±"@) + num(NumberStyle::Plain, tolerance) + txt(" for "@) + num(
            NumberStyle::Plain,
            duration_ms,
        ) + txt("ms (timeout: "@) + num(NumberStyle::Plain, timeout_ms) + txt("ms)\n"@) + ind + txt(
            "// Stability-based waits not yet implemented in Rhai\n"@,
        ) + ind + txt("sleep("@) + num(NumberStyle::Seconds, timeout_ms) + txt(");\n"@),
    }
}

/// Append the code of a wait node.
pub fn wait_to_rhai(s: &mut Script, c: &WaitCondition, indent: usize)
    ensures
        final(s).tokens() == wait_code(old(s).tokens(), *c, indent as nat),
{
    match c {
        WaitCondition::Duration { milliseconds } => {
            s.indent(indent);
            s.text("// Wait for ");
            s.number(NumberStyle::Seconds, *milliseconds);
            s.text(" seconds\n");
            s.indent(indent);
            s.text("sleep(");
            s.number(NumberStyle::Seconds, *milliseconds);
            s.text(");\n");
        },
        WaitCondition::Threshold { device_id, operator, value, timeout_ms } => {
            s.indent(indent);
            s.text("// TODO: Wait until ");
            s.text(device_id.as_str());
            s.text(" ");
            op_to_rhai(s, *operator, "== (±");
            s.text(" ");
            s.number(NumberStyle::Plain, *value);
            s.text(" (timeout: ");
            s.number(NumberStyle::Plain, *timeout_ms);
            s.text("ms)\n");
            s.indent(indent);
            s.text("// Threshold-based waits not yet implemented in Rhai\n");
            s.indent(indent);
            s.text("sleep(");
            s.number(NumberStyle::Seconds, *timeout_ms);
            s.text(");\n");
        },
        WaitCondition::Stability { device_id, tolerance, duration_ms, timeout_ms } => {
            s.indent(indent);
            s.text("// TODO: Wait until ");
            s.text(device_id.as_str());
            s.text(" stabilizes within ±");
            s.number(NumberStyle::Plain, *tolerance);
            s.text(" for ");
            s.number(NumberStyle::Plain, *duration_ms);
            s.text("ms (timeout: ");
            s.number(NumberStyle::Plain, *timeout_ms);
            s.text("ms)\n");
            s.indent(indent);
            s.text("// Stability-based waits not yet implemented in Rhai\n");
            s.indent(indent);
            s.text("sleep(");
            s.number(NumberStyle::Seconds, *timeout_ms);
            s.text(");\n");
        },
    }
}

/// Acquire code appended to `a`.
pub open spec fn acquire_code(a: Seq<ScriptToken>, c: AcquireConfig, indent: nat) -> Seq<ScriptToken> {
    let ind = txt(indent_text(indent));
    let bi = txt(indent_text(indent + 1));
    let det = txt(c.detector@);
    let n = txt(decimal(c.frame_count as nat));
    if c.detector@.len() == 0 {
        a + ind + txt("// WARNING: Acquire node has no detector specified\n"@)
    } else {
        let a1 = a + ind + txt("// Acquire "@) + n + txt(" frame(s) from "@) + det + txt("\n"@);
        let a2 = match c.exposure_ms {
            Some(e) => if real_positive(e) {
                a1 + ind + det + txt(".set_exposure("@) + num(NumberStyle::Plain, e) + txt(");\n"@)
            } else {
                a1
            },
            None => a1,
        };
        if c.frame_count > 1 {
            a2 + ind + txt("for i in 0.."@) + n + txt(" {\n"@) + bi + det + txt(".trigger();\n"@) + bi + det + txt(
                ".read();\n"@,
            ) + ind + txt("}\n"@)
        } else {
            a2 + ind + det + txt(".trigger();\n"@) + ind + det + txt(".read();\n"@)
        }
    }
}

/// Append the code of an acquire node.
pub fn acquire_to_rhai(s: &mut Script, c: &AcquireConfig, indent: usize)
    requires
        indent < usize::MAX,
    ensures
        final(s).tokens() == acquire_code(old(s).tokens(), *c, indent as nat),
{
    let det = c.detector.as_str();
    if det.unicode_len() == 0 {
        s.indent(indent);
        s.text("// WARNING: Acquire node has no detector specified\n");
        return;
    }
    s.indent(indent);
    s.text("// Acquire ");
    s.decimal(c.frame_count as u64);
    s.text(" frame(s) from ");
    s.text(det);
    s.text("\n");
    match c.exposure_ms {
        Some(e) => {
            if e.is_positive() {
                s.indent(indent);
                s.text(det);
                s.text(".set_exposure(");
                s.number(NumberStyle::Plain, e);
                s.text(");\n");
            }
        },
        None => {},
    }
    if c.frame_count > 1 {
        s.indent(indent);
        s.text("for i in 0..");
        s.decimal(c.frame_count as u64);
        s.text(" {\n");
        s.indent(indent + 1);
        s.text(det);
        s.text(".trigger();\n");
        s.indent(indent + 1);
        s.text(det);
        s.text(".read();\n");
        s.indent(indent);
        s.text("}\n");
    } else {
        s.indent(indent);
        s.text(det);
        s.text(".trigger();\n");
        s.indent(indent);
        s.text(det);
        s.text(".read();\n");
    }
}

/// Position line of one scan level: `let <var> = start + (stop - start) * <idx> / (points - 1);`,
/// or `let <var> = start;` for a single point.
pub open spec fn position_code(a: Seq<ScriptToken>, ind: Seq<ScriptToken>, var: Seq<char>, idx: Seq<char>, start: Real, stop: Real, points: u32) -> Seq<ScriptToken> {
    if points > 1 {
        a + ind + txt("let "@) + txt(var) + txt(" = "@) + num(NumberStyle::Plain, start) + txt(" + ("@) + num(
            NumberStyle::Plain,
            stop,
        ) + txt(" - "@) + num(NumberStyle::Plain, start) + txt(") * "@) + txt(idx) + txt(" / ("@) + txt(
            decimal(points as nat),
        ) + txt(" - 1);\n"@)
    } else {
        a + ind + txt("let "@) + txt(var) + txt(" = "@) + num(NumberStyle::Plain, start) + txt(";\n"@)
    }
}

fn position_to_rhai(s: &mut Script, indent: usize, var: &str, idx: &str, start: Real, stop: Real, points: u32)
    ensures
        final(s).tokens() == position_code(old(s).tokens(), txt(indent_text(indent as nat)), var@, idx@, start, stop, points),
{
    s.indent(indent);
    s.text("let ");
    s.text(var);
    s.text(" = ");
    s.number(NumberStyle::Plain, start);
    if points > 1 {
        s.text(" + (");
        s.number(NumberStyle::Plain, stop);
        s.text(" - ");
        s.number(NumberStyle::Plain, start);
        s.text(") * ");
        s.text(idx);
        s.text(" / (");
        s.decimal(points as u64);
        s.text(" - 1);\n");
    } else {
        s.text(";\n");
    }
}

/// Nested-scan code appended to `a`.
pub open spec fn nested_code(a: Seq<ScriptToken>, c: NestedScanConfig, indent: nat) -> Seq<ScriptToken> {
    let ind = txt(indent_text(indent));
    let bi = txt(indent_text(indent + 1));
    let ii = txt(indent_text(indent + 2));
    let oa = txt(c.outer.actuator@);
    let ia = txt(c.inner.actuator@);
    let op = txt(decimal(c.outer.points as nat));
    let ip = txt(decimal(c.inner.points as nat));
    if c.outer.actuator@.len() == 0 || c.inner.actuator@.len() == 0 {
        a + ind + txt("// WARNING: NestedScan node has empty actuator(s)\n"@)
    } else {
        let a1 = a + ind + txt("// Nested scan: "@) + txt(c.outer.dimension_name@) + txt(" x "@) + txt(
            c.inner.dimension_name@,
        ) + txt("\n"@);
        let a2 = a1 + ind + txt("// Outer: "@) + oa + txt(" from "@) + num(NumberStyle::OneDecimal, c.outer.start) + txt(
            " to "@,
        ) + num(NumberStyle::OneDecimal, c.outer.stop) + txt(" ("@) + op + txt(" points)\n"@);
        let a3 = a2 + ind + txt("for outer_i in 0.."@) + op + txt(" {\n"@);
        let a4 = position_code(a3, bi, "outer_pos"@, "outer_i"@, c.outer.start, c.outer.stop, c.outer.points);
        let a5 = a4 + bi + oa + txt(".move_abs(outer_pos);\n"@) + bi + oa + txt(".wait_settled();\n"@);
        let a6 = a5 + bi + txt("// Inner: "@) + ia + txt(" from "@) + num(NumberStyle::OneDecimal, c.inner.start) + txt(
            " to "@,
        ) + num(NumberStyle::OneDecimal, c.inner.stop) + txt(" ("@) + ip + txt(" points)\n"@) + bi + txt(
            "for inner_i in 0.."@,
        ) + ip + txt(" {\n"@);
        let a7 = position_code(a6, ii, "inner_pos"@, "inner_i"@, c.inner.start, c.inner.stop, c.inner.points);
        let a8 = a7 + ii + ia + txt(".move_abs(inner_pos);\n"@) + ii + ia + txt(".wait_settled();\n"@);
        let a9 = a8 + ii + txt("yield_event(#{ \""@) + txt(c.outer.dimension_name@) + txt("\": outer_pos, \""@) + txt(
            c.inner.dimension_name@,
        ) + txt("\": inner_pos });\n"@);
        a9 + bi + txt("}\n"@) + ind + txt("}\n"@)
    }
}

/// Append the code of a nested-scan node.
pub fn nested_scan_to_rhai(s: &mut Script, c: &NestedScanConfig, indent: usize)
    requires
        indent + 2 <= usize::MAX,
    ensures
        final(s).tokens() == nested_code(old(s).tokens(), *c, indent as nat),
{
    let oa = c.outer.actuator.as_str();
    let ia = c.inner.actuator.as_str();
    if oa.unicode_len() == 0 || ia.unicode_len() == 0 {
        s.indent(indent);
        s.text("// WARNING: NestedScan node has empty actuator(s)\n");
        return;
    }
    s.indent(indent);
    s.text("// Nested scan: ");
    s.text(c.outer.dimension_name.as_str());
    s.text(" x ");
    s.text(c.inner.dimension_name.as_str());
    s.text("\n");
    s.indent(indent);
    s.text("// Outer: ");
    s.text(oa);
    s.text(" from ");
    s.number(NumberStyle::OneDecimal, c.outer.start);
    s.text(" to ");
    s.number(NumberStyle::OneDecimal, c.outer.stop);
    s.text(" (");
    s.decimal(c.outer.points as u64);
    s.text(" points)\n");
    s.indent(indent);
    s.text("for outer_i in 0..");
    s.decimal(c.outer.points as u64);
    s.text(" {\n");
    position_to_rhai(s, indent + 1, "outer_pos", "outer_i", c.outer.start, c.outer.stop, c.outer.points);
    s.indent(indent + 1);
    s.text(oa);
    s.text(".move_abs(outer_pos);\n");
    s.indent(indent + 1);
    s.text(oa);
    s.text(".wait_settled();\n");
    s.indent(indent + 1);
    s.text("// Inner: ");
    s.text(ia);
    s.text(" from ");
    s.number(NumberStyle::OneDecimal, c.inner.start);
    s.text(" to ");
    s.number(NumberStyle::OneDecimal, c.inner.stop);
    s.text(" (");
    s.decimal(c.inner.points as u64);
    s.text(" points)\n");
    s.indent(indent + 1);
    s.text("for inner_i in 0..");
    s.decimal(c.inner.points as u64);
    s.text(" {\n");
    position_to_rhai(s, indent + 2, "inner_pos", "inner_i", c.inner.start, c.inner.stop, c.inner.points);
    s.indent(indent + 2);
    s.text(ia);
    s.text(".move_abs(inner_pos);\n");
    s.indent(indent + 2);
    s.text(ia);
    s.text(".wait_settled();\n");
    s.indent(indent + 2);
    s.text("yield_event(#{ \"");
    s.text(c.outer.dimension_name.as_str());
    s.text("\": outer_pos, \"");
    s.text(c.inner.dimension_name.as_str());
    s.text("\": inner_pos });\n");
    s.indent(indent + 1);
    s.text("}\n");
    s.indent(indent);
    s.text("}\n");
}

/// How an adaptive action is described.
pub open spec fn action_text(a: AdaptiveAction) -> Seq<char> {
    match a {
        AdaptiveAction::Zoom2x => "Zoom 2x (narrow range, increase resolution)"@,
        AdaptiveAction::Zoom4x => "Zoom 4x (narrow range, increase resolution)"@,
        AdaptiveAction::MoveToPeak => "Move to detected peak position"@,
        AdaptiveAction::AcquireAtPeak => "Trigger acquisition at peak"@,
        AdaptiveAction::MarkAndContinue => "Mark peak location and continue"@,
    }
}

/// The comment line documenting trigger `k` (numbered from 1).
pub open spec fn trigger_line(a: Seq<ScriptToken>, ind: Seq<ScriptToken>, t: TriggerCondition, k: nat) -> Seq<ScriptToken> {
    let head = a + ind + txt("//   "@) + txt(decimal(k + 1)) + txt(": "@);
    match t {
        TriggerCondition::Threshold { device_id, operator, value } => op_code(
            head + txt(device_id@) + txt(" "@),
            operator,
            "== (+/-"@,
        ) + txt(" "@) + num(NumberStyle::Plain, value) + txt("\n"@),
        TriggerCondition::PeakDetection { device_id, min_prominence, min_height } => {
            let b = head + txt("Peak detection on "@) + txt(device_id@) + txt(" (prominence >= "@) + num(
                NumberStyle::Plain,
                min_prominence,
            );
            let c = match min_height {
                Some(h) => b + txt(", height >= "@) + num(NumberStyle::Plain, h),
                None => b,
            };
            c + txt(")\n"@)
        },
    }
}

/// Comment lines documenting the first `k` triggers.
pub open spec fn trigger_lines(a: Seq<ScriptToken>, ind: Seq<ScriptToken>, ts: Seq<TriggerCondition>, k: int) -> Seq<ScriptToken>
    decreases k,
{
    if k <= 0 {
        a
    } else {
        trigger_line(trigger_lines(a, ind, ts, k - 1), ind, ts[k - 1], (k - 1) as nat)
    }
}

/// Adaptive-scan code appended to `a`.
pub open spec fn adaptive_code(a: Seq<ScriptToken>, c: AdaptiveScanConfig, indent: nat) -> Seq<ScriptToken> {
    let ind = txt(indent_text(indent));
    let bi = txt(indent_text(indent + 1));
    let act = txt(c.scan.actuator@);
    let p = txt(decimal(c.scan.points as nat));
    if c.scan.actuator@.len() == 0 {
        a + ind + txt("// WARNING: AdaptiveScan node has no actuator specified\n"@)
    } else {
        let a1 = a + ind + txt("// Adaptive scan: "@) + act + txt(" from "@) + num(NumberStyle::OneDecimal, c.scan.start)
            + txt(" to "@) + num(NumberStyle::OneDecimal, c.scan.stop) + txt(" ("@) + p + txt(" points)\n"@);
        let a2 = a1 + ind + txt("// Triggers ("@) + txt(
            if c.trigger_logic == TriggerLogic::Any {
                "Any"@
            } else {
                "All"@
            },
        ) + txt(" logic):\n"@);
        let a3 = trigger_lines(a2, ind, c.triggers@, c.triggers@.len() as int);
        let a4 = a3 + ind + txt("// Action: "@) + txt(action_text(c.action)) + txt("\n"@);
        let a5 = if c.require_approval {
            a4 + ind + txt("// (requires user approval before action)\n"@)
        } else {
            a4
        };
        let a6 = a5 + ind + txt("// TODO: AdaptiveScan requires runtime trigger evaluation\n"@) + ind + txt(
            "// Falling back to regular scan for now\n"@,
        );
        let a7 = a6 + ind + txt("for i in 0.."@) + p + txt(" {\n"@);
        let a8 = position_code(a7, bi, "pos"@, "i"@, c.scan.start, c.scan.stop, c.scan.points);
        let a9 = a8 + bi + act + txt(".move_abs(pos);\n"@) + bi + act + txt(".wait_settled();\n"@) + bi + txt(
            "yield_event(#{ \""@,
        ) + act + txt("\": pos });\n"@);
        a9 + ind + txt("}\n"@)
    }
}

fn trigger_to_rhai(s: &mut Script, indent: usize, t: &TriggerCondition, k: usize)
    requires
        k < usize::MAX,
    ensures
        final(s).tokens() == trigger_line(old(s).tokens(), txt(indent_text(indent as nat)), *t, k as nat),
{
    s.indent(indent);
    s.text("//   ");
    s.decimal((k + 1) as u64);
    s.text(": ");
    match t {
        TriggerCondition::Threshold { device_id, operator, value } => {
            s.text(device_id.as_str());
            s.text(" ");
            op_to_rhai(s, *operator, "== (+/-");
            s.text(" ");
            s.number(NumberStyle::Plain, *value);
            s.text("\n");
        },
        TriggerCondition::PeakDetection { device_id, min_prominence, min_height } => {
            s.text("Peak detection on ");
            s.text(device_id.as_str());
            s.text(" (prominence >= ");
            s.number(NumberStyle::Plain, *min_prominence);
            match min_height {
                Some(h) => {
                    s.text(", height >= ");
                    s.number(NumberStyle::Plain, *h);
                },
                None => {},
            }
            s.text(")\n");
        },
    }
}

/// Append the code of an adaptive-scan node: its triggers and action as
/// comments, then a plain scan.
pub fn adaptive_scan_to_rhai(s: &mut Script, c: &AdaptiveScanConfig, indent: usize)
    requires
        indent < usize::MAX,
    ensures
        final(s).tokens() == adaptive_code(old(s).tokens(), *c, indent as nat),
{
    let act = c.scan.actuator.as_str();
    if act.unicode_len() == 0 {
        s.indent(indent);
        s.text("// WARNING: AdaptiveScan node has no actuator specified\n");
        return;
    }
    s.indent(indent);
    s.text("// Adaptive scan: ");
    s.text(act);
    s.text(" from ");
    s.number(NumberStyle::OneDecimal, c.scan.start);
    s.text(" to ");
    s.number(NumberStyle::OneDecimal, c.scan.stop);
    s.text(" (");
    s.decimal(c.scan.points as u64);
    s.text(" points)\n");
    s.indent(indent);
    s.text("// Triggers (");
    match c.trigger_logic {
        TriggerLogic::Any => s.text("Any"),
        TriggerLogic::All => s.text("All"),
    }
    s.text(" logic):\n");
    let ghost a2 = s.tokens();
    let mut k: usize = 0;
    while k < c.triggers.len()
        invariant
            k <= c.triggers@.len(),
            s.tokens() == trigger_lines(a2, txt(indent_text(indent as nat)), c.triggers@, k as int),
        decreases c.triggers.len() - k,
    {
        trigger_to_rhai(s, indent, &c.triggers[k], k);
        k = k + 1;
    }
    s.indent(indent);
    s.text("// Action: ");
    match c.action {
        AdaptiveAction::Zoom2x => s.text("Zoom 2x (narrow range, increase resolution)"),
        AdaptiveAction::Zoom4x => s.text("Zoom 4x (narrow range, increase resolution)"),
        AdaptiveAction::MoveToPeak => s.text("Move to detected peak position"),
        AdaptiveAction::AcquireAtPeak => s.text("Trigger acquisition at peak"),
        AdaptiveAction::MarkAndContinue => s.text("Mark peak location and continue"),
    }
    s.text("\n");
    if c.require_approval {
        s.indent(indent);
        s.text("// (requires user approval before action)\n");
    }
    s.indent(indent);
    s.text("// TODO: AdaptiveScan requires runtime trigger evaluation\n");
    s.indent(indent);
    s.text("// Falling back to regular scan for now\n");
    s.indent(indent);
    s.text("for i in 0..");
    s.decimal(c.scan.points as u64);
    s.text(" {\n");
    position_to_rhai(s, indent + 1, "pos", "i", c.scan.start, c.scan.stop, c.scan.points);
    s.indent(indent + 1);
    s.text(act);
    s.text(".move_abs(pos);\n");
    s.indent(indent + 1);
    s.text(act);
    s.text(".wait_settled();\n");
    s.indent(indent + 1);
    s.text("yield_event(#{ \"");
    s.text(act);
    s.text("\": pos });\n");
    s.indent(indent);
    s.text("}\n");
}

/// Opening lines of a loop: a comment on its termination and the `for` header.
pub open spec fn loop_header(a: Seq<ScriptToken>, t: LoopTermination, ind: Seq<ScriptToken>) -> Seq<ScriptToken> {
    match t {
        LoopTermination::Count { iterations } => {
            let n = txt(decimal(iterations as nat));
            a + ind + txt("// Loop "@) + n + txt(" times\n"@) + ind + txt("for i in 0.."@) + n + txt(" {\n"@)
        },
        LoopTermination::Condition { device_id, operator, value, max_iterations } => {
            let n = txt(decimal(max_iterations as nat));
            op_code(a + ind + txt("// TODO: Loop until "@) + txt(device_id@) + txt(" "@), operator, "== (±"@) + txt(" "@)
                + num(NumberStyle::Plain, value) + txt(" (max "@) + n + txt(" iterations)\n"@) + ind + txt(
                "// Condition-based loops not yet implemented in Rhai\n"@,
            ) + ind + txt("for i in 0.."@) + n + txt(" {\n"@)
        },
        LoopTermination::Infinite { max_iterations } => {
            let n = txt(decimal(max_iterations as nat));
            a + ind + txt("// TODO: Infinite loop (safety limit: "@) + n + txt(" iterations)\n"@) + ind + txt(
                "// Infinite loops require manual abort - using safety limit\n"@,
            ) + ind + txt("for i in 0.."@) + n + txt(" {\n"@)
        },
    }
}

/// Code of node `i` appended to `a`; loop bodies nest up to `fuel` deep.
pub open spec fn node_code(a: Seq<ScriptToken>, g: GraphModel, bodies: Seq<Seq<usize>>, i: int, indent: nat, fuel: nat) -> Seq<ScriptToken>
    decreases fuel, 1int, 0int,
{
    match g.nodes@[i].node {
        ExperimentNode::Scan { actuator, start, stop, points } => scan_code(a, actuator@, start, stop, points, indent),
        ExperimentNode::Move(c) => move_code(a, c, indent),
        ExperimentNode::Wait { condition } => wait_code(a, condition, indent),
        ExperimentNode::Acquire(c) => acquire_code(a, c, indent),
        ExperimentNode::Loop(c) => loop_code(a, g, bodies, i, c, indent, fuel),
        ExperimentNode::NestedScan(c) => nested_code(a, c, indent),
        ExperimentNode::AdaptiveScan(c) => adaptive_code(a, c, indent),
    }
}

/// Code of loop node `i`: header, body nodes one level deeper, closing brace.
pub open spec fn loop_code(a: Seq<ScriptToken>, g: GraphModel, bodies: Seq<Seq<usize>>, i: int, c: LoopConfig, indent: nat, fuel: nat) -> Seq<ScriptToken>
    decreases fuel, 0int, 0int,
{
    let ind = txt(indent_text(indent));
    let a1 = loop_header(a, c.termination, ind);
    let body = bodies[i];
    let a2 = if body.len() == 0 {
        a1 + txt(indent_text(indent + 1)) + txt("// Loop body is empty\n"@)
    } else if fuel == 0 {
        a1
    } else {
        body_code(a1, g, bodies, body, body.len() as int, indent + 1, (fuel - 1) as nat)
    };
    a2 + ind + txt("}\n"@)
}

/// Code of the first `k` nodes of a loop body.
pub open spec fn body_code(a: Seq<ScriptToken>, g: GraphModel, bodies: Seq<Seq<usize>>, body: Seq<usize>, k: int, indent: nat, fuel: nat) -> Seq<ScriptToken>
    decreases fuel, 2int, k,
{
    if k <= 0 {
        a
    } else {
        node_code(body_code(a, g, bodies, body, k - 1, indent, fuel), g, bodies, body[k - 1] as int, indent, fuel)
    }
}

fn loop_header_to_rhai(s: &mut Script, t: &LoopTermination, indent: usize)
    ensures
        final(s).tokens() == loop_header(old(s).tokens(), *t, txt(indent_text(indent as nat))),
{
    match t {
        LoopTermination::Count { iterations } => {
            s.indent(indent);
            s.text("// Loop ");
            s.decimal(*iterations as u64);
            s.text(" times\n");
            s.indent(indent);
            s.text("for i in 0..");
            s.decimal(*iterations as u64);
            s.text(" {\n");
        },
        LoopTermination::Condition { device_id, operator, value, max_iterations } => {
            s.indent(indent);
            s.text("// TODO: Loop until ");
            s.text(device_id.as_str());
            s.text(" ");
            op_to_rhai(s, *operator, "== (±");
            s.text(" ");
            s.number(NumberStyle::Plain, *value);
            s.text(" (max ");
            s.decimal(*max_iterations as u64);
            s.text(" iterations)\n");
            s.indent(indent);
            s.text("// Condition-based loops not yet implemented in Rhai\n");
            s.indent(indent);
            s.text("for i in 0..");
            s.decimal(*max_iterations as u64);
            s.text(" {\n");
        },
        LoopTermination::Infinite { max_iterations } => {
            s.indent(indent);
            s.text("// TODO: Infinite loop (safety limit: ");
            s.decimal(*max_iterations as u64);
            s.text(" iterations)\n");
            s.indent(indent);
            s.text("// Infinite loops require manual abort - using safety limit\n");
            s.indent(indent);
            s.text("for i in 0..");
            s.decimal(*max_iterations as u64);
            s.text(" {\n");
        },
    }
}

/// Append the code of node `i`.
pub fn node_to_rhai(s: &mut Script, g: &GraphModel, bodies: &Vec<Vec<usize>>, i: usize, indent: usize, fuel: usize)
    requires
        translation_ready(*g, bodies.deep_view()),
        i < g.nodes.len(),
        indent + fuel + 2 <= usize::MAX,
    ensures
        final(s).tokens() == node_code(old(s).tokens(), *g, bodies.deep_view(), i as int, indent as nat, fuel as nat),
    decreases fuel, 1int, 0int,
{
    match &g.nodes[i].node {
        ExperimentNode::Scan { actuator, start, stop, points } => {
            scan_to_rhai(s, actuator.as_str(), *start, *stop, *points, indent);
        },
        ExperimentNode::Move(c) => {
            move_to_rhai(s, c, indent);
        },
        ExperimentNode::Wait { condition } => {
            wait_to_rhai(s, condition, indent);
        },
        ExperimentNode::Acquire(c) => {
            acquire_to_rhai(s, c, indent);
        },
        ExperimentNode::Loop(c) => {
            loop_to_rhai(s, g, bodies, i, c, indent, fuel);
        },
        ExperimentNode::NestedScan(c) => {
            nested_scan_to_rhai(s, c, indent);
        },
        ExperimentNode::AdaptiveScan(c) => {
            adaptive_scan_to_rhai(s, c, indent);
        },
    }
}

/// Append the code of loop node `i`, its body nodes one level deeper.
fn loop_to_rhai(s: &mut Script, g: &GraphModel, bodies: &Vec<Vec<usize>>, i: usize, c: &LoopConfig, indent: usize, fuel: usize)
    requires
        translation_ready(*g, bodies.deep_view()),
        i < g.nodes.len(),
        indent + fuel + 2 <= usize::MAX,
    ensures
        final(s).tokens() == loop_code(old(s).tokens(), *g, bodies.deep_view(), i as int, *c, indent as nat, fuel as nat),
    decreases fuel, 0int, 0int,
{
    loop_header_to_rhai(s, &c.termination, indent);
    let body = &bodies[i];
    proof {
        assert(bodies.deep_view()[i as int] == body@);
    }
    if body.len() == 0 {
        s.indent(indent + 1);
        s.text("// Loop body is empty\n");
    } else if fuel > 0 {
        let ghost a1 = s.tokens();
        let mut k: usize = 0;
        while k < body.len()
            invariant
                translation_ready(*g, bodies.deep_view()),
                bodies.deep_view()[i as int] == body@,
                i < g.nodes.len(),
                fuel > 0,
                indent + fuel + 2 <= usize::MAX,
                k <= body.len(),
                s.tokens() == body_code(a1, *g, bodies.deep_view(), body@, k as int, (indent + 1) as nat, (fuel - 1) as nat),
            decreases body.len() - k,
        {
            proof {
                assert(body@[k as int] == bodies.deep_view()[i as int][k as int]);
            }
            node_to_rhai(s, g, bodies, body[k], indent + 1, fuel - 1);
            k = k + 1;
        }
    }
    s.indent(indent);
    s.text("}\n");
}

/// The opening comment block of a script.
pub open spec fn header_code(filename: Option<Seq<char>>, timestamp: Seq<char>) -> Seq<ScriptToken> {
    Seq::empty() + txt("// Generated Rhai script from visual experiment graph\n"@) + txt("// Source: "@) + txt(
        match filename {
            Some(f) => f,
            None => "unsaved"@,
        },
    ) + txt("\n"@) + txt("// Generated: "@) + txt(timestamp) + txt("\n"@) + txt(
        "// DO NOT EDIT - regenerate from visual editor to make changes\n\n"@,
    )
}

/// Code of the first `k` nodes of `ord`, each under a numbered banner,
/// skipping nodes that a loop writes.
pub open spec fn nodes_code(a: Seq<ScriptToken>, g: GraphModel, bodies: Seq<Seq<usize>>, ord: Seq<usize>, k: int, fuel: nat) -> Seq<ScriptToken>
    decreases k,
{
    if k <= 0 {
        a
    } else {
        let acc = nodes_code(a, g, bodies, ord, k - 1, fuel);
        let v = ord[k - 1] as int;
        if in_loop_set(g, v) {
            acc
        } else {
            node_code(
                acc + txt("// === Node "@) + txt(decimal(k as nat)) + txt(": "@) + txt(node_name_spec(g.nodes@[v].node))
                    + txt(" ===\n"@),
                g,
                bodies,
                v,
                0,
                fuel,
            ) + txt("\n"@)
        }
    }
}

/// `t` is the script of graph `g` under the given header: an error comment
/// for an empty graph, one without a root node, or a cyclic one; otherwise
/// the nodes in Kahn's order from the root list (a topological order), loop
/// bodies written inside their loops.
pub open spec fn is_graph_script(g: GraphModel, filename: Option<Seq<char>>, timestamp: Seq<char>, t: Seq<ScriptToken>) -> bool {
    let h = header_code(filename, timestamp);
    if g.nodes.len() == 0 {
        t == h + txt("// ERROR: Graph is empty - cannot generate code\n"@)
    } else if forall|v: int| 0 <= v < g.nodes.len() ==> has_input(g.wires@, v) {
        t == h + txt("// ERROR: Graph has no root nodes - all nodes have inputs (possible cycle)\n"@)
    } else if !g.acyclic() {
        t == h + txt("// ERROR: Graph contains a cycle - cannot generate code\n"@)
    } else {
        exists|ord: Seq<usize>, bodies: Seq<Seq<usize>>| {
            &&& is_topological_order(g.adj(), ord)
            &&& is_kahn_order(g, ord)
            &&& bodies_ok(g, bodies)
            &&& t == nodes_code(h, g, bodies, ord, ord.len() as int, g.nodes.len() as nat)
        }
    }
}

/// The characters of an optional name.
pub open spec fn name_of(f: Option<&str>) -> Option<Seq<char>> {
    match f {
        Some(f) => Some(f@),
        None => None,
    }
}

/// The script of a graph, with the given source name and generation time.
pub fn script_for_graph(g: &GraphModel, filename: Option<&str>, timestamp: &str) -> (r: Script)
    requires
        g.wf(),
        g.nodes.len() + 2 <= usize::MAX,
    ensures
        is_graph_script(*g, name_of(filename), timestamp@, r.tokens()),
{
    let ghost fname = name_of(filename);
    let mut s = Script::new();
    s.text("// Generated Rhai script from visual experiment graph\n");
    s.text("// Source: ");
    match filename {
        Some(f) => s.text(f),
        None => s.text("unsaved"),
    }
    s.text("\n");
    s.text("// Generated: ");
    s.text(timestamp);
    s.text("\n");
    s.text("// DO NOT EDIT - regenerate from visual editor to make changes\n\n");
    let ghost h = s.tokens();
    proof {
        assert(h == header_code(fname, timestamp@));
    }
    let n = g.nodes.len();
    if n == 0 {
        s.text("// ERROR: Graph is empty - cannot generate code\n");
        return s;
    }
    let (adj, roots) = match build_adjacency(n, &g.wires) {
        Ok(p) => p,
        Err(_) => {
            return s;
        },
    };
    proof {
        lemma_root_list_valid(g.wires@, n as int, roots@);
        lemma_adjacency_edge_total(g.wires@, n as int);
        assert(g.wires@.len() == g.wires.len());
        assert(adj.len() == n);
    }
    if roots.len() == 0 {
        proof {
            assert forall|v: int| 0 <= v < n implies has_input(g.wires@, v) by {
                if !has_input(g.wires@, v) {
                    assert(lists(roots@, v));
                }
            }
        }
        s.text("// ERROR: Graph has no root nodes - all nodes have inputs (possible cycle)\n");
        return s;
    }
    proof {
        assert(!has_input(g.wires@, roots[0] as int));
    }
    let sorted = match topological_sort(&adj, &roots, n) {
        Ok(sorted) => sorted,
        Err(_) => {
            s.text("// ERROR: Graph contains a cycle - cannot generate code\n");
            return s;
        },
    };
    let bodies = loop_bodies(g);
    // Which nodes a loop writes.
    let mut member: Vec<bool> = Vec::new();
    let mut v: usize = 0;
    while v < n
        invariant
            g.wf(),
            n == g.nodes.len(),
            bodies_ok(*g, bodies.deep_view()),
            v <= n,
            member.len() == v,
            forall|x: int| 0 <= x < v ==> member[x] == in_loop_set(*g, x),
        decreases n - v,
    {
        let mut found = false;
        let mut q: usize = 0;
        while q < n
            invariant
                g.wf(),
                n == g.nodes.len(),
                v < n,
                bodies_ok(*g, bodies.deep_view()),
                q <= n,
                found == exists|j: int| 0 <= j < q && (#[trigger] g.nodes@[j].node is Loop) && in_loop_body(g.wires@, j, v as int),
            decreases n - q,
        {
            let is_loop = match &g.nodes[q].node {
                ExperimentNode::Loop(..) => true,
                _ => false,
            };
            if is_loop {
                let body = &bodies[q];
                let mut k: usize = 0;
                let mut hit = false;
                proof {
                    assert(bodies.deep_view()[q as int] == body@);
                    assert(has_body(g.nodes@[q as int].node));
                }
                while k < body.len()
                    invariant
                        k <= body.len(),
                        hit == exists|j: int| 0 <= j < k && body@[j] == v,
                    decreases body.len() - k,
                {
                    if body[k] == v {
                        hit = true;
                    }
                    k = k + 1;
                }
                proof {
                    assert(hit == lists(body@, v as int));
                }
                if hit {
                    found = true;
                }
            }
            q = q + 1;
        }
        member.push(found);
        v = v + 1;
    }
    proof {
        assert forall|l: int, k: int| 0 <= l < bodies.deep_view().len() && 0 <= k < bodies.deep_view()[l].len() implies #[trigger] bodies.deep_view()[l][k] < g.nodes.len() by {
            if has_body(g.nodes@[l].node) {
            } else {
            }
        }
    }
    let mut i: usize = 0;
    while i < sorted.len()
        invariant
            translation_ready(*g, bodies.deep_view()),
            bodies_ok(*g, bodies.deep_view()),
            n == g.nodes.len(),
            n + 2 <= usize::MAX,
            sorted.len() == n,
            forall|x: int| 0 <= x < n ==> #[trigger] sorted@[x] < n,
            member.len() == n,
            forall|x: int| 0 <= x < n ==> member[x] == in_loop_set(*g, x),
            i <= sorted.len(),
            s.tokens() == nodes_code(h, *g, bodies.deep_view(), sorted@, i as int, n as nat),
        decreases sorted.len() - i,
    {
        let x = sorted[i];
        if !member[x] {
            s.text("// === Node ");
            s.decimal((i + 1) as u64);
            s.text(": ");
            s.text(g.nodes[x].node.node_name());
            s.text(" ===\n");
            node_to_rhai(&mut s, g, &bodies, x, 0, n);
            s.text("\n");
        }
        i = i + 1;
    }
    s
}

/// The script of a graph, stamped with the current time.
pub fn graph_to_rhai_script(g: &GraphModel, filename: Option<&str>) -> (r: Script)
    requires
        g.wf(),
        g.nodes.len() + 2 <= usize::MAX,
    ensures
        exists|timestamp: Seq<char>|
            is_rfc3339_utc_text(timestamp) && #[trigger] is_graph_script(*g, name_of(filename), timestamp, r.tokens()),
{
    let timestamp = rfc3339_now();
    script_for_graph(g, filename, timestamp.as_str())
}

/// The line that sets position variable `var` from loop variable `idx` on the
/// grid from `start` to `stop` with `points` points.
pub open spec fn stepped_position_line(var: Seq<char>, idx: Seq<char>, start: Real, stop: Real, points: u32) -> Seq<ScriptToken> {
    txt("let "@) + txt(var) + txt(" = "@) + num(NumberStyle::Plain, start) + txt(" + ("@) + num(NumberStyle::Plain, stop)
        + txt(" - "@) + num(NumberStyle::Plain, start) + txt(") * "@) + txt(idx) + txt(" / ("@) + txt(decimal(points as nat))
        + txt(" - 1);\n"@)
}

/// `part` occurs in `whole` at position `p`.
pub open spec fn occurs_at(whole: Seq<ScriptToken>, part: Seq<ScriptToken>, p: int) -> bool {
    0 <= p && p + part.len() <= whole.len() && whole.subrange(p, p + part.len()) == part
}

proof fn lemma_occurs_appended(x: Seq<ScriptToken>, y: Seq<ScriptToken>)
    ensures
        occurs_at(x + y, y, x.len() as int),
{
    assert((x + y).subrange(x.len() as int, (x.len() + y.len()) as int) =~= y);
}

proof fn lemma_occurs_extend(w: Seq<ScriptToken>, part: Seq<ScriptToken>, p: int, z: Seq<ScriptToken>)
    requires
        occurs_at(w, part, p),
    ensures
        occurs_at(w + z, part, p),
{
    assert((w + z).subrange(p, p + part.len()) =~= w.subrange(p, p + part.len()));
}

/// A position line appears in the code `position_code` appends.
proof fn lemma_position_line_occurs(a: Seq<ScriptToken>, ind: Seq<ScriptToken>, var: Seq<char>, idx: Seq<char>, start: Real, stop: Real, points: u32)
    requires
        points > 1,
    ensures
        occurs_at(position_code(a, ind, var, idx, start, stop, points), stepped_position_line(var, idx, start, stop, points), (a + ind).len() as int),
{
    let line = stepped_position_line(var, idx, start, stop, points);
    assert(position_code(a, ind, var, idx, start, stop, points) =~= (a + ind) + line);
    lemma_occurs_appended(a + ind, line);
}

/// A part found in the code before the inner position line of a nested
/// scan is still found, at the same place, in the whole code.
proof fn lemma_nested_rest_keeps(a: Seq<ScriptToken>, c: NestedScanConfig, indent: nat, part: Seq<ScriptToken>, p: int)
    requires
        c.outer.actuator@.len() > 0,
        c.inner.actuator@.len() > 0,
        occurs_at(
            nested_inner_head(a, c, indent),
            part,
            p,
        ),
    ensures
        occurs_at(nested_code(a, c, indent), part, p),
{
    let ind = txt(indent_text(indent));
    let bi = txt(indent_text(indent + 1));
    let ii = txt(indent_text(indent + 2));
    let ia = txt(c.inner.actuator@);
    let q7 = nested_inner_head(a, c, indent);
    let r1 = q7 + ii; lemma_occurs_extend(q7, part, p, ii);
    let r2 = r1 + ia; lemma_occurs_extend(r1, part, p, ia);
    let r3 = r2 + txt(".move_abs(inner_pos);\n"@); lemma_occurs_extend(r2, part, p, txt(".move_abs(inner_pos);\n"@));
    let r4 = r3 + ii; lemma_occurs_extend(r3, part, p, ii);
    let r5 = r4 + ia; lemma_occurs_extend(r4, part, p, ia);
    let q8 = r5 + txt(".wait_settled();\n"@); lemma_occurs_extend(r5, part, p, txt(".wait_settled();\n"@));
    let s1 = q8 + ii; lemma_occurs_extend(q8, part, p, ii);
    let s2 = s1 + txt("yield_event(#{ \""@); lemma_occurs_extend(s1, part, p, txt("yield_event(#{ \""@));
    let s3 = s2 + txt(c.outer.dimension_name@); lemma_occurs_extend(s2, part, p, txt(c.outer.dimension_name@));
    let s4 = s3 + txt("\": outer_pos, \""@); lemma_occurs_extend(s3, part, p, txt("\": outer_pos, \""@));
    let s5 = s4 + txt(c.inner.dimension_name@); lemma_occurs_extend(s4, part, p, txt(c.inner.dimension_name@));
    let q9 = s5 + txt("\": inner_pos });\n"@); lemma_occurs_extend(s5, part, p, txt("\": inner_pos });\n"@));
    let t1 = q9 + bi; lemma_occurs_extend(q9, part, p, bi);
    let t2 = t1 + txt("}\n"@); lemma_occurs_extend(t1, part, p, txt("}\n"@));
    let t3 = t2 + ind; lemma_occurs_extend(t2, part, p, ind);
    let whole = t3 + txt("}\n"@); lemma_occurs_extend(t3, part, p, txt("}\n"@));
    assert(whole == nested_code(a, c, indent));
}

/// The code of a nested scan up to its inner position line (included).
pub open spec fn nested_inner_head(a: Seq<ScriptToken>, c: NestedScanConfig, indent: nat) -> Seq<ScriptToken> {
    position_code(
        nested_mid(a, c, indent),
        txt(indent_text(indent + 2)),
        "inner_pos"@,
        "inner_i"@,
        c.inner.start,
        c.inner.stop,
        c.inner.points,
    )
}

/// The code of a nested scan up to its outer position line (included).
pub open spec fn nested_h4(a: Seq<ScriptToken>, c: NestedScanConfig, indent: nat) -> Seq<ScriptToken> {
    position_code(
        nested_outer_head(a, c, indent),
        txt(indent_text(indent + 1)),
        "outer_pos"@,
        "outer_i"@,
        c.outer.start,
        c.outer.stop,
        c.outer.points,
    )
}

/// The code of a nested scan up to its outer move.
pub open spec fn nested_h5(a: Seq<ScriptToken>, c: NestedScanConfig, indent: nat) -> Seq<ScriptToken> {
    let bi = txt(indent_text(indent + 1));
    let oa = txt(c.outer.actuator@);
    nested_h4(a, c, indent) + bi + oa + txt(".move_abs(outer_pos);\n"@) + bi + oa + txt(".wait_settled();\n"@)
}

/// The code of a nested scan up to the inner loop header.
pub open spec fn nested_mid(a: Seq<ScriptToken>, c: NestedScanConfig, indent: nat) -> Seq<ScriptToken> {
    let bi = txt(indent_text(indent + 1));
    let ia = txt(c.inner.actuator@);
    let ip = txt(decimal(c.inner.points as nat));
    nested_h5(a, c, indent) + bi + txt("// Inner: "@) + ia + txt(" from "@) + num(NumberStyle::OneDecimal, c.inner.start)
        + txt(" to "@) + num(NumberStyle::OneDecimal, c.inner.stop) + txt(" ("@) + ip + txt(" points)\n"@) + bi + txt(
        "for inner_i in 0.."@,
    ) + ip + txt(" {\n"@)
}

/// The code of a nested scan up to its outer position line (included).
pub open spec fn nested_outer_head(a: Seq<ScriptToken>, c: NestedScanConfig, indent: nat) -> Seq<ScriptToken> {
    let ind = txt(indent_text(indent));
    let bi = txt(indent_text(indent + 1));
    let oa = txt(c.outer.actuator@);
    let op = txt(decimal(c.outer.points as nat));
    let h1 = a + ind + txt("// Nested scan: "@) + txt(c.outer.dimension_name@) + txt(" x "@) + txt(
        c.inner.dimension_name@,
    ) + txt("\n"@);
    let h2 = h1 + ind + txt("// Outer: "@) + oa + txt(" from "@) + num(NumberStyle::OneDecimal, c.outer.start) + txt(
        " to "@,
    ) + num(NumberStyle::OneDecimal, c.outer.stop) + txt(" ("@) + op + txt(" points)\n"@);
    h2 + ind + txt("for outer_i in 0.."@) + op + txt(" {\n"@)
}

proof fn lemma_position_code_keeps(m: Seq<ScriptToken>, ind: Seq<ScriptToken>, var: Seq<char>, idx: Seq<char>, start: Real, stop: Real, points: u32, part: Seq<ScriptToken>, p: int)
    requires
        occurs_at(m, part, p),
    ensures
        occurs_at(position_code(m, ind, var, idx, start, stop, points), part, p),
{
    let w = position_code(m, ind, var, idx, start, stop, points);
    assert(w.subrange(0, m.len() as int) =~= m);
    assert(w.subrange(p, p + part.len()) =~= m.subrange(p, p + part.len()));
}

proof fn lemma_h5_keeps(a: Seq<ScriptToken>, c: NestedScanConfig, indent: nat, part: Seq<ScriptToken>, p: int)
    requires
        occurs_at(nested_h4(a, c, indent), part, p),
    ensures
        occurs_at(nested_h5(a, c, indent), part, p),
{
    let w = nested_h5(a, c, indent);
    let m = nested_h4(a, c, indent);
    assert(w.subrange(0, m.len() as int) =~= m);
    assert(w.subrange(p, p + part.len()) =~= m.subrange(p, p + part.len()));
}

proof fn lemma_mid_keeps(a: Seq<ScriptToken>, c: NestedScanConfig, indent: nat, part: Seq<ScriptToken>, p: int)
    requires
        occurs_at(nested_h5(a, c, indent), part, p),
    ensures
        occurs_at(nested_mid(a, c, indent), part, p),
{
    let w = nested_mid(a, c, indent);
    let m = nested_h5(a, c, indent);
    assert(w.subrange(0, m.len() as int) =~= m);
    assert(w.subrange(p, p + part.len()) =~= m.subrange(p, p + part.len()));
}

/// In the code of a nested scan, each axis steps with its own loop: the
/// outer position is computed from the outer loop's counter `outer_i` over
/// the outer grid, and the inner position from the inner loop's counter
/// `inner_i` over the inner grid, so the inner points of a row are spread
/// over the inner range.
pub proof fn lemma_nested_axes_follow_their_loops(a: Seq<ScriptToken>, c: NestedScanConfig, indent: nat)
    requires
        c.outer.actuator@.len() > 0,
        c.inner.actuator@.len() > 0,
        c.outer.points > 1,
        c.inner.points > 1,
    ensures
        exists|p: int| #[trigger] occurs_at(
            nested_code(a, c, indent),
            stepped_position_line("outer_pos"@, "outer_i"@, c.outer.start, c.outer.stop, c.outer.points),
            p,
        ),
        exists|p: int| #[trigger] occurs_at(
            nested_code(a, c, indent),
            stepped_position_line("inner_pos"@, "inner_i"@, c.inner.start, c.inner.stop, c.inner.points),
            p,
        ),
{
    let lo = stepped_position_line("outer_pos"@, "outer_i"@, c.outer.start, c.outer.stop, c.outer.points);
    let li = stepped_position_line("inner_pos"@, "inner_i"@, c.inner.start, c.inner.stop, c.inner.points);
    let bi = txt(indent_text(indent + 1));
    let ii = txt(indent_text(indent + 2));
    let po = (nested_outer_head(a, c, indent) + bi).len() as int;
    lemma_position_line_occurs(nested_outer_head(a, c, indent), bi, "outer_pos"@, "outer_i"@, c.outer.start, c.outer.stop, c.outer.points);
    lemma_h5_keeps(a, c, indent, lo, po);
    lemma_mid_keeps(a, c, indent, lo, po);
    lemma_position_code_keeps(nested_mid(a, c, indent), ii, "inner_pos"@, "inner_i"@, c.inner.start, c.inner.stop, c.inner.points, lo, po);
    lemma_nested_rest_keeps(a, c, indent, lo, po);
    let pi = (nested_mid(a, c, indent) + ii).len() as int;
    lemma_position_line_occurs(nested_mid(a, c, indent), ii, "inner_pos"@, "inner_i"@, c.inner.start, c.inner.stop, c.inner.points);
    lemma_nested_rest_keeps(a, c, indent, li, pi);
}

/// In the code of a plain scan, the position follows the loop counter `i`
/// over the grid from start to stop: `pos = start + (stop - start) * i /
/// (points - 1)`, so the first pass moves to the start and the last to the
/// stop.
pub proof fn lemma_scan_position_follows_counter(a: Seq<ScriptToken>, actuator: Seq<char>, start: Real, stop: Real, points: u32, indent: nat)
    requires
        actuator.len() > 0,
        points > 1,
    ensures
        exists|p: int| #[trigger] occurs_at(
            scan_code(a, actuator, start, stop, points, indent),
            txt("let pos = "@) + num(NumberStyle::Plain, start) + txt(" + ("@) + num(NumberStyle::Plain, stop) + txt(" - "@)
                + num(NumberStyle::Plain, start) + txt(") * i / ("@) + txt(decimal(points as nat)) + txt(" - 1);\n"@),
            p,
        ),
{
    let ind = txt(indent_text(indent));
    let bi = txt(indent_text(indent + 1));
    let act = txt(actuator);
    let pt = txt(decimal(points as nat));
    let b1 = a + ind + txt("// Scan "@) + act + txt(" from "@) + num(NumberStyle::OneDecimal, start) + txt(" to "@)
        + num(NumberStyle::OneDecimal, stop) + txt(" in "@) + pt + txt(" steps\n"@);
    let b2 = b1 + ind + txt("for i in 0.."@) + pt + txt(" {\n"@);
    let line = txt("let pos = "@) + num(NumberStyle::Plain, start) + txt(" + ("@) + num(NumberStyle::Plain, stop)
        + txt(" - "@) + num(NumberStyle::Plain, start) + txt(") * i / ("@) + pt + txt(" - 1);\n"@);
    let b3 = b2 + bi + line;
    let tail = bi + act + txt(".move_abs(pos);\n"@) + bi + act + txt(".wait_settled();\n"@) + bi + txt(
        "yield_event(#{ \""@,
    ) + act + txt("\": pos });\n"@) + ind + txt("}\n"@);
    assert(scan_code(a, actuator, start, stop, points, indent) =~= b3 + tail);
    lemma_occurs_appended(b2 + bi, line);
    lemma_occurs_extend(b2 + bi + line, line, (b2 + bi).len() as int, tail);
    assert(b2 + bi + line == b3);
}

} // verus!
