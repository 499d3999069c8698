//! The digital I/O monitor: pin states with edge counts, pulse detection and
//! a short history per pin.

use std::collections::VecDeque;
use std::time::Instant;
use vstd::prelude::*;
use crate::panels::comedi::MonitorDisplayMode;
use crate::text::{decimal, push_decimal, string_of};

verus! {

/// At most this many state samples are kept per pin.
pub const MAX_PIN_HISTORY: usize = 100;

/// The pins a monitor holds.
pub const MONITOR_PINS: usize = 32;

/// A pin's state, edge counts, pulse detection and recent samples.
pub struct PinState {
    pub state: bool,
    pub last_change: Instant,
    pub rising_edges: u64,
    pub falling_edges: u64,
    pub history: VecDeque<(Instant, bool)>,
    /// A rising edge was seen and its falling edge is still to come.
    pub pulse_active: bool,
    /// Start and end of the last complete high pulse.
    pub last_pulse: Option<(Instant, Instant)>,
}

/// `after` is `before` with a sample of state `s` taken at `now`: an edge
/// is counted when the state changes, and a falling edge ends a pulse that
/// a rising edge began; the sample joins the history, whose oldest sample
/// goes when it grows past its bound.
pub open spec fn sampled(before: PinState, s: bool, now: Instant, after: PinState) -> bool {
    let changed = s != before.state;
    &&& after.state == s
    &&& after.last_change == if changed { now } else { before.last_change }
    &&& after.rising_edges == if changed && s { before.rising_edges + 1 } else { before.rising_edges as int }
    &&& after.falling_edges == if changed && !s { before.falling_edges + 1 } else { before.falling_edges as int }
    &&& after.pulse_active == if changed { s } else { before.pulse_active }
    &&& after.last_pulse == if changed && !s && before.pulse_active {
        Some((before.last_change, now))
    } else {
        before.last_pulse
    }
    &&& after.history@ == if before.history@.len() < MAX_PIN_HISTORY {
        before.history@.push((now, s))
    } else {
        before.history@.push((now, s)).drop_first()
    }
}

/// Edges alternate: a pin has seen one more rising edge than falling edges
/// exactly while it is high.
pub open spec fn edges_balanced(p: PinState) -> bool {
    p.rising_edges == p.falling_edges + if p.state { 1int } else { 0int }
}

/// A fresh pin's edges are balanced, and every sample keeps them so.
pub proof fn lemma_edges_stay_balanced(before: PinState, s: bool, now: Instant, after: PinState)
    requires
        edges_balanced(before),
        sampled(before, s, now, after),
    ensures
        edges_balanced(after),
{
}

impl PinState {
    /// A low pin, unchanged since `now`, with no edges and no history.
    pub fn new(now: Instant) -> (r: Self)
        ensures
            !r.state,
            r.last_change == now,
            r.rising_edges == 0,
            r.falling_edges == 0,
            r.history@.len() == 0,
            !r.pulse_active,
            r.last_pulse is None,
    {
        PinState {
            state: false,
            last_change: now,
            rising_edges: 0,
            falling_edges: 0,
            history: VecDeque::new(),
            pulse_active: false,
            last_pulse: None,
        }
    }

    /// Take a sample of the pin's state.
    pub fn update(&mut self, new_state: bool, now: Instant)
        requires
            old(self).history@.len() <= MAX_PIN_HISTORY,
            old(self).rising_edges < u64::MAX,
            old(self).falling_edges < u64::MAX,
        ensures
            sampled(*old(self), new_state, now, *final(self)),
            final(self).history@.len() <= MAX_PIN_HISTORY,
    {
        if new_state != self.state {
            if new_state {
                self.rising_edges = self.rising_edges + 1;
                self.pulse_active = true;
            } else {
                self.falling_edges = self.falling_edges + 1;
                if self.pulse_active {
                    self.last_pulse = Some((self.last_change, now));
                    self.pulse_active = false;
                }
            }
            self.last_change = now;
        }
        self.state = new_state;
        let ghost before = self.history@;
        self.history.push_back((now, new_state));
        if self.history.len() > MAX_PIN_HISTORY {
            let _ = self.history.pop_front();
            proof {
                assert(self.history@ =~= before.push((now, new_state)).drop_first());
            }
        }
    }

    /// Start counting edges afresh.
    pub fn reset_counters(&mut self)
        ensures
            *final(self) == (PinState { rising_edges: 0, falling_edges: 0, ..*old(self) }),
    {
        self.rising_edges = 0;
        self.falling_edges = 0;
    }
}

/// The monitor of a device's digital pins.
pub struct DioMonitorPanel {
    pins: Vec<PinState>,
    n_pins: u32,
    display_mode: MonitorDisplayMode,
    frozen: bool,
    pin_labels: Vec<String>,
}

impl DioMonitorPanel {
    pub closed spec fn pins(&self) -> Seq<PinState> {
        self.pins@
    }

    /// The number of pins shown.
    pub closed spec fn pins_shown(&self) -> nat {
        self.n_pins as nat
    }

    pub closed spec fn mode(&self) -> MonitorDisplayMode {
        self.display_mode
    }

    /// Samples are not taken in while frozen.
    pub closed spec fn is_frozen(&self) -> bool {
        self.frozen
    }

    pub closed spec fn labels(&self) -> Seq<String> {
        self.pin_labels@
    }

    /// The monitor holds its pins; each pin's history is bounded.
    pub open spec fn wf(&self) -> bool {
        &&& self.pins().len() == MONITOR_PINS
        &&& forall|i: int| 0 <= i < self.pins().len() ==> #[trigger] self.pins()[i].history@.len() <= MAX_PIN_HISTORY
    }

    /// A monitor showing `n_pins` pins (at most 32) as LEDs, all low since
    /// `now`, labelled `DIO0` to `DIO31`.
    pub fn new(n_pins: u32, now: Instant) -> (r: Self)
        ensures
            r.wf(),
            r.pins_shown() == if n_pins < MONITOR_PINS { n_pins as nat } else { MONITOR_PINS as nat },
            r.mode() == MonitorDisplayMode::LEDs,
            !r.is_frozen(),
            forall|i: int|
                0 <= i < MONITOR_PINS ==> {
                    let p = #[trigger] r.pins()[i];
                    &&& !p.state
                    &&& p.last_change == now
                    &&& p.rising_edges == 0
                    &&& p.falling_edges == 0
                    &&& p.history@.len() == 0
                    &&& !p.pulse_active
                    &&& p.last_pulse is None
                },
            r.labels().len() == MONITOR_PINS,
            forall|i: int| 0 <= i < MONITOR_PINS ==> (#[trigger] r.labels()[i])@ == "DIO"@ + decimal(i as nat),
    {
        let mut pins: Vec<PinState> = Vec::new();
        let mut labels: Vec<String> = Vec::new();
        let mut i: usize = 0;
        while i < MONITOR_PINS
            invariant
                i <= MONITOR_PINS,
                pins@.len() == i,
                labels@.len() == i,
                forall|j: int|
                    0 <= j < i ==> {
                        let p = #[trigger] pins@[j];
                        &&& !p.state
                        &&& p.last_change == now
                        &&& p.rising_edges == 0
                        &&& p.falling_edges == 0
                        &&& p.history@.len() == 0
                        &&& !p.pulse_active
                        &&& p.last_pulse is None
                    },
                forall|j: int| 0 <= j < i ==> (#[trigger] labels@[j])@ == "DIO"@ + decimal(j as nat),
            decreases MONITOR_PINS - i,
        {
            pins.push(PinState::new(now));
            let mut label = string_of("DIO");
            push_decimal(&mut label, i as u64);
            labels.push(label);
            i = i + 1;
        }
        let n = if n_pins < 32 { n_pins } else { 32 };
        DioMonitorPanel { pins, n_pins: n, display_mode: MonitorDisplayMode::LEDs, frozen: false, pin_labels: labels }
    }

    /// Take in a sampled pin state; ignored while frozen or for a pin the
    /// monitor does not hold.
    pub fn apply_update(&mut self, pin: u32, state: bool, now: Instant)
        requires
            old(self).wf(),
            (pin as int) < old(self).pins().len() ==> old(self).pins()[pin as int].rising_edges < u64::MAX
                && old(self).pins()[pin as int].falling_edges < u64::MAX,
        ensures
            final(self).wf(),
            final(self).pins_shown() == old(self).pins_shown(),
            final(self).mode() == old(self).mode(),
            final(self).is_frozen() == old(self).is_frozen(),
            final(self).labels() == old(self).labels(),
            (old(self).is_frozen() || pin as int >= old(self).pins().len()) ==> final(self).pins() == old(self).pins(),
            (!old(self).is_frozen() && (pin as int) < old(self).pins().len()) ==> {
                &&& final(self).pins().len() == old(self).pins().len()
                &&& sampled(old(self).pins()[pin as int], state, now, final(self).pins()[pin as int])
                &&& forall|j: int|
                    0 <= j < old(self).pins().len() && j != pin ==> #[trigger] final(self).pins()[j] == old(self).pins()[j]
            },
    {
        if self.frozen || pin as usize >= self.pins.len() {
            return;
        }
        let k = pin as usize;
        let mut p = self.pins.remove(k);
        let ghost pins0 = old(self).pins();
        proof {
            pins0.remove_ensures(k as int);
        }
        p.update(state, now);
        self.pins.insert(k, p);
        proof {
            pins0.remove(k as int).insert_ensures(k as int, p);
            assert forall|j: int| 0 <= j < pins0.len() && j != k implies #[trigger] self.pins()[j] == pins0[j] by {
                if j < k {
                    assert(self.pins()[j] == pins0.remove(k as int)[j]);
                } else {
                    assert(self.pins()[j] == pins0.remove(k as int)[j - 1]);
                }
            }
            assert forall|i: int| 0 <= i < self.pins().len() implies #[trigger] self.pins()[i].history@.len()
                <= MAX_PIN_HISTORY by {
                if i != k {
                    assert(self.pins()[i] == pins0[i]);
                }
            }
        }
    }

    /// Freeze or unfreeze the display.
    pub fn toggle_frozen(&mut self)
        ensures
            final(self).is_frozen() == !old(self).is_frozen(),
            final(self).pins() == old(self).pins(),
            final(self).pins_shown() == old(self).pins_shown(),
            final(self).mode() == old(self).mode(),
            final(self).labels() == old(self).labels(),
    {
        self.frozen = !self.frozen;
    }

    /// Start counting edges afresh on every pin.
    pub fn reset_counters(&mut self)
        requires
            old(self).wf(),
        ensures
            final(self).wf(),
            final(self).pins().len() == old(self).pins().len(),
            forall|i: int|
                0 <= i < old(self).pins().len() ==> #[trigger] final(self).pins()[i] == (PinState {
                    rising_edges: 0,
                    falling_edges: 0,
                    ..old(self).pins()[i]
                }),
            final(self).is_frozen() == old(self).is_frozen(),
            final(self).pins_shown() == old(self).pins_shown(),
            final(self).mode() == old(self).mode(),
            final(self).labels() == old(self).labels(),
    {
        let ghost pins0 = self.pins@;
        let ghost n0 = self.n_pins;
        let ghost f0 = self.frozen;
        let ghost m0 = self.display_mode;
        let ghost l0 = self.pin_labels@;
        let mut i: usize = 0;
        while i < self.pins.len()
            invariant
                self.n_pins == n0,
                self.frozen == f0,
                self.display_mode == m0,
                self.pin_labels@ == l0,
                i <= self.pins@.len(),
                self.pins@.len() == pins0.len(),
                forall|j: int| 0 <= j < i ==> #[trigger] self.pins@[j] == (PinState { rising_edges: 0, falling_edges: 0, ..pins0[j] }),
                forall|j: int| i <= j < pins0.len() ==> #[trigger] self.pins@[j] == pins0[j],
            decreases self.pins@.len() - i,
        {
            let mut p = self.pins.remove(i);
            p.reset_counters();
            self.pins.insert(i, p);
            i = i + 1;
        }
    }

    /// Show the pins another way.
    pub fn set_mode(&mut self, mode: MonitorDisplayMode)
        ensures
            final(self).mode() == mode,
            final(self).pins() == old(self).pins(),
            final(self).is_frozen() == old(self).is_frozen(),
            final(self).pins_shown() == old(self).pins_shown(),
            final(self).labels() == old(self).labels(),
    {
        self.display_mode = mode;
    }

    /// The state of a pin the monitor holds.
    pub fn pin(&self, i: usize) -> (r: &PinState)
        requires
            i < self.pins().len(),
        ensures
            *r == self.pins()[i as int],
    {
        &self.pins[i]
    }

    /// The number of pins shown.
    pub fn n_pins(&self) -> (r: u32)
        ensures
            r == self.pins_shown(),
    {
        self.n_pins
    }

    /// The label of a pin the monitor holds.
    pub fn label(&self, i: usize) -> (r: &String)
        requires
            i < self.labels().len(),
        ensures
            *r == self.labels()[i as int],
    {
        &self.pin_labels[i]
    }

    pub fn frozen(&self) -> (r: bool)
        ensures
            r == self.is_frozen(),
    {
        self.frozen
    }

    pub fn display_mode(&self) -> (r: MonitorDisplayMode)
        ensures
            r == self.mode(),
    {
        self.display_mode
    }
}

} // verus!
