//! How the results of an adaptive scan's triggers combine.

use vstd::prelude::*;
use crate::graph::nodes::TriggerLogic;

verus! {

/// Whether trigger results fire the scan's action: never without triggers;
/// with `Any` when one trigger fired, with `All` when every one did.
pub open spec fn combined(logic: TriggerLogic, fired: Seq<bool>) -> bool {
    fired.len() > 0 && match logic {
        TriggerLogic::Any => exists|i: int| 0 <= i < fired.len() && fired[i],
        TriggerLogic::All => forall|i: int| 0 <= i < fired.len() ==> fired[i],
    }
}

/// The positions of the triggers that fired, in order.
pub open spec fn fired_positions(fired: Seq<bool>) -> Seq<usize>
    decreases fired.len(),
{
    if fired.len() == 0 {
        Seq::empty()
    } else {
        let earlier = fired_positions(fired.drop_last());
        if fired.last() {
            earlier.push((fired.len() - 1) as usize)
        } else {
            earlier
        }
    }
}

/// The combination counts fired triggers: `Any` fires when at least one
/// position is listed, `All` when every trigger's position is.
pub proof fn lemma_combined_counts(fired: Seq<bool>)
    requires
        fired.len() <= usize::MAX,
    ensures
        combined(TriggerLogic::Any, fired) == (fired_positions(fired).len() > 0),
        combined(TriggerLogic::All, fired) == (fired.len() > 0 && fired_positions(fired).len() == fired.len()),
        fired_positions(fired).len() <= fired.len(),
        forall|j: int| 0 <= j < fired_positions(fired).len() ==> #[trigger] fired_positions(fired)[j] < fired.len()
            && fired[fired_positions(fired)[j] as int],
    decreases fired.len(),
{
    if fired.len() > 0 {
        let rest = fired.drop_last();
        lemma_combined_counts(rest);
        let n = fired.len() - 1;
        assert forall|q: int| 0 <= q < n implies fired[q] == rest[q] by {}
        let pr = fired_positions(rest);
        let pf = fired_positions(fired);
        assert forall|j: int| 0 <= j < pf.len() implies #[trigger] pf[j] < fired.len() && fired[pf[j] as int] by {
            if fired.last() {
                assert(pf == pr.push(n as usize));
            } else {
                assert(pf == pr);
            }
            if j < pr.len() {
                assert(pf[j] == pr[j]);
                assert(pr[j] < rest.len() && rest[pr[j] as int]);
            } else {
                assert(pf[j] == n);
            }
        }
        if fired.last() {
            assert(fired[n]);
        } else {
            assert(!fired[n]);
            if exists|q: int| 0 <= q < fired.len() && fired[q] {
                let q = choose|q: int| 0 <= q < fired.len() && fired[q];
                assert(rest[q]);
            }
        }
    }
}

/// The combined outcome of a scan's triggers.
pub struct TriggerOutcome {
    pub fired: bool,
    pub fired_triggers: Vec<usize>,
}

/// Combine the results of the triggers, given in trigger order.
pub fn combine_triggers(logic: TriggerLogic, fired: &Vec<bool>) -> (r: TriggerOutcome)
    ensures
        r.fired == combined(logic, fired@),
        r.fired_triggers@ == fired_positions(fired@),
{
    let mut positions: Vec<usize> = Vec::new();
    let mut any = false;
    let mut all = true;
    let mut i: usize = 0;
    while i < fired.len()
        invariant
            i <= fired.len(),
            positions@ == fired_positions(fired@.take(i as int)),
            any == exists|q: int| 0 <= q < i && fired@[q],
            all == forall|q: int| 0 <= q < i ==> fired@[q],
        decreases fired.len() - i,
    {
        proof {
            assert(fired@.take(i + 1).drop_last() =~= fired@.take(i as int));
        }
        if fired[i] {
            positions.push(i);
            any = true;
        } else {
            all = false;
        }
        i = i + 1;
    }
    proof {
        assert(fired@.take(fired.len() as int) =~= fired@);
    }
    let fires = if fired.len() == 0 {
        false
    } else {
        match logic {
            TriggerLogic::Any => any,
            TriggerLogic::All => all,
        }
    };
    TriggerOutcome { fired: fires, fired_triggers: positions }
}

} // verus!
