//! What the health service reports of the system's modules and errors.

use vstd::prelude::*;

verus! {

/// How serious a recorded error is, from least to most.
#[derive(Debug, Clone, Copy, PartialEq, Eq, Structural)]
pub enum ErrorSeverity {
    Info,
    Warning,
    Error,
    Critical,
}

/// The rank of a severity: info 0, warning 1, error 2, critical 3.
pub open spec fn rank(s: ErrorSeverity) -> int {
    match s {
        ErrorSeverity::Info => 0,
        ErrorSeverity::Warning => 1,
        ErrorSeverity::Error => 2,
        ErrorSeverity::Critical => 3,
    }
}

impl ErrorSeverity {
    /// At least as serious as `other`.
    pub fn at_least(&self, other: &ErrorSeverity) -> (r: bool)
        ensures
            r == (rank(*self) >= rank(*other)),
    {
        let a: u8 = match self {
            ErrorSeverity::Info => 0,
            ErrorSeverity::Warning => 1,
            ErrorSeverity::Error => 2,
            ErrorSeverity::Critical => 3,
        };
        let b: u8 = match other {
            ErrorSeverity::Info => 0,
            ErrorSeverity::Warning => 1,
            ErrorSeverity::Error => 2,
            ErrorSeverity::Critical => 3,
        };
        a >= b
    }
}

/// The counts of a system health report.
pub struct HealthCounts {
    pub total_modules: u32,
    pub healthy_modules: u32,
    pub unhealthy_modules: u32,
    pub total_errors: u32,
    pub critical_errors: u32,
}

/// How many flags are set.
pub open spec fn count_true(flags: Seq<bool>) -> nat
    decreases flags.len(),
{
    if flags.len() == 0 {
        0
    } else {
        count_true(flags.drop_last()) + if flags.last() { 1nat } else { 0nat }
    }
}

/// How many errors are critical.
pub open spec fn count_critical(severities: Seq<ErrorSeverity>) -> nat
    decreases severities.len(),
{
    if severities.len() == 0 {
        0
    } else {
        count_critical(severities.drop_last()) + if severities.last() == ErrorSeverity::Critical { 1nat } else { 0nat }
    }
}

proof fn lemma_count_true_bound(flags: Seq<bool>)
    ensures
        count_true(flags) <= flags.len(),
    decreases flags.len(),
{
    if flags.len() > 0 {
        lemma_count_true_bound(flags.drop_last());
    }
}

proof fn lemma_count_critical_bound(severities: Seq<ErrorSeverity>)
    ensures
        count_critical(severities) <= severities.len(),
    decreases severities.len(),
{
    if severities.len() > 0 {
        lemma_count_critical_bound(severities.drop_last());
    }
}

/// The counts of a report, from each module's health and each error's
/// severity. Counts are cut to 32 bits as the report carries them; the
/// unhealthy count is the module count less the healthy one, at least 0.
pub fn health_counts(healthy: &Vec<bool>, severities: &Vec<ErrorSeverity>) -> (r: HealthCounts)
    ensures
        r.total_modules == healthy@.len() as u32,
        r.healthy_modules == count_true(healthy@) as u32,
        r.unhealthy_modules == if (healthy@.len() as u32) >= (count_true(healthy@) as u32) {
            ((healthy@.len() as u32) - (count_true(healthy@) as u32)) as u32
        } else {
            0u32
        },
        r.total_errors == severities@.len() as u32,
        r.critical_errors == count_critical(severities@) as u32,
{
    let mut healthy_count: usize = 0;
    let mut i: usize = 0;
    while i < healthy.len()
        invariant
            i <= healthy.len(),
            healthy_count == count_true(healthy@.take(i as int)),
            healthy_count <= i,
        decreases healthy.len() - i,
    {
        proof {
            assert(healthy@.take(i + 1).drop_last() =~= healthy@.take(i as int));
        }
        if healthy[i] {
            healthy_count = healthy_count + 1;
        }
        i = i + 1;
    }
    proof {
        assert(healthy@.take(healthy.len() as int) =~= healthy@);
    }
    let mut critical: usize = 0;
    let mut j: usize = 0;
    while j < severities.len()
        invariant
            j <= severities.len(),
            critical == count_critical(severities@.take(j as int)),
            critical <= j,
        decreases severities.len() - j,
    {
        proof {
            assert(severities@.take(j + 1).drop_last() =~= severities@.take(j as int));
        }
        if severities[j] == ErrorSeverity::Critical {
            critical = critical + 1;
        }
        j = j + 1;
    }
    proof {
        assert(severities@.take(severities.len() as int) =~= severities@);
    }
    let total = healthy.len() as u32;
    let healthy_modules = healthy_count as u32;
    HealthCounts {
        total_modules: total,
        healthy_modules,
        unhealthy_modules: total.saturating_sub(healthy_modules),
        total_errors: severities.len() as u32,
        critical_errors: critical as u32,
    }
}

/// How many errors a history request asks for: its limit when positive,
/// else 100.
pub fn history_limit(limit: Option<u32>) -> (r: usize)
    ensures
        r == match limit {
            Some(l) => if l > 0 { l as usize } else { 100usize },
            None => 100usize,
        },
{
    match limit {
        Some(l) => if l > 0 {
            l as usize
        } else {
            100
        },
        None => 100,
    }
}

/// The positions of the errors at least as serious as `min`, in order.
pub open spec fn serious_positions(severities: Seq<ErrorSeverity>, min: ErrorSeverity) -> Seq<usize>
    decreases severities.len(),
{
    if severities.len() == 0 {
        Seq::empty()
    } else {
        let earlier = serious_positions(severities.drop_last(), min);
        if rank(severities.last()) >= rank(min) {
            earlier.push((severities.len() - 1) as usize)
        } else {
            earlier
        }
    }
}

/// The errors a history shows: those at least as serious as the requested
/// minimum (info when none is requested).
pub fn errors_at_least(severities: &Vec<ErrorSeverity>, min: Option<ErrorSeverity>) -> (r: Vec<usize>)
    ensures
        r@ == serious_positions(
            severities@,
            match min {
                Some(m) => m,
                None => ErrorSeverity::Info,
            },
        ),
{
    let floor = match min {
        Some(m) => m,
        None => ErrorSeverity::Info,
    };
    let mut r: Vec<usize> = Vec::new();
    let mut i: usize = 0;
    while i < severities.len()
        invariant
            i <= severities.len(),
            r@ == serious_positions(severities@.take(i as int), floor),
        decreases severities.len() - i,
    {
        proof {
            let t = severities@.take(i + 1);
            assert(t.drop_last() =~= severities@.take(i as int));
            assert(t.last() == severities@[i as int]);
        }
        if severities[i].at_least(&floor) {
            r.push(i);
        }
        i = i + 1;
    }
    proof {
        assert(severities@.take(severities.len() as int) =~= severities@);
    }
    r
}

/// The interval of health updates: as requested when positive, else five
/// seconds.
pub fn update_interval_ms(requested_ms: u32) -> (r: u64)
    ensures
        r == if requested_ms > 0 { requested_ms as u64 } else { 5000u64 },
{
    if requested_ms > 0 {
        requested_ms as u64
    } else {
        5000
    }
}

} // verus!
