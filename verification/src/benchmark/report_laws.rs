//! What the report of a benchmark run says.

use crate::benchmark::bench::BenchStep;
use crate::benchmark::certification;
use crate::benchmark::certification::{CertificationEvidence, CertificationPolicy};
use crate::benchmark::runner;
use crate::benchmark::runner::{
    BenchmarkPhaseRecord, BenchmarkRunState, PhaseEffect, PhaseExecution,
};
use crate::benchmark::snapshot;
use crate::benchmark::snapshot::BenchmarkPlan;
use crate::error::NetToolError;
use vstd::prelude::*;

verus! {

/// A report has a record for each of the ten phases, in their order.
pub proof fn law_every_phase_is_reported(
    records: Seq<BenchmarkPhaseRecord>,
    state: BenchmarkRunState,
    i: int,
)
    requires
        runner::is_consistent(records, state),
        0 <= i < 10,
    ensures
        records.len() == 10,
        records[i].phase == snapshot::phase_order()[i],
{
    match state {
        BenchmarkRunState::Canceled => {
            let n = choose|n: int|
                0 <= n <= 10 && #[trigger] runner::ran(records, n) && runner::skipped_from(
                    records,
                    n,
                );
            if i < n {
                assert(records[i].phase == snapshot::phase_order()[i]);
            } else {
                assert(runner::is_skipped(records[i], snapshot::phase_order()[i]));
            }
        },
        BenchmarkRunState::Failed => {
            let n = choose|n: int|
                0 <= n < 10 && #[trigger] runner::ran(records, n) && runner::failed_at(records, n)
                    && runner::skipped_from(records, n + 1);
            if i < n {
                assert(records[i].phase == snapshot::phase_order()[i]);
            } else if i > n {
                assert(runner::is_skipped(records[i], snapshot::phase_order()[i]));
            }
        },
        _ => {
            assert(records[i].phase == snapshot::phase_order()[i]);
        },
    }
}

/// A run that was completed has completed every phase, each behind the one before it. It is
/// degraded exactly where an issue of some phase says so.
pub proof fn law_completed_runs(
    records: Seq<BenchmarkPhaseRecord>,
    state: BenchmarkRunState,
    i: int,
    k: int,
)
    requires
        runner::is_consistent(records, state),
        state is Completed || state is CompletedDegraded,
        0 <= i < 10,
    ensures
        records[i].status is Completed,
        records[i].started_monotonic_nanoseconds is Some,
        records[i].ended_monotonic_nanoseconds is Some,
        records[i].started_monotonic_nanoseconds->0 <= records[i].ended_monotonic_nanoseconds->0,
        i + 1 < 10 ==> records[i].ended_monotonic_nanoseconds->0 <= records[i
            + 1].started_monotonic_nanoseconds->0,
        state is Completed && 0 <= k < records[i].issues@.len() ==> !(
        records[i].issues@[k].severity is Degraded),
        state is CompletedDegraded ==> exists|a: int, b: int|
            0 <= a < 10 && 0 <= b < records[a].issues@.len() && (
            #[trigger] records[a].issues@[b]).severity is Degraded,
{
    assert(records[i].status is Completed);
    if i + 1 < 10 {
        assert(records[i].ended_monotonic_nanoseconds->0 <= records[i
            + 1].started_monotonic_nanoseconds->0);
    }
    if state is CompletedDegraded {
        let a = choose|a: int|
            0 <= a < 10 && runner::any_issue(
                (#[trigger] records[a]).issues@,
                crate::benchmark::runner::BenchmarkIssueSeverity::Degraded,
            );
        let b = choose|b: int|
            0 <= b < records[a].issues@.len() && (#[trigger] records[a].issues@[b]).severity
                is Degraded;
        assert(records[a].issues@[b].severity is Degraded);
    }
}

/// A run that failed has one phase that failed: all before it were completed, and none behind
/// it ran.
pub proof fn law_failed_runs(records: Seq<BenchmarkPhaseRecord>) -> (n: int)
    requires
        runner::is_consistent(records, BenchmarkRunState::Failed),
    ensures
        0 <= n < 10,
        records[n].status is Failed,
        forall|i: int| 0 <= i < n ==> (#[trigger] records[i]).status is Completed,
        forall|i: int| n < i < 10 ==> (#[trigger] records[i]).status is Skipped,
{
    let n = choose|n: int|
        0 <= n < 10 && #[trigger] runner::ran(records, n) && runner::failed_at(records, n)
            && runner::skipped_from(records, n + 1);
    assert forall|i: int| n < i < 10 implies (#[trigger] records[i]).status is Skipped by {
        assert(runner::is_skipped(records[i], snapshot::phase_order()[i]));
    }
    n
}

/// A run that was cancelled has completed the phases up to some point, and none behind it ran;
/// none of them failed.
pub proof fn law_cancelled_runs(records: Seq<BenchmarkPhaseRecord>, i: int)
    requires
        runner::is_consistent(records, BenchmarkRunState::Canceled),
        0 <= i < 10,
    ensures
        records[i].status is Completed || records[i].status is Skipped,
        i + 1 < 10 && records[i].status is Skipped ==> records[i + 1].status is Skipped,
{
    let n = choose|n: int|
        0 <= n <= 10 && #[trigger] runner::ran(records, n) && runner::skipped_from(records, n);
    if i < n {
        assert(records[i].status is Completed);
    } else {
        assert(runner::is_skipped(records[i], snapshot::phase_order()[i]));
    }
    if n <= i + 1 < 10 {
        assert(runner::is_skipped(records[i + 1], snapshot::phase_order()[i + 1]));
    }
}

/// What the gates say of evidence that meets them, and of evidence that does not.
pub proof fn law_reasons_of_gates(e: CertificationEvidence, policy: Option<CertificationPolicy>)
    ensures
        ({
            let g = certification::all_gates(e, policy);
            &&& g[0].status is Pass ==> g[0].reason == "100GbE link is negotiated"@
            &&& g[0].status is Fail ==> g[0].reason == "negotiated link is below 100GbE"@
            &&& g[1].status is Pass ==> g[1].reason == "NIC, CPU and memory locality are valid"@
            &&& g[1].status is Fail ==> g[1].reason == "NUMA locality is invalid"@
            &&& g[2].status is Pass ==> g[2].reason == "RSS and RX queue distribution are valid"@
            &&& g[2].status is Fail ==> g[2].reason == "RSS or RX queue distribution is invalid"@
            &&& g[3].status is Pass ==> g[3].reason == "throughput meets the POC-defined threshold"@
            &&& g[3].status is Fail ==> g[3].reason
                == "throughput is below the POC-defined threshold"@
            &&& g[4].status is Pass ==> g[4].reason == "all classified drops meet thresholds"@
            &&& g[4].status is Fail ==> g[4].reason
                == "one or more classified drops exceed thresholds"@
            &&& g[5].status is Pass ==> g[5].reason
                == "CPU and per-core efficiency evidence is complete"@
            &&& g[5].status is Fail ==> g[5].reason == "CPU evidence is invalid"@
            &&& g[6].status is Pass ==> g[6].reason
                == "short and sustained tests meet configured durations"@
            &&& g[6].status is Fail ==> g[6].reason
                == "short or sustained test duration is insufficient"@
            &&& g[8].status is Pass ==> g[8].reason
                == "64B and 1518B analyzer loads meet thresholds"@
            &&& g[8].status is Fail ==> g[8].reason
                == "analyzer throughput or drops fail a primary load"@
        }),
{
}

/// A phase that was run is asked for once, between two readings of the clock that its record holds
/// and that are in order, and behind the question whether to stop.
pub proof fn law_phases_are_timed(
    from: Seq<BenchStep>,
    to: Seq<BenchStep>,
    plan: BenchmarkPlan,
    record: BenchmarkPhaseRecord,
    stopped: bool,
)
    requires
        runner::phase_run(from, to, plan, record, stopped),
    ensures
        to.len() == from.len() + 4,
        to.take(from.len() as int) == from,
        to[from.len() as int] == BenchStep::Asked(false),
        to[from.len() + 1int] matches BenchStep::Clock(started)
            && record.started_monotonic_nanoseconds == Some(started),
        to[from.len() + 2int] matches BenchStep::Executed(phase, with, outcome) && phase
            == record.phase && with == plan && (outcome is Err ==> stopped),
        to[from.len() + 3int] matches BenchStep::Clock(ended) && record.ended_monotonic_nanoseconds
            == Some(ended),
        record.started_monotonic_nanoseconds->0 <= record.ended_monotonic_nanoseconds->0,
        stopped <==> record.status is Failed,
{
    let (started, outcome, ended, effect) = choose|
        started: u64,
        outcome: Result<PhaseExecution, NetToolError>,
        ended: u64,
        effect: PhaseEffect,
    |
        {
            &&& to == from + #[trigger] runner::phase_calls(
                plan,
                record.phase,
                started,
                outcome,
                ended,
            )
            &&& started <= ended
            &&& #[trigger] runner::follows_from(
                record,
                effect,
                record.phase,
                started,
                ended,
                outcome,
            )
            &&& stopped == (effect is Stop)
        };
    let calls = runner::phase_calls(plan, record.phase, started, outcome, ended);
    assert(to == from + calls);
    assert(to[from.len() as int] == calls[0]);
    assert(to[from.len() + 1int] == calls[1]);
    assert(to[from.len() + 2int] == calls[2]);
    assert(to[from.len() + 3int] == calls[3]);
    assert(to.take(from.len() as int) =~= from);
}

/// A run that ended well ran all ten phases, one behind the other.
pub proof fn law_ended_runs(
    path: Seq<Seq<BenchStep>>,
    to: Seq<BenchStep>,
    plan: BenchmarkPlan,
    records: Seq<BenchmarkPhaseRecord>,
    state: BenchmarkRunState,
    i: int,
)
    requires
        runner::phases_run(path, plan, records),
        runner::run_ended(path, to, plan, records, state),
        0 <= i < path.len() - 1,
    ensures
        state is Completed || state is CompletedDegraded ==> path.len() == 11 && to == path[10],
        state is Failed || state is Canceled ==> path.len() <= 10,
        state is Canceled ==> to.len() > 0 && to.last() == BenchStep::Asked(true),
        path[i + 1].len() == path[i].len() + 5,
        path[i + 1].last() == BenchStep::Asked(false),
        !(records[i].status is Failed),
{
    assert(path[i] == path[i]);
    let behind = choose|behind: Seq<BenchStep>| #[trigger]
        runner::phase_run(path[i], behind, plan, records[i], false) && path[i + 1] == behind.push(
            BenchStep::Asked(false),
        );
    law_phases_are_timed(path[i], behind, plan, records[i], false);
}

} // verus!
