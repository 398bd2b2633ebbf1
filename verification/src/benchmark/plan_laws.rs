//! What holds of benchmark plans, of what phases give and of environments.

use crate::benchmark::runner;
use crate::benchmark::runner::{
    BenchmarkIssue, BenchmarkIssueSeverity, BenchmarkPhaseRecord, PhaseEffect, PhaseExecution,
    PhaseStatus,
};
use crate::benchmark::snapshot;
use crate::benchmark::snapshot::{BenchmarkEnvironmentSnapshot, BenchmarkPhase, BenchmarkPlan};
use crate::error::NetToolError;
use crate::text_laws;
use vstd::prelude::*;
use vstd::utf8::encode_utf8;

verus! {

// --------------------------------------------------------------------------------------- plans

/// A plan is valid exactly where its profile is named, it holds all seven frame sizes and the
/// four numbers of flows, a million flows or more, and none of its times is zero.
pub proof fn law_valid_plans(plan: BenchmarkPlan)
    ensures
        snapshot::plan_fault(plan) is None <==> {
            let sizes = plan.frame_sizes_bytes@;
            let flows = plan.flow_counts@;
            &&& !text_laws::all_white(plan.profile_id@)
            &&& sizes.contains(64) && sizes.contains(128) && sizes.contains(256) && sizes.contains(
                512,
            ) && sizes.contains(1024) && sizes.contains(1518) && sizes.contains(9018)
            &&& flows.contains(1) && flows.contains(16) && flows.contains(256) && flows.contains(
                4096,
            )
            &&& exists|i: int| 0 <= i < flows.len() && #[trigger] flows[i] >= 1_000_000
            &&& plan.warmup_seconds > 0
            &&& plan.measurement_seconds > 0
            &&& plan.sustained_seconds > 0
        },
{
    text_laws::law_trimming_takes_white_space_away(plan.profile_id@);
    lemma_sizes(snapshot::required_frame_sizes(), plan.frame_sizes_bytes@, 0);
    lemma_counts(snapshot::required_flow_counts(), plan.flow_counts@, 0);
    let r = snapshot::required_frame_sizes();
    assert(r.len() == 7 && r[0] == 64 && r[1] == 128 && r[2] == 256 && r[3] == 512 && r[4] == 1024
        && r[5] == 1518 && r[6] == 9018);
    let c = snapshot::required_flow_counts();
    assert(c.len() == 4 && c[0] == 1 && c[1] == 16 && c[2] == 256 && c[3] == 4096);
}

proof fn lemma_sizes(required: Seq<u32>, present: Seq<u32>, i: int)
    requires
        0 <= i <= required.len(),
    ensures
        snapshot::first_missing_size(required, present, i) is None <==> forall|k: int|
            i <= k < required.len() ==> present.contains(#[trigger] required[k]),
    decreases required.len() - i,
{
    if i < required.len() {
        lemma_sizes(required, present, i + 1);
    }
}

proof fn lemma_counts(required: Seq<u64>, present: Seq<u64>, i: int)
    requires
        0 <= i <= required.len(),
    ensures
        snapshot::first_missing_count(required, present, i) is None <==> forall|k: int|
            i <= k < required.len() ==> present.contains(#[trigger] required[k]),
    decreases required.len() - i,
{
    if i < required.len() {
        lemma_counts(required, present, i + 1);
    }
}

/// What is named as missing of a matrix is missing, and all that is required before it is not.
pub proof fn law_first_missing_size(required: Seq<u32>, present: Seq<u32>, i: int)
    requires
        0 <= i <= required.len(),
    ensures
        snapshot::first_missing_size(required, present, i) matches Some(n) ==> {
            &&& !present.contains(n)
            &&& exists|k: int|
                i <= k < required.len() && #[trigger] required[k] == n && forall|j: int|
                    i <= j < k ==> present.contains(#[trigger] required[j])
        },
    decreases required.len() - i,
{
    if i < required.len() && present.contains(required[i]) {
        law_first_missing_size(required, present, i + 1);
        if let Some(n) = snapshot::first_missing_size(required, present, i) {
            let k = choose|k: int|
                i + 1 <= k < required.len() && #[trigger] required[k] == n && forall|j: int|
                    i + 1 <= j < k ==> present.contains(#[trigger] required[j]);
            assert(required[k] == n);
        }
    } else if i < required.len() {
        assert(required[i] == required[i]);
    }
}

/// The phases come in one order: the environment, the baselines, both directions at once, the
/// two matrices, the long test, the analysis, and the result last.
pub proof fn law_order_of_phases()
    ensures
        snapshot::phase_order().len() == 10,
        snapshot::phase_order().no_duplicates(),
        snapshot::phase_order()[0] is EnvironmentCheck,
        snapshot::phase_order()[1] is NicBaseline,
        snapshot::phase_order()[2] is RxBaseline,
        snapshot::phase_order()[3] is TxBaseline,
        snapshot::phase_order()[4] is Bidirectional,
        snapshot::phase_order()[5] is PacketSizeMatrix,
        snapshot::phase_order()[6] is FlowMatrix,
        snapshot::phase_order()[7] is DurationTest,
        snapshot::phase_order()[8] is AnalysisTest,
        snapshot::phase_order()[9] is Result,
{
}

/// There are two built in profiles, the second of which takes longer at everything.
pub proof fn law_built_in_profiles(id: Seq<char>)
    ensures
        runner::profile_times(id) is Some <==> id == "functional-default"@ || id == "100g-cert"@,
        runner::profile_times("functional-default"@) == Some((5u64, 10u64, 60u64)),
        runner::profile_times("100g-cert"@) == Some((10u64, 60u64, 3600u64)),
{
    reveal_strlit("functional-default");
    reveal_strlit("100g-cert");
    assert("functional-default"@.len() != "100g-cert"@.len());
}

// -------------------------------------------------------------------------------------- phases

/// Whether an issue can be reported: it has a code of at most 128 bytes and a message of at most
/// 4096.
pub open spec fn reportable(issue: BenchmarkIssue) -> bool {
    &&& !text_laws::all_white(issue.code@)
    &&& encode_utf8(issue.code@).len() <= 128
    &&& encode_utf8(issue.message@).len() <= 4096
}

/// What a phase gives is taken exactly where the evidence is at most a mebibyte and every issue
/// can be reported.
pub proof fn law_what_phases_give(e: PhaseExecution)
    ensures
        runner::execution_fault(e) is None <==> {
            &&& e.evidence@.len() <= 1024 * 1024
            &&& forall|i: int| 0 <= i < e.issues@.len() ==> reportable(#[trigger] e.issues@[i])
        },
{
    assert forall|i: int| 0 <= i < e.issues@.len() implies (runner::issue_valid(
        #[trigger] e.issues@[i],
    ) <==> reportable(e.issues@[i])) by {
        text_laws::law_trimming_takes_white_space_away(e.issues@[i].code@);
    }
}

/// What follows from a phase. A phase that failed, and one whose output is not taken, stop the
/// run and leave no evidence. One with a fatal issue stops it too, but keeps what it gave; all
/// others are completed and let the run go on, and the result is degraded exactly where an
/// issue says so.
pub proof fn law_what_follows_from_a_phase(
    record: BenchmarkPhaseRecord,
    effect: PhaseEffect,
    phase: BenchmarkPhase,
    started: u64,
    ended: u64,
    outcome: Result<PhaseExecution, NetToolError>,
    k: int,
)
    requires
        runner::follows_from(record, effect, phase, started, ended, outcome),
    ensures
        record.phase == phase,
        record.started_monotonic_nanoseconds == Some(started),
        record.ended_monotonic_nanoseconds == Some(ended),
        record.status is Failed <==> effect is Stop,
        record.status is Completed <==> !(effect is Stop),
        outcome is Err ==> effect is Stop && record.evidence is None && record.issues@.len() == 0,
        outcome matches Err(e) ==> {
            &&& record.error_code matches Some(c) && c@ == e.code.text()
            &&& record.error_message matches Some(m) && m@ == e.message@
        },
        outcome matches Ok(execution) ==> {
            &&& runner::execution_fault(execution) is Some ==> effect is Stop
                && record.evidence is None && record.error_code is Some
            &&& runner::execution_fault(execution) is None ==> {
                let issues = execution.issues@;
                &&& record.evidence == Some(execution.evidence)
                &&& record.issues == execution.issues
                &&& record.error_code is None
                &&& 0 <= k < issues.len() && issues[k].severity is Fatal ==> effect is Stop
                &&& 0 <= k < issues.len() && issues[k].severity is Degraded ==> !(
                effect is Continue)
                &&& effect is Stop ==> exists|i: int|
                    0 <= i < issues.len() && (#[trigger] issues[i]).severity is Fatal
                &&& effect is ContinueDegraded ==> exists|i: int|
                    0 <= i < issues.len() && (#[trigger] issues[i]).severity is Degraded
            }
        },
{
}

/// A phase that did not run has no times, no evidence, no issues and no error.
pub proof fn law_skipped_phases_are_empty(record: BenchmarkPhaseRecord, phase: BenchmarkPhase)
    requires
        runner::is_skipped(record, phase),
    ensures
        record.phase == phase,
        record.status == PhaseStatus::Skipped,
        record.started_monotonic_nanoseconds is None,
        record.ended_monotonic_nanoseconds is None,
        record.evidence is None,
        record.issues@.len() == 0,
        record.error_code is None && record.error_message is None,
{
}

// -------------------------------------------------------------------------------- environments

/// Whether a text is given and says something.
pub open spec fn given(value: Option<String>) -> bool {
    value matches Some(s) && !text_laws::all_white(s@)
}

proof fn lemma_given(name: Seq<char>, value: Option<String>)
    ensures
        snapshot::missing_text(name, value) == (if given(value) {
            Seq::<Seq<char>>::empty()
        } else {
            seq![name]
        }),
{
    if let Some(s) = value {
        text_laws::law_trimming_takes_white_space_away(s@);
    }
}

/// There is a key for an environment exactly where every text of it says something and every
/// number of it is given and positive.
pub proof fn law_complete_environments(e: BenchmarkEnvironmentSnapshot)
    ensures
        e.key_fault() is None <==> {
            &&& given(e.os) && given(e.kernel) && given(e.cpu) && given(e.cpu_frequency) && given(
                e.numa,
            )
            &&& given(e.memory) && given(e.huge_pages) && given(e.nic) && given(e.pcie) && given(
                e.firmware,
            )
            &&& given(e.driver) && given(e.dpdk_version) && given(e.backend) && given(e.rss)
                && given(e.offloads)
            &&& e.mtu matches Some(n) && n > 0
            &&& e.rx_queues matches Some(n) && n > 0
            &&& e.tx_queues matches Some(n) && n > 0
        },
{
    lemma_given("os"@, e.os);
    lemma_given("kernel"@, e.kernel);
    lemma_given("cpu"@, e.cpu);
    lemma_given("cpu_frequency"@, e.cpu_frequency);
    lemma_given("numa"@, e.numa);
    lemma_given("memory"@, e.memory);
    lemma_given("huge_pages"@, e.huge_pages);
    lemma_given("nic"@, e.nic);
    lemma_given("pcie"@, e.pcie);
    lemma_given("firmware"@, e.firmware);
    lemma_given("driver"@, e.driver);
    lemma_given("dpdk_version"@, e.dpdk_version);
    lemma_given("backend"@, e.backend);
    lemma_given("rss"@, e.rss);
    lemma_given("offloads"@, e.offloads);
}

} // verus!
