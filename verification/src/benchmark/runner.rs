//! Running the phases of a benchmark in order, and the built in profiles.

use crate::benchmark::bench::{Bench, BenchStep};
use crate::benchmark::certification::CertificationPolicy;
use crate::benchmark::snapshot;
use crate::benchmark::snapshot::{BenchmarkPhase, BenchmarkPlan};
use crate::error::{ErrorCode, NetToolError};
use crate::text;
use crate::text::{byte_len, is_blank, same};
use std::sync::atomic::AtomicBool;
use std::sync::Arc;
use vstd::prelude::*;
use vstd::utf8::encode_utf8;

verus! {

/// The most bytes of evidence that a phase may give, in its encoded form.
pub const BENCHMARK_PHASE_EVIDENCE_LIMIT_BYTES: usize = 1024 * 1024;

/// How serious an issue is.
#[derive(Clone, Copy, Debug, PartialEq, Eq, Structural)]
pub enum BenchmarkIssueSeverity {
    /// It passes.
    Recoverable,
    /// The result is degraded.
    Degraded,
    /// The run stops.
    Fatal,
}

/// An issue of a phase.
#[derive(Clone, Debug, PartialEq, Eq)]
pub struct BenchmarkIssue {
    /// The stable code.
    pub code: String,
    /// How serious it is.
    pub severity: BenchmarkIssueSeverity,
    /// The description.
    pub message: String,
}

/// What a phase gave.
#[derive(Clone, Debug, PartialEq, Eq)]
pub struct PhaseExecution {
    /// The evidence as encoded JSON.
    pub evidence: Vec<u8>,
    /// The issues.
    pub issues: Vec<BenchmarkIssue>,
}

/// Whether an issue has a code and is not too long.
pub open spec fn issue_valid(issue: BenchmarkIssue) -> bool {
    &&& !text::blank(issue.code@)
    &&& encode_utf8(issue.code@).len() <= 128
    &&& encode_utf8(issue.message@).len() <= 4096
}

/// What is wrong with what a phase gave, if something is.
pub open spec fn execution_fault(e: PhaseExecution) -> Option<(ErrorCode, Seq<char>)> {
    if e.evidence@.len() > BENCHMARK_PHASE_EVIDENCE_LIMIT_BYTES {
        Some((ErrorCode::ControlFrameTooLarge, "benchmark phase evidence exceeds 1 MiB"@))
    } else if !(forall|i: int|
        0 <= i < e.issues@.len() ==> issue_valid(#[trigger] e.issues@[i])) {
        Some((ErrorCode::ProtocolInvalid, "benchmark issue code or message is invalid"@))
    } else {
        None
    }
}

/// Whether an issue of a given severity is among some.
pub open spec fn any_issue(issues: Seq<BenchmarkIssue>, severity: BenchmarkIssueSeverity) -> bool {
    exists|i: int| 0 <= i < issues.len() && (#[trigger] issues[i]).severity == severity
}

impl PhaseExecution {
    /// Creates the output of a phase without issues.
    #[must_use]
    pub fn successful(evidence: Vec<u8>) -> (r: Self)
        ensures
            r.evidence == evidence,
            r.issues@.len() == 0,
    {
        PhaseExecution { evidence, issues: Vec::new() }
    }

    /// Checks that evidence and issues are bounded.
    ///
    /// # Errors
    ///
    /// Fails when the evidence exceeds its limit or an issue is invalid.
    pub fn validate(&self) -> (r: Result<(), NetToolError>)
        ensures
            match r {
                Ok(_) => execution_fault(*self) is None,
                Err(e) => execution_fault(*self) matches Some((code, message)) && e.is(
                    code,
                    message,
                    false,
                ),
            },
    {
        if self.evidence.len() > BENCHMARK_PHASE_EVIDENCE_LIMIT_BYTES {
            return Err(
                NetToolError::new(
                    ErrorCode::ControlFrameTooLarge,
                    "benchmark phase evidence exceeds 1 MiB",
                    false,
                ),
            );
        }
        let mut i: usize = 0;
        while i < self.issues.len()
            invariant
                self.evidence@.len() <= BENCHMARK_PHASE_EVIDENCE_LIMIT_BYTES,
                i <= self.issues@.len(),
                forall|j: int| 0 <= j < i ==> issue_valid(#[trigger] self.issues@[j]),
            decreases self.issues@.len() - i,
        {
            let issue = &self.issues[i];
            if is_blank(issue.code.as_str()) || byte_len(issue.code.as_str()) > 128 || byte_len(
                issue.message.as_str(),
            ) > 4096 {
                proof {
                    assert(!issue_valid(self.issues@[i as int]));
                }
                return Err(
                    NetToolError::new(
                        ErrorCode::ProtocolInvalid,
                        "benchmark issue code or message is invalid",
                        false,
                    ),
                );
            }
            i += 1;
        }
        Ok(())
    }
}

/// How a phase ended.
#[derive(Clone, Copy, Debug, PartialEq, Eq, Structural)]
pub enum PhaseStatus {
    /// Without a fatal issue.
    Completed,
    /// With an error or a fatal issue.
    Failed,
    /// It did not run.
    Skipped,
}

/// The record of a phase.
#[derive(Clone, Debug, PartialEq, Eq)]
pub struct BenchmarkPhaseRecord {
    /// The phase.
    pub phase: BenchmarkPhase,
    /// How it ended.
    pub status: PhaseStatus,
    /// When it started, on the local monotonic clock.
    pub started_monotonic_nanoseconds: Option<u64>,
    /// When it ended, on the local monotonic clock.
    pub ended_monotonic_nanoseconds: Option<u64>,
    /// The evidence.
    pub evidence: Option<Vec<u8>>,
    /// The issues.
    pub issues: Vec<BenchmarkIssue>,
    /// The code of the error.
    pub error_code: Option<String>,
    /// The message of the error.
    pub error_message: Option<String>,
}

/// How a run ended.
#[derive(Clone, Copy, Debug, PartialEq, Eq, Structural)]
pub enum BenchmarkRunState {
    /// All phases, nothing degraded.
    Completed,
    /// All phases, something degraded.
    CompletedDegraded,
    /// The user cancelled it.
    Canceled,
    /// A phase failed.
    Failed,
}

/// The report of a run.
#[derive(Clone, Debug, PartialEq, Eq)]
pub struct BenchmarkRunReport {
    /// The profile.
    pub profile_id: String,
    /// How the run ended.
    pub state: BenchmarkRunState,
    /// The ten phases, also those that did not run.
    pub phases: Vec<BenchmarkPhaseRecord>,
}

/// A token by which another thread can ask a run to stop at the next phase boundary.
#[derive(Clone, Debug)]
pub struct BenchmarkCancellationToken {
    canceled: Arc<AtomicBool>,
}

impl BenchmarkCancellationToken {
    /// Creates a token.
    #[must_use]
    pub fn new() -> Self {
        BenchmarkCancellationToken { canceled: Arc::new(AtomicBool::new(false)) }
    }

    /// Asks to stop at the next phase boundary. Threads share the token, so what a later
    /// reading gives is not stated.
    pub fn cancel(&self) {
        self.canceled.store(true, std::sync::atomic::Ordering::Release);
    }

    /// Whether someone has asked to stop. Threads share the token, so nothing is stated of
    /// the answer.
    #[must_use]
    pub fn is_canceled(&self) -> bool {
        self.canceled.load(std::sync::atomic::Ordering::Acquire)
    }
}

impl Default for BenchmarkCancellationToken {
    fn default() -> Self {
        BenchmarkCancellationToken::new()
    }
}

// ------------------------------------------------------------------------- judging one phase

/// What a run does after a phase.
#[derive(Clone, Copy, Debug, PartialEq, Eq, Structural)]
pub enum PhaseEffect {
    /// It goes on.
    Continue,
    /// It goes on, and its result is degraded.
    ContinueDegraded,
    /// It stops.
    Stop,
}

/// Whether a record says that a phase did not run.
pub open spec fn is_skipped(record: BenchmarkPhaseRecord, phase: BenchmarkPhase) -> bool {
    &&& record.phase == phase
    &&& record.status is Skipped
    &&& record.started_monotonic_nanoseconds is None
    &&& record.ended_monotonic_nanoseconds is None
    &&& record.evidence is None
    &&& record.issues@.len() == 0
    &&& record.error_code is None
    &&& record.error_message is None
}

/// Whether a record says that a phase ran from one time to another and ended in an error.
pub open spec fn is_error_record(
    record: BenchmarkPhaseRecord,
    phase: BenchmarkPhase,
    started: u64,
    ended: u64,
    code: ErrorCode,
    message: Seq<char>,
) -> bool {
    &&& record.phase == phase
    &&& record.status is Failed
    &&& record.started_monotonic_nanoseconds == Some(started)
    &&& record.ended_monotonic_nanoseconds == Some(ended)
    &&& record.evidence is None
    &&& record.issues@.len() == 0
    &&& record.error_code matches Some(c) && c@ == code.text()
    &&& record.error_message matches Some(m) && m@ == message
}

/// Whether a record says what a phase gave between two times.
pub open spec fn is_result_record(
    record: BenchmarkPhaseRecord,
    phase: BenchmarkPhase,
    started: u64,
    ended: u64,
    execution: PhaseExecution,
) -> bool {
    &&& record.phase == phase
    &&& record.status == (if any_issue(execution.issues@, BenchmarkIssueSeverity::Fatal) {
        PhaseStatus::Failed
    } else {
        PhaseStatus::Completed
    })
    &&& record.started_monotonic_nanoseconds == Some(started)
    &&& record.ended_monotonic_nanoseconds == Some(ended)
    &&& record.evidence == Some(execution.evidence)
    &&& record.issues == execution.issues
    &&& record.error_code is None
    &&& record.error_message is None
}

/// Whether a record and an effect are what follows from the outcome of a phase.
pub open spec fn follows_from(
    record: BenchmarkPhaseRecord,
    effect: PhaseEffect,
    phase: BenchmarkPhase,
    started: u64,
    ended: u64,
    outcome: Result<PhaseExecution, NetToolError>,
) -> bool {
    match outcome {
        Err(e) => effect is Stop && is_error_record(
            record,
            phase,
            started,
            ended,
            e.code,
            e.message@,
        ),
        Ok(execution) => match execution_fault(execution) {
            Some((code, message)) => effect is Stop && is_error_record(
                record,
                phase,
                started,
                ended,
                code,
                message,
            ),
            None => {
                &&& is_result_record(record, phase, started, ended, execution)
                &&& effect == (if any_issue(execution.issues@, BenchmarkIssueSeverity::Fatal) {
                    PhaseEffect::Stop
                } else if any_issue(execution.issues@, BenchmarkIssueSeverity::Degraded) {
                    PhaseEffect::ContinueDegraded
                } else {
                    PhaseEffect::Continue
                })
            },
        },
    }
}

fn failed_record(phase: BenchmarkPhase, started: u64, ended: u64, error: &NetToolError) -> (r:
    BenchmarkPhaseRecord)
    ensures
        is_error_record(r, phase, started, ended, error.code, error.message@),
{
    BenchmarkPhaseRecord {
        phase,
        status: PhaseStatus::Failed,
        started_monotonic_nanoseconds: Some(started),
        ended_monotonic_nanoseconds: Some(ended),
        evidence: None,
        issues: Vec::new(),
        error_code: Some(error.code.as_str().to_owned()),
        error_message: Some(error.message.clone()),
    }
}

fn has_issue(issues: &[BenchmarkIssue], severity: BenchmarkIssueSeverity) -> (r: bool)
    ensures
        r == any_issue(issues@, severity),
{
    let mut i: usize = 0;
    while i < issues.len()
        invariant
            i <= issues@.len(),
            forall|j: int| 0 <= j < i ==> (#[trigger] issues@[j]).severity != severity,
        decreases issues@.len() - i,
    {
        if issues[i].severity == severity {
            return true;
        }
        i += 1;
    }
    false
}

/// Records the outcome of a phase and says whether the run goes on.
pub fn judge_phase(
    phase: BenchmarkPhase,
    started: u64,
    ended: u64,
    outcome: Result<PhaseExecution, NetToolError>,
) -> (r: (BenchmarkPhaseRecord, PhaseEffect))
    ensures
        follows_from(r.0, r.1, phase, started, ended, outcome),
{
    match outcome {
        Err(error) => (failed_record(phase, started, ended, &error), PhaseEffect::Stop),
        Ok(execution) => {
            match execution.validate() {
                Err(error) => {
                    return (failed_record(phase, started, ended, &error), PhaseEffect::Stop);
                },
                Ok(_) => {},
            }
            let fatal = has_issue(execution.issues.as_slice(), BenchmarkIssueSeverity::Fatal);
            let degraded = has_issue(
                execution.issues.as_slice(),
                BenchmarkIssueSeverity::Degraded,
            );
            let status = if fatal {
                PhaseStatus::Failed
            } else {
                PhaseStatus::Completed
            };
            let effect = if fatal {
                PhaseEffect::Stop
            } else if degraded {
                PhaseEffect::ContinueDegraded
            } else {
                PhaseEffect::Continue
            };
            let record = BenchmarkPhaseRecord {
                phase,
                status,
                started_monotonic_nanoseconds: Some(started),
                ended_monotonic_nanoseconds: Some(ended),
                evidence: Some(execution.evidence),
                issues: execution.issues,
                error_code: None,
                error_message: None,
            };
            (record, effect)
        },
    }
}

// --------------------------------------------------------------------------------- the runner

/// Whether the first records are those of phases that ran, in order and without running
/// backwards in time, and completed.
pub open spec fn ran(records: Seq<BenchmarkPhaseRecord>, n: int) -> bool {
    &&& in_time(records, n)
    &&& forall|i: int|
        0 <= i < n ==> {
            &&& (#[trigger] records[i]).phase == snapshot::phase_order()[i]
            &&& records[i].status is Completed
            &&& records[i].started_monotonic_nanoseconds is Some
            &&& records[i].ended_monotonic_nanoseconds is Some
            &&& records[i].started_monotonic_nanoseconds->0
                <= records[i].ended_monotonic_nanoseconds->0
        }
}

/// Whether each of the first records ends before the next one starts.
pub open spec fn in_time(records: Seq<BenchmarkPhaseRecord>, n: int) -> bool {
    forall|i: int, j: int|
        0 <= i && j == i + 1 && j < n ==> (#[trigger] records[i]).ended_monotonic_nanoseconds->0
            <= (#[trigger] records[j]).started_monotonic_nanoseconds->0
}

/// Whether a record is that of a phase that ran and failed, behind those before it.
pub open spec fn failed_at(records: Seq<BenchmarkPhaseRecord>, n: int) -> bool {
    &&& in_time(records, n + 1)
    &&& records[n].phase == snapshot::phase_order()[n]
    &&& records[n].status is Failed
    &&& records[n].started_monotonic_nanoseconds is Some
    &&& records[n].ended_monotonic_nanoseconds is Some
    &&& records[n].started_monotonic_nanoseconds->0 <= records[n].ended_monotonic_nanoseconds->0
}

/// Whether the records from a position on are those of phases that did not run.
pub open spec fn skipped_from(records: Seq<BenchmarkPhaseRecord>, n: int) -> bool {
    forall|i: int|
        n <= i < 10 ==> is_skipped(#[trigger] records[i], snapshot::phase_order()[i])
}

/// Whether an issue that degrades is among the first records.
pub open spec fn degraded_before(records: Seq<BenchmarkPhaseRecord>, n: int) -> bool {
    exists|i: int|
        0 <= i < n && any_issue(
            (#[trigger] records[i]).issues@,
            BenchmarkIssueSeverity::Degraded,
        )
}

/// Whether a report is consistent: it has a record for each phase in order; those before
/// some phase ran and completed, that phase failed where the run failed, and those after it
/// did not run; and the state says which of this happened.
pub open spec fn is_consistent(
    records: Seq<BenchmarkPhaseRecord>,
    state: BenchmarkRunState,
) -> bool {
    &&& records.len() == 10
    &&& match state {
        BenchmarkRunState::Completed => ran(records, 10) && !degraded_before(records, 10),
        BenchmarkRunState::CompletedDegraded => ran(records, 10) && degraded_before(records, 10),
        BenchmarkRunState::Canceled => exists|n: int|
            0 <= n <= 10 && #[trigger] ran(records, n) && skipped_from(records, n),
        BenchmarkRunState::Failed => exists|n: int|
            0 <= n < 10 && #[trigger] ran(records, n) && failed_at(records, n) && skipped_from(
                records,
                n + 1,
            ),
    }
}

/// The calls of one phase: the token lets it run, the clock is read, the phase is executed,
/// once, and the clock is read again.
pub open spec fn phase_calls(
    plan: BenchmarkPlan,
    phase: BenchmarkPhase,
    started: u64,
    outcome: Result<PhaseExecution, NetToolError>,
    ended: u64,
) -> Seq<BenchStep> {
    seq![
        BenchStep::Asked(false),
        BenchStep::Clock(started),
        BenchStep::Executed(phase, plan, outcome),
        BenchStep::Clock(ended),
    ]
}

/// Whether a phase was run and its record follows from what came of it. `stopped` says whether
/// it ends the run.
pub open spec fn phase_run(
    from: Seq<BenchStep>,
    to: Seq<BenchStep>,
    plan: BenchmarkPlan,
    record: BenchmarkPhaseRecord,
    stopped: bool,
) -> bool {
    exists|
        started: u64,
        outcome: Result<PhaseExecution, NetToolError>,
        ended: u64,
        effect: PhaseEffect,
    |
        {
            &&& to == from + #[trigger] phase_calls(plan, record.phase, started, outcome, ended)
            &&& started <= ended
            &&& #[trigger] follows_from(record, effect, record.phase, started, ended, outcome)
            &&& stopped == (effect is Stop)
        }
}

/// Whether a phase was run, and the token let the run go on behind it.
pub open spec fn phase_passed(
    from: Seq<BenchStep>,
    to: Seq<BenchStep>,
    plan: BenchmarkPlan,
    record: BenchmarkPhaseRecord,
) -> bool {
    exists|behind: Seq<BenchStep>| #[trigger]
        phase_run(from, behind, plan, record, false) && to == behind.push(BenchStep::Asked(false))
}

/// Whether the first phases were run one behind the other, and the token let the run go on
/// behind each. The path gives the calls before each of them and behind the last.
pub open spec fn phases_run(
    path: Seq<Seq<BenchStep>>,
    plan: BenchmarkPlan,
    records: Seq<BenchmarkPhaseRecord>,
) -> bool {
    &&& path.len() >= 1
    &&& path.len() - 1 <= records.len()
    &&& forall|i: int|
        #![trigger path[i]]
        0 <= i < path.len() - 1 ==> phase_passed(path[i], path[i + 1], plan, records[i])
}

/// How a run ended behind its last phase that went through.
pub open spec fn run_ended(
    path: Seq<Seq<BenchStep>>,
    to: Seq<BenchStep>,
    plan: BenchmarkPlan,
    records: Seq<BenchmarkPhaseRecord>,
    state: BenchmarkRunState,
) -> bool {
    let n = path.len() - 1;
    match state {
        BenchmarkRunState::Completed => n == 10 && to == path[n],
        BenchmarkRunState::CompletedDegraded => n == 10 && to == path[n],
        BenchmarkRunState::Canceled => {
            ||| n < 10 && to == path[n].push(BenchStep::Asked(true)) && skipped_from(records, n)
            ||| n < 10 && skipped_from(records, n + 1) && exists|behind: Seq<BenchStep>| #[trigger]
                phase_run(path[n], behind, plan, records[n], false) && to == behind.push(
                    BenchStep::Asked(true),
                )
        },
        BenchmarkRunState::Failed => n < 10 && skipped_from(records, n + 1) && phase_run(
            path[n],
            to,
            plan,
            records[n],
            true,
        ),
    }
}

/// Whether a run was given up because the clock moved backwards: between two phases, or while
/// one was executed.
pub open spec fn clock_moved_back(
    path: Seq<Seq<BenchStep>>,
    to: Seq<BenchStep>,
    plan: BenchmarkPlan,
    records: Seq<BenchmarkPhaseRecord>,
) -> bool {
    let n = path.len() - 1;
    let phase = snapshot::phase_order()[n];
    &&& n == records.len()
    &&& n < 10
    &&& exists|started: u64, outcome: Result<PhaseExecution, NetToolError>, ended: u64|
        {
            let calls = #[trigger] phase_calls(plan, phase, started, outcome, ended);
            if n > 0 && started < records[n - 1].ended_monotonic_nanoseconds->0 {
                to == path[n] + calls.take(2)
            } else {
                to == path[n] + calls && ended < started
            }
        }
}

/// How a benchmark is run.
pub open spec fn run_by(
    from: Seq<BenchStep>,
    to: Seq<BenchStep>,
    plan: BenchmarkPlan,
    r: Result<BenchmarkRunReport, NetToolError>,
) -> bool {
    match r {
        Ok(report) => {
            &&& report.profile_id@ == plan.profile_id@
            &&& is_consistent(report.phases@, report.state)
            &&& exists|path: Seq<Seq<BenchStep>>| #[trigger]
                phases_run(path, plan, report.phases@) && path[0] == from && run_ended(
                    path,
                    to,
                    plan,
                    report.phases@,
                    report.state,
                )
        },
        Err(e) => {
            &&& e.is(
                ErrorCode::InvalidState,
                "benchmark monotonic clock moved backwards"@,
                false,
            )
            &&& exists|path: Seq<Seq<BenchStep>>, records: Seq<BenchmarkPhaseRecord>| #[trigger]
                clock_moved_back(path, to, plan, records) && phases_run(path, plan, records) && ran(
                    records,
                    records.len() as int,
                ) && path[0] == from
        },
    }
}

/// Runs a benchmark once.
#[derive(Debug)]
pub struct BenchmarkRunner {
    plan: BenchmarkPlan,
    cancellation: BenchmarkCancellationToken,
    consumed: bool,
}

impl BenchmarkRunner {
    /// The plan.
    pub closed spec fn plan(self) -> BenchmarkPlan {
        self.plan
    }

    /// Whether the runner was used.
    pub closed spec fn consumed(self) -> bool {
        self.consumed
    }

    /// The token.
    pub closed spec fn token(self) -> BenchmarkCancellationToken {
        self.cancellation
    }

    /// Creates a runner for a valid plan.
    ///
    /// # Errors
    ///
    /// Fails when the plan is not valid.
    pub fn new(plan: BenchmarkPlan, cancellation: BenchmarkCancellationToken) -> (r: Result<
        Self,
        NetToolError,
    >)
        ensures
            match r {
                Ok(runner) => {
                    &&& snapshot::plan_fault(plan) is None
                    &&& runner.plan() == plan
                    &&& runner.token() == cancellation
                    &&& !runner.consumed()
                },
                Err(e) => snapshot::plan_fault(plan) is Some && e.is(
                    ErrorCode::InvalidArgument,
                    snapshot::plan_fault(plan)->0,
                    false,
                ),
            },
    {
        match plan.validate() {
            Err(e) => Err(e),
            Ok(_) => Ok(BenchmarkRunner { plan, cancellation, consumed: false }),
        }
    }

    /// Runs the phases in order, each once and between two readings of the clock; a request to
    /// stop takes effect between phases. All times have to come from one monotonic clock.
    ///
    /// # Errors
    ///
    /// Fails when the runner was used before or the clock moved backwards. An error of a
    /// phase is recorded in the report instead.
    #[verifier::rlimit(60)]
    #[verifier::spinoff_prover]
    pub fn run<
        F: FnMut(BenchmarkPhase, &BenchmarkPlan) -> Result<PhaseExecution, NetToolError>,
        G: FnMut() -> u64,
    >(&mut self, bench: &mut Bench<F, G>) -> (r: Result<BenchmarkRunReport, NetToolError>)
        requires
            old(bench).takes_all(),
        ensures
            final(bench).takes_all(),
            final(self).plan() == old(self).plan(),
            final(self).token() == old(self).token(),
            final(self).consumed(),
            old(self).consumed() ==> {
                &&& *final(bench) == *old(bench)
                &&& r matches Err(e) && e.is(
                    ErrorCode::InvalidState,
                    "benchmark runner can only execute once"@,
                    false,
                )
            },
            !old(self).consumed() ==> run_by(
                old(bench).log(),
                final(bench).log(),
                old(self).plan(),
                r,
            ),
    {
        if self.consumed {
            return Err(
                NetToolError::new(
                    ErrorCode::InvalidState,
                    "benchmark runner can only execute once",
                    false,
                ),
            );
        }
        self.consumed = true;
        let ghost plan = self.plan;
        let phases = BenchmarkPlan::phases();
        let mut records: Vec<BenchmarkPhaseRecord> = Vec::new();
        let mut state = BenchmarkRunState::Completed;
        let mut running: bool = true;
        let mut last_ended: u64 = 0;
        let mut i: usize = 0;
        let ghost mut path: Seq<Seq<BenchStep>> = seq![bench.log()];
        while i < 10 && running
            invariant
                self.consumed,
                self.plan == plan,
                plan == old(self).plan,
                self.cancellation == old(self).cancellation,
                !old(self).consumed,
                phases@ == snapshot::phase_order(),
                bench.takes_all(),
                i <= 10,
                path[0] == old(bench).log(),
                phases_run(path, plan, records@),
                running ==> path.len() == i + 1 && path.last() == bench.log(),
                running ==> records@.len() == i && ran(records@, i as int),
                running ==> state is Completed || state is CompletedDegraded,
                running ==> (state is CompletedDegraded <==> degraded_before(
                    records@,
                    i as int,
                )),
                running && i > 0 ==> records@[i - 1].ended_monotonic_nanoseconds == Some(
                    last_ended,
                ),
                running && i == 0 ==> last_ended == 0,
                !running ==> is_consistent(records@, state) && run_ended(
                    path,
                    bench.log(),
                    plan,
                    records@,
                    state,
                ),
            decreases 10 - i, (if running { 1int } else { 0int }),
        {
            let ghost l0 = bench.log();
            let ghost done = records@;
            if bench.ask(&self.cancellation) {
                state = BenchmarkRunState::Canceled;
                append_skipped(&mut records, &phases, i);
                running = false;
                proof {
                    assert(ran(records@, i as int));
                    lemma_same_start(path, plan, done, records@);
                }
            } else {
                let started: u64 = bench.read_clock();
                if started < last_ended {
                    proof {
                        let outcome = Err::<PhaseExecution, NetToolError>(arbitrary());
                        let calls = phase_calls(plan, phases@[i as int], started, outcome, 0);
                        assert(bench.log() =~= l0 + calls.take(2));
                        assert(clock_moved_back(path, bench.log(), plan, records@));
                    }
                    let error = clock_error();
                    proof {
                        assert(run_by(
                            old(bench).log(),
                            bench.log(),
                            plan,
                            Err::<BenchmarkRunReport, NetToolError>(error),
                        ));
                    }
                    return Err(error);
                }
                let outcome = bench.execute(phases[i], &self.plan);
                let ended: u64 = bench.read_clock();
                let ghost l1 = bench.log();
                proof {
                    let calls = phase_calls(plan, phases@[i as int], started, outcome, ended);
                    assert(l1 =~= l0 + calls);
                }
                if ended < started {
                    proof {
                        assert(clock_moved_back(path, bench.log(), plan, records@));
                    }
                    let error = clock_error();
                    proof {
                        assert(run_by(
                            old(bench).log(),
                            bench.log(),
                            plan,
                            Err::<BenchmarkRunReport, NetToolError>(error),
                        ));
                    }
                    return Err(error);
                }
                let ghost given = outcome;
                let (record, effect) = judge_phase(phases[i], started, ended, outcome);
                records.push(record);
                last_ended = ended;
                proof {
                    assert(follows_from(record, effect, record.phase, started, ended, given));
                    assert(phase_run(l0, l1, plan, record, effect is Stop));
                    assert(forall|j: int| 0 <= j < i ==> records@[j] == done[j]);
                    assert(in_time(records@, i + 1));
                    lemma_same_start(path, plan, done, records@);
                    if degraded_before(done, i as int) {
                        let k = choose|k: int|
                            0 <= k < i && any_issue(
                                (#[trigger] done[k]).issues@,
                                BenchmarkIssueSeverity::Degraded,
                            );
                        assert(records@[k] == done[k]);
                        assert(degraded_before(records@, i + 1));
                    }
                }
                match effect {
                    PhaseEffect::Stop => {
                        let ghost upto = records@;
                        append_skipped(&mut records, &phases, i + 1);
                        state = BenchmarkRunState::Failed;
                        running = false;
                        proof {
                            assert(forall|j: int| 0 <= j <= i ==> records@[j] == upto[j]);
                            assert(in_time(records@, i + 1));
                            assert(ran(records@, i as int));
                            assert(failed_at(records@, i as int));
                            lemma_same_start(path, plan, upto, records@);
                        }
                    },
                    _ => {
                        if effect == PhaseEffect::ContinueDegraded {
                            state = BenchmarkRunState::CompletedDegraded;
                            proof {
                                assert(any_issue(
                                    records@[i as int].issues@,
                                    BenchmarkIssueSeverity::Degraded,
                                ));
                                assert(degraded_before(records@, i + 1));
                            }
                        }
                        if bench.ask(&self.cancellation) {
                            let ghost upto = records@;
                            append_skipped(&mut records, &phases, i + 1);
                            state = BenchmarkRunState::Canceled;
                            running = false;
                            proof {
                                assert(forall|j: int| 0 <= j <= i ==> records@[j] == upto[j]);
                                assert(in_time(records@, i + 1));
                                assert(ran(records@, i + 1));
                                lemma_same_start(path, plan, upto, records@);
                                assert(phase_run(l0, l1, plan, records@[i as int], false));
                            }
                        } else {
                            i += 1;
                            proof {
                                let longer = path.push(bench.log());
                                assert(phase_run(l0, l1, plan, records@[i - 1], false));
                                assert(phase_passed(l0, bench.log(), plan, records@[i - 1]));
                                assert(phases_run(longer, plan, records@));
                                path = longer;
                            }
                        }
                    },
                }
            }
        }
        let report = BenchmarkRunReport {
            profile_id: self.plan.profile_id.clone(),
            state,
            phases: records,
        };
        proof {
            assert(phases_run(path, plan, report.phases@));
            assert(run_by(
                old(bench).log(),
                bench.log(),
                plan,
                Ok::<BenchmarkRunReport, NetToolError>(report),
            ));
        }
        Ok(report)
    }
}

fn clock_error() -> (r: NetToolError)
    ensures
        r.is(ErrorCode::InvalidState, "benchmark monotonic clock moved backwards"@, false),
{
    NetToolError::new(
        ErrorCode::InvalidState,
        "benchmark monotonic clock moved backwards",
        false,
    )
}

proof fn lemma_same_start(
    path: Seq<Seq<BenchStep>>,
    plan: BenchmarkPlan,
    a: Seq<BenchmarkPhaseRecord>,
    b: Seq<BenchmarkPhaseRecord>,
)
    requires
        phases_run(path, plan, a),
        path.len() - 1 <= b.len(),
        forall|i: int| 0 <= i < path.len() - 1 ==> a[i] == b[i],
    ensures
        phases_run(path, plan, b),
{
}

fn append_skipped(
    records: &mut Vec<BenchmarkPhaseRecord>,
    phases: &[BenchmarkPhase; 10],
    from: usize,
)
    requires
        phases@ == snapshot::phase_order(),
        old(records)@.len() == from <= 10,
    ensures
        final(records)@.len() == 10,
        forall|i: int| 0 <= i < from ==> final(records)@[i] == old(records)@[i],
        skipped_from(final(records)@, from as int),
{
    let ghost before = records@;
    let mut i: usize = from;
    while i < 10
        invariant
            phases@ == snapshot::phase_order(),
            from <= i <= 10,
            records@.len() == i,
            before.len() == from,
            forall|j: int| 0 <= j < from ==> records@[j] == before[j],
            forall|j: int|
                from <= j < i ==> is_skipped(#[trigger] records@[j], snapshot::phase_order()[j]),
        decreases 10 - i,
    {
        records.push(
            BenchmarkPhaseRecord {
                phase: phases[i],
                status: PhaseStatus::Skipped,
                started_monotonic_nanoseconds: None,
                ended_monotonic_nanoseconds: None,
                evidence: None,
                issues: Vec::new(),
                error_code: None,
                error_message: None,
            },
        );
        i += 1;
    }
}

// -------------------------------------------------------------------------------- profiles

/// A plan and the thresholds that belong to it.
#[derive(Clone, Debug, PartialEq, Eq)]
pub struct RegisteredBenchmarkProfile {
    /// The plan.
    pub plan: BenchmarkPlan,
    /// The thresholds, once measurements on real hardware have fixed them.
    pub certification_policy: Option<CertificationPolicy>,
}

/// The built in profiles.
#[derive(Debug)]
pub struct BenchmarkProfileRegistry;

/// The warm up, measuring and sustained times of a built in profile.
pub open spec fn profile_times(id: Seq<char>) -> Option<(u64, u64, u64)> {
    if id == "functional-default"@ {
        Some((5, 10, 60))
    } else if id == "100g-cert"@ {
        Some((10, 60, 3600))
    } else {
        None
    }
}

impl BenchmarkProfileRegistry {
    /// Returns the identifiers of the built in profiles.
    #[must_use]
    pub fn ids() -> (r: [&'static str; 2])
        ensures
            r@[0]@ == "functional-default"@,
            r@[1]@ == "100g-cert"@,
    {
        ["functional-default", "100g-cert"]
    }

    /// Returns a built in profile. None of them has thresholds: they are not invented.
    #[must_use]
    pub fn get(id: &str) -> (r: Option<RegisteredBenchmarkProfile>)
        ensures
            match r {
                Some(p) => {
                    &&& profile_times(id@) == Some(
                        (
                            p.plan.warmup_seconds,
                            p.plan.measurement_seconds,
                            p.plan.sustained_seconds,
                        ),
                    )
                    &&& p.plan.profile_id@ == id@
                    &&& p.plan.frame_sizes_bytes@ == snapshot::required_frame_sizes()
                    &&& p.plan.flow_counts@ == snapshot::required_flow_counts().push(1_000_000)
                    &&& p.certification_policy is None
                },
                None => profile_times(id@) is None,
            },
    {
        proof {
            reveal_strlit("functional-default");
            reveal_strlit("100g-cert");
        }
        let (warmup, measurement, sustained): (u64, u64, u64) = if same(
            id,
            "functional-default",
        ) {
            (5, 10, 60)
        } else if same(id, "100g-cert") {
            (10, 60, 3600)
        } else {
            return None;
        };
        let mut sizes: Vec<u32> = Vec::new();
        sizes.push(64);
        sizes.push(128);
        sizes.push(256);
        sizes.push(512);
        sizes.push(1024);
        sizes.push(1518);
        sizes.push(9018);
        let mut flows: Vec<u64> = Vec::new();
        flows.push(1);
        flows.push(16);
        flows.push(256);
        flows.push(4096);
        flows.push(1_000_000);
        proof {
            assert(sizes@ =~= snapshot::required_frame_sizes());
            assert(flows@ =~= snapshot::required_flow_counts().push(1_000_000));
        }
        Some(
            RegisteredBenchmarkProfile {
                plan: BenchmarkPlan {
                    profile_id: id.to_owned(),
                    frame_sizes_bytes: sizes,
                    flow_counts: flows,
                    warmup_seconds: warmup,
                    measurement_seconds: measurement,
                    sustained_seconds: sustained,
                },
                certification_policy: None,
            },
        )
    }
}

/// Every built in profile has a valid plan.
pub proof fn law_builtin_plans_are_valid(plan: BenchmarkPlan)
    requires
        profile_times(plan.profile_id@) == Some(
            (plan.warmup_seconds, plan.measurement_seconds, plan.sustained_seconds),
        ),
        plan.frame_sizes_bytes@ == snapshot::required_frame_sizes(),
        plan.flow_counts@ == snapshot::required_flow_counts().push(1_000_000),
    ensures
        snapshot::plan_fault(plan) is None,
{
    let id = plan.profile_id@;
    reveal_strlit("functional-default");
    reveal_strlit("100g-cert");
    assert(!text::blank(id)) by {
        assert(!text::is_whitespace(id[0]));
        assert(!text::is_whitespace(id.last()));
    }
    let sizes = plan.frame_sizes_bytes@;
    reveal_with_fuel(snapshot::first_missing_size, 8);
    assert forall|i: int| 0 <= i < 7 implies sizes.contains(
        #[trigger] snapshot::required_frame_sizes()[i],
    ) by {
        assert(sizes[i] == snapshot::required_frame_sizes()[i]);
    }
    assert(snapshot::first_missing_size(snapshot::required_frame_sizes(), sizes, 0) is None);
    let flows = plan.flow_counts@;
    reveal_with_fuel(snapshot::first_missing_count, 5);
    assert forall|i: int| 0 <= i < 4 implies flows.contains(
        #[trigger] snapshot::required_flow_counts()[i],
    ) by {
        assert(flows[i] == snapshot::required_flow_counts()[i]);
    }
    assert(snapshot::first_missing_count(snapshot::required_flow_counts(), flows, 0) is None);
    assert(flows[4] >= 1_000_000);
}

} // verus!
