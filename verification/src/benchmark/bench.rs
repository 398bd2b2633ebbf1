//! What a run asks of the outside, written down one behind the other.

use crate::benchmark::runner::{BenchmarkCancellationToken, PhaseExecution};
use crate::benchmark::snapshot::{BenchmarkPhase, BenchmarkPlan};
use crate::error::NetToolError;
use vstd::prelude::*;

verus! {

/// A call and its answer.
pub enum BenchStep {
    /// It was asked whether to stop.
    Asked(bool),
    /// The clock was read.
    Clock(u64),
    /// A phase was executed.
    Executed(BenchmarkPhase, BenchmarkPlan, Result<PhaseExecution, NetToolError>),
}

/// What executes phases and what tells the time, with the calls that were made of them.
pub struct Bench<F, G> {
    execute: F,
    monotonic_now: G,
    log: Ghost<Seq<BenchStep>>,
}

impl<
    F: FnMut(BenchmarkPhase, &BenchmarkPlan) -> Result<PhaseExecution, NetToolError>,
    G: FnMut() -> u64,
> Bench<F, G> {
    /// The calls that were made, in their order, each with its answer.
    pub closed spec fn log(self) -> Seq<BenchStep> {
        self.log@
    }

    /// Whether every call can be made.
    pub closed spec fn takes_all(self) -> bool {
        &&& forall|phase: BenchmarkPhase, plan: &BenchmarkPlan|
            call_requires(self.execute, (phase, plan))
        &&& call_requires(self.monotonic_now, ())
    }

    /// Nothing was called yet.
    pub fn new(execute: F, monotonic_now: G) -> (r: Self)
        requires
            forall|phase: BenchmarkPhase, plan: &BenchmarkPlan|
                call_requires(execute, (phase, plan)),
            call_requires(monotonic_now, ()),
        ensures
            r.takes_all(),
            r.log() == Seq::<BenchStep>::empty(),
    {
        Bench { execute, monotonic_now, log: Ghost(Seq::empty()) }
    }

    /// Asks a token whether to stop.
    pub fn ask(&mut self, token: &BenchmarkCancellationToken) -> (r: bool)
        requires
            old(self).takes_all(),
        ensures
            final(self).takes_all(),
            final(self).log() == old(self).log().push(BenchStep::Asked(r)),
    {
        let r: bool = token.is_canceled();
        self.log = Ghost(self.log@.push(BenchStep::Asked(r)));
        r
    }

    /// Reads the clock.
    pub fn read_clock(&mut self) -> (r: u64)
        requires
            old(self).takes_all(),
        ensures
            final(self).takes_all(),
            final(self).log() == old(self).log().push(BenchStep::Clock(r)),
    {
        let r: u64 = (self.monotonic_now)();
        self.log = Ghost(self.log@.push(BenchStep::Clock(r)));
        r
    }

    /// Executes a phase.
    ///
    /// # Errors
    ///
    /// Fails as the execution does.
    pub fn execute(&mut self, phase: BenchmarkPhase, plan: &BenchmarkPlan) -> (r: Result<
        PhaseExecution,
        NetToolError,
    >)
        requires
            old(self).takes_all(),
        ensures
            final(self).takes_all(),
            final(self).log() == old(self).log().push(BenchStep::Executed(phase, *plan, r)),
    {
        let r = (self.execute)(phase, plan);
        self.log = Ghost(self.log@.push(BenchStep::Executed(phase, *plan, r)));
        r
    }
}

} // verus!
