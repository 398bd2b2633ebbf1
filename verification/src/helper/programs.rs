//! The programs that are run, written down one behind the other.

use crate::error::NetToolError;
use crate::helper::command::{CommandOutput, CommandRunner, CommandView};
use crate::text;
use vstd::prelude::*;

verus! {

/// A program with its arguments, and what came of running it.
pub type RunStep = (CommandView, Result<CommandOutput, NetToolError>);

/// Something that runs programs, with the programs that were run.
pub struct Programs<R> {
    runner: R,
    log: Ghost<Seq<RunStep>>,
}

impl<R: CommandRunner> Programs<R> {
    /// The programs that were run, in their order, each with what came of it.
    pub closed spec fn log(self) -> Seq<RunStep> {
        self.log@
    }

    /// Nothing was run yet.
    pub fn new(runner: R) -> (r: Self)
        ensures
            r.log() == Seq::<RunStep>::empty(),
    {
        Programs { runner, log: Ghost(Seq::empty()) }
    }

    /// The runner.
    pub closed spec fn runner_view(self) -> R {
        self.runner
    }

    /// What runs the programs.
    pub fn runner(&self) -> (r: &R)
        ensures
            *r == self.runner_view(),
    {
        &self.runner
    }

    /// Runs a program.
    ///
    /// # Errors
    ///
    /// Fails as the runner does.
    pub fn run(&mut self, program: &str, arguments: &[String]) -> (r: Result<
        CommandOutput,
        NetToolError,
    >)
        ensures
            final(self).log() == old(self).log().push(
                ((program@, text::texts(arguments@)), r),
            ),
    {
        let r = self.runner.run(program, arguments);
        self.log = Ghost(self.log@.push(((program@, text::texts(arguments@)), r)));
        r
    }
}

} // verus!
