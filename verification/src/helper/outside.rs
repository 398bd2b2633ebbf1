//! What a manager of operations asks of the outside, written down one behind the other.

use crate::error::NetToolError;
use crate::helper::safe_apply;
use crate::helper::safe_apply::{NetworkExecutor, PendingSafeApply, RecordView, SafeApplyStore};
use crate::helper_protocol::NetworkDesiredState;
use vstd::prelude::*;

verus! {

/// A call and its answer.
pub enum Step {
    /// The state of an interface was to be kept.
    Snapshot(Seq<char>, Result<(String, Vec<u8>), NetToolError>),
    /// A configuration was to be applied.
    Apply(Seq<char>, NetworkDesiredState, Result<(), NetToolError>),
    /// It was to be checked that a configuration is in force.
    Verify(Seq<char>, NetworkDesiredState, Result<(), NetToolError>),
    /// A kept state was to be restored.
    Restore(Seq<char>, Result<(), NetToolError>),
    /// Records were to be kept.
    Persist(Seq<RecordView>, Result<(), NetToolError>),
    /// What became of an operation was to be logged.
    Audit(RecordView, Seq<char>, Result<(), NetToolError>),
}

/// An executor and a store, with the calls that were made of them.
pub struct Outside<E, S> {
    executor: E,
    store: S,
    log: Ghost<Seq<Step>>,
}

impl<E: NetworkExecutor, S: SafeApplyStore> Outside<E, S> {
    /// The calls that were made of the two, in their order, each with its answer.
    pub closed spec fn log(self) -> Seq<Step> {
        self.log@
    }

    /// Nothing was called yet.
    pub fn new(executor: E, store: S) -> (r: Self)
        ensures
            r.log() == Seq::<Step>::empty(),
    {
        Outside { executor, store, log: Ghost(Seq::empty()) }
    }

    /// The executor.
    pub closed spec fn executor_view(self) -> E {
        self.executor
    }

    /// The executor.
    pub fn executor(&self) -> (r: &E)
        ensures
            *r == self.executor_view(),
    {
        &self.executor
    }

    /// The store.
    pub closed spec fn store_view(self) -> S {
        self.store
    }

    /// The store.
    pub fn store(&self) -> (r: &S)
        ensures
            *r == self.store_view(),
    {
        &self.store
    }

    /// Keeps the state of an interface.
    ///
    /// # Errors
    ///
    /// Fails as the executor does.
    pub fn snapshot(&mut self, interface_id: &str) -> (r: Result<(String, Vec<u8>), NetToolError>)
        ensures
            final(self).log() == old(self).log().push(Step::Snapshot(interface_id@, r)),
    {
        let r = self.executor.snapshot(interface_id);
        self.log = Ghost(self.log@.push(Step::Snapshot(interface_id@, r)));
        r
    }

    /// Applies a configuration.
    ///
    /// # Errors
    ///
    /// Fails as the executor does.
    pub fn apply(&mut self, interface_id: &str, desired_state: &NetworkDesiredState) -> (r: Result<
        (),
        NetToolError,
    >)
        ensures
            final(self).log() == old(self).log().push(
                Step::Apply(interface_id@, *desired_state, r),
            ),
    {
        let r = self.executor.apply(interface_id, desired_state);
        self.log = Ghost(self.log@.push(Step::Apply(interface_id@, *desired_state, r)));
        r
    }

    /// Checks that a configuration is in force.
    ///
    /// # Errors
    ///
    /// Fails as the executor does.
    pub fn verify(&mut self, interface_id: &str, desired_state: &NetworkDesiredState) -> (r: Result<
        (),
        NetToolError,
    >)
        ensures
            final(self).log() == old(self).log().push(
                Step::Verify(interface_id@, *desired_state, r),
            ),
    {
        let r = self.executor.verify(interface_id, desired_state);
        self.log = Ghost(self.log@.push(Step::Verify(interface_id@, *desired_state, r)));
        r
    }

    /// Restores a kept state.
    ///
    /// # Errors
    ///
    /// Fails as the executor does.
    pub fn restore(&mut self, snapshot_id: &str) -> (r: Result<(), NetToolError>)
        ensures
            final(self).log() == old(self).log().push(Step::Restore(snapshot_id@, r)),
    {
        let r = self.executor.restore(snapshot_id);
        self.log = Ghost(self.log@.push(Step::Restore(snapshot_id@, r)));
        r
    }

    /// Keeps records.
    ///
    /// # Errors
    ///
    /// Fails as the store does.
    pub fn persist(&mut self, records: &[PendingSafeApply]) -> (r: Result<(), NetToolError>)
        ensures
            final(self).log() == old(self).log().push(
                Step::Persist(safe_apply::record_views(records@), r),
            ),
    {
        let r = self.store.persist(records);
        self.log = Ghost(self.log@.push(Step::Persist(safe_apply::record_views(records@), r)));
        r
    }

    /// Logs what became of an operation.
    ///
    /// # Errors
    ///
    /// Fails as the store does.
    pub fn audit(&mut self, record: &PendingSafeApply, result: &str) -> (r: Result<
        (),
        NetToolError,
    >)
        ensures
            final(self).log() == old(self).log().push(Step::Audit(record@, result@, r)),
    {
        let r = self.store.audit(record, result);
        self.log = Ghost(self.log@.push(Step::Audit(record@, result@, r)));
        r
    }
}

} // verus!
