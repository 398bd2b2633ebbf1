//! What an executor asks of a store of snapshots, written down one behind the other.

use crate::error::NetToolError;
use crate::helper::network_manager::{NetworkManagerSnapshot, NetworkSnapshotStore};
use vstd::prelude::*;

verus! {

/// A call and its answer.
pub enum StoreStep {
    /// A snapshot was to be kept.
    Save(NetworkManagerSnapshot, Result<String, NetToolError>),
    /// A snapshot was to be read back.
    Load(Seq<char>, Result<NetworkManagerSnapshot, NetToolError>),
    /// A snapshot was to be written as JSON.
    Encode(NetworkManagerSnapshot, Result<Vec<u8>, NetToolError>),
}

/// A store, with the calls that were made of it.
pub struct Snapshots<S> {
    store: S,
    log: Ghost<Seq<StoreStep>>,
}

impl<S: NetworkSnapshotStore> Snapshots<S> {
    /// The calls that were made, in their order, each with its answer.
    pub closed spec fn log(self) -> Seq<StoreStep> {
        self.log@
    }

    /// Nothing was called yet.
    pub fn new(store: S) -> (r: Self)
        ensures
            r.log() == Seq::<StoreStep>::empty(),
    {
        Snapshots { store, log: Ghost(Seq::empty()) }
    }

    /// Keeps a snapshot.
    ///
    /// # Errors
    ///
    /// Fails as the store does.
    pub fn save(&mut self, snapshot: &NetworkManagerSnapshot) -> (r: Result<String, NetToolError>)
        ensures
            final(self).log() == old(self).log().push(StoreStep::Save(*snapshot, r)),
    {
        let r = self.store.save(snapshot);
        self.log = Ghost(self.log@.push(StoreStep::Save(*snapshot, r)));
        r
    }

    /// Reads a snapshot back.
    ///
    /// # Errors
    ///
    /// Fails as the store does.
    pub fn load(&mut self, snapshot_id: &str) -> (r: Result<NetworkManagerSnapshot, NetToolError>)
        ensures
            final(self).log() == old(self).log().push(StoreStep::Load(snapshot_id@, r)),
    {
        let r = self.store.load(snapshot_id);
        self.log = Ghost(self.log@.push(StoreStep::Load(snapshot_id@, r)));
        r
    }

    /// Writes a snapshot as JSON.
    ///
    /// # Errors
    ///
    /// Fails as the store does.
    pub fn encode(&mut self, snapshot: &NetworkManagerSnapshot) -> (r: Result<
        Vec<u8>,
        NetToolError,
    >)
        ensures
            final(self).log() == old(self).log().push(StoreStep::Encode(*snapshot, r)),
    {
        let r = self.store.encode(snapshot);
        self.log = Ghost(self.log@.push(StoreStep::Encode(*snapshot, r)));
        r
    }
}

} // verus!
