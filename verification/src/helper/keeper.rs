//! What an executor asks of a reader and a store, written down one behind the other.

use crate::error::NetToolError;
use crate::helper::platform::{PlatformSnapshot, PlatformSnapshotStore, PlatformStateReader};
use crate::helper_protocol::NetworkDesiredState;
use vstd::prelude::*;

verus! {

/// A call and its answer.
pub enum KeepStep {
    /// The state of an interface was to be read.
    Read(Seq<char>, Result<NetworkDesiredState, NetToolError>),
    /// A snapshot was to be kept.
    Save(PlatformSnapshot, Result<String, NetToolError>),
    /// A snapshot was to be read back.
    Load(Seq<char>, Result<PlatformSnapshot, NetToolError>),
    /// A state was to be written as JSON.
    Encode(NetworkDesiredState, Result<Vec<u8>, NetToolError>),
}

/// A reader and a store, with the calls that were made of them.
pub struct Keeper<S, T> {
    reader: S,
    store: T,
    log: Ghost<Seq<KeepStep>>,
}

impl<S: PlatformStateReader, T: PlatformSnapshotStore> Keeper<S, T> {
    /// The calls that were made of the two, in their order, each with its answer.
    pub closed spec fn log(self) -> Seq<KeepStep> {
        self.log@
    }

    /// Nothing was called yet.
    pub fn new(reader: S, store: T) -> (r: Self)
        ensures
            r.log() == Seq::<KeepStep>::empty(),
    {
        Keeper { reader, store, log: Ghost(Seq::empty()) }
    }

    /// Reads the state of an interface.
    ///
    /// # Errors
    ///
    /// Fails as the reader does.
    pub fn read_state(&mut self, interface_id: &str) -> (r: Result<
        NetworkDesiredState,
        NetToolError,
    >)
        ensures
            final(self).log() == old(self).log().push(KeepStep::Read(interface_id@, r)),
    {
        let r = self.reader.read_state(interface_id);
        self.log = Ghost(self.log@.push(KeepStep::Read(interface_id@, r)));
        r
    }

    /// Keeps a snapshot.
    ///
    /// # Errors
    ///
    /// Fails as the store does.
    pub fn save(&mut self, snapshot: &PlatformSnapshot) -> (r: Result<String, NetToolError>)
        ensures
            final(self).log() == old(self).log().push(KeepStep::Save(*snapshot, r)),
    {
        let r = self.store.save(snapshot);
        self.log = Ghost(self.log@.push(KeepStep::Save(*snapshot, r)));
        r
    }

    /// Reads a snapshot back.
    ///
    /// # Errors
    ///
    /// Fails as the store does.
    pub fn load(&mut self, snapshot_id: &str) -> (r: Result<PlatformSnapshot, NetToolError>)
        ensures
            final(self).log() == old(self).log().push(KeepStep::Load(snapshot_id@, r)),
    {
        let r = self.store.load(snapshot_id);
        self.log = Ghost(self.log@.push(KeepStep::Load(snapshot_id@, r)));
        r
    }

    /// Writes a state as JSON.
    ///
    /// # Errors
    ///
    /// Fails as the store does.
    pub fn encode(&mut self, state: &NetworkDesiredState) -> (r: Result<Vec<u8>, NetToolError>)
        ensures
            final(self).log() == old(self).log().push(KeepStep::Encode(*state, r)),
    {
        let r = self.store.encode(state);
        self.log = Ghost(self.log@.push(KeepStep::Encode(*state, r)));
        r
    }
}

} // verus!
