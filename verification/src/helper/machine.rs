//! What an executor asks of the kernel and its records, written down one behind the other.

use crate::error::NetToolError;
use crate::helper::resources::{
    HugepageSnapshot, KernelAccess, KernelFault, NicSnapshot, ResourceStore,
};
use vstd::prelude::*;

verus! {

/// A call and its answer.
pub enum MachineStep {
    /// A link was to be followed.
    Link(Seq<char>, Result<String, KernelFault>),
    /// A file was to be read.
    Read(Seq<char>, Result<String, KernelFault>),
    /// A file was to be written.
    Write(Seq<char>, Seq<u8>, Result<(), KernelFault>),
    /// It was asked whether there is a record of an interface.
    FindNic(Seq<char>, Result<Option<NicSnapshot>, NetToolError>),
    /// The record of an interface was to be read back.
    LoadNic(Seq<char>, Result<NicSnapshot, NetToolError>),
    /// The record of an interface was to be kept.
    SaveNic(Seq<char>, NicSnapshot, Result<(), NetToolError>),
    /// It was asked whether there is a record of huge pages.
    FindHugepages(Seq<char>, Result<Option<HugepageSnapshot>, NetToolError>),
    /// The record of huge pages was to be read back.
    LoadHugepages(Seq<char>, Result<HugepageSnapshot, NetToolError>),
    /// The record of huge pages was to be kept.
    SaveHugepages(Seq<char>, HugepageSnapshot, Result<(), NetToolError>),
}

/// The kernel and the records, with the calls that were made of them.
pub struct Machine<K, S> {
    kernel: K,
    store: S,
    log: Ghost<Seq<MachineStep>>,
}

impl<K: KernelAccess, S: ResourceStore> Machine<K, S> {
    /// The calls that were made of the two, in their order, each with its answer.
    pub closed spec fn log(self) -> Seq<MachineStep> {
        self.log@
    }

    /// Nothing was called yet.
    pub fn new(kernel: K, store: S) -> (r: Self)
        ensures
            r.log() == Seq::<MachineStep>::empty(),
    {
        Machine { kernel, store, log: Ghost(Seq::empty()) }
    }

    /// Reads where a link points.
    ///
    /// # Errors
    ///
    /// Fails as the kernel does.
    pub fn read_link(&mut self, path: &str) -> (r: Result<String, KernelFault>)
        ensures
            final(self).log() == old(self).log().push(MachineStep::Link(path@, r)),
    {
        let r = self.kernel.read_link(path);
        self.log = Ghost(self.log@.push(MachineStep::Link(path@, r)));
        r
    }

    /// Reads a file.
    ///
    /// # Errors
    ///
    /// Fails as the kernel does.
    pub fn read_to_string(&mut self, path: &str) -> (r: Result<String, KernelFault>)
        ensures
            final(self).log() == old(self).log().push(MachineStep::Read(path@, r)),
    {
        let r = self.kernel.read_to_string(path);
        self.log = Ghost(self.log@.push(MachineStep::Read(path@, r)));
        r
    }

    /// Writes a file.
    ///
    /// # Errors
    ///
    /// Fails as the kernel does.
    pub fn write(&mut self, path: &str, value: &[u8]) -> (r: Result<(), KernelFault>)
        ensures
            final(self).log() == old(self).log().push(MachineStep::Write(path@, value@, r)),
    {
        let r = self.kernel.write(path, value);
        self.log = Ghost(self.log@.push(MachineStep::Write(path@, value@, r)));
        r
    }

    /// Returns the record of an interface, if there is one.
    ///
    /// # Errors
    ///
    /// Fails as the store does.
    pub fn find_nic(&mut self, file_name: &str) -> (r: Result<Option<NicSnapshot>, NetToolError>)
        ensures
            final(self).log() == old(self).log().push(MachineStep::FindNic(file_name@, r)),
    {
        let r = self.store.find_nic(file_name);
        self.log = Ghost(self.log@.push(MachineStep::FindNic(file_name@, r)));
        r
    }

    /// Returns the record of an interface.
    ///
    /// # Errors
    ///
    /// Fails as the store does.
    pub fn load_nic(&mut self, file_name: &str) -> (r: Result<NicSnapshot, NetToolError>)
        ensures
            final(self).log() == old(self).log().push(MachineStep::LoadNic(file_name@, r)),
    {
        let r = self.store.load_nic(file_name);
        self.log = Ghost(self.log@.push(MachineStep::LoadNic(file_name@, r)));
        r
    }

    /// Keeps the record of an interface.
    ///
    /// # Errors
    ///
    /// Fails as the store does.
    pub fn save_nic(&mut self, file_name: &str, snapshot: &NicSnapshot) -> (r: Result<(), NetToolError>)
        ensures
            final(self).log() == old(self).log().push(MachineStep::SaveNic(file_name@, *snapshot, r)),
    {
        let r = self.store.save_nic(file_name, snapshot);
        self.log = Ghost(self.log@.push(MachineStep::SaveNic(file_name@, *snapshot, r)));
        r
    }

    /// Returns the record of huge pages, if there is one.
    ///
    /// # Errors
    ///
    /// Fails as the store does.
    pub fn find_hugepages(&mut self, file_name: &str) -> (r: Result<Option<HugepageSnapshot>, NetToolError>)
        ensures
            final(self).log() == old(self).log().push(MachineStep::FindHugepages(file_name@, r)),
    {
        let r = self.store.find_hugepages(file_name);
        self.log = Ghost(self.log@.push(MachineStep::FindHugepages(file_name@, r)));
        r
    }

    /// Returns the record of huge pages.
    ///
    /// # Errors
    ///
    /// Fails as the store does.
    pub fn load_hugepages(&mut self, file_name: &str) -> (r: Result<HugepageSnapshot, NetToolError>)
        ensures
            final(self).log() == old(self).log().push(MachineStep::LoadHugepages(file_name@, r)),
    {
        let r = self.store.load_hugepages(file_name);
        self.log = Ghost(self.log@.push(MachineStep::LoadHugepages(file_name@, r)));
        r
    }

    /// Keeps the record of huge pages.
    ///
    /// # Errors
    ///
    /// Fails as the store does.
    pub fn save_hugepages(&mut self, file_name: &str, snapshot: &HugepageSnapshot) -> (r: Result<(), NetToolError>)
        ensures
            final(self).log() == old(self).log().push(MachineStep::SaveHugepages(file_name@, *snapshot, r)),
    {
        let r = self.store.save_hugepages(file_name, snapshot);
        self.log = Ghost(self.log@.push(MachineStep::SaveHugepages(file_name@, *snapshot, r)));
        r
    }
}

} // verus!
