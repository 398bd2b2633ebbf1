//! The calls that are made of the kernel, written down one behind the other.

use crate::af_xdp::mapping::{RingView, XdpRingMapping};
use crate::af_xdp::setup::SetupCall;
use crate::af_xdp::socket::KernelReply;
use crate::af_xdp::AfXdpError;
use vstd::prelude::*;

verus! {

/// A call, the name of the interface that goes with it, and the answer.
pub type SetupStep = (SetupCall, Seq<char>, KernelReply);

/// The kernel, with the calls that were made of it.
pub struct SetupKernel<F> {
    call: F,
    log: Ghost<Seq<SetupStep>>,
}

impl<F: FnMut(SetupCall, &str) -> KernelReply> SetupKernel<F> {
    /// The calls that were made, in their order, each with its answer.
    pub closed spec fn log(self) -> Seq<SetupStep> {
        self.log@
    }

    /// Whether every call can be made.
    pub closed spec fn takes_all(self) -> bool {
        forall|call: SetupCall, name: &str| call_requires(self.call, (call, name))
    }

    /// Nothing was called yet.
    pub fn new(call: F) -> (r: Self)
        requires
            forall|c: SetupCall, name: &str| call_requires(call, (c, name)),
        ensures
            r.takes_all(),
            r.log() == Seq::<SetupStep>::empty(),
    {
        SetupKernel { call, log: Ghost(Seq::empty()) }
    }

    /// Makes a call.
    pub fn ask(&mut self, call: SetupCall, name: &str) -> (r: KernelReply)
        requires
            old(self).takes_all(),
        ensures
            final(self).takes_all(),
            final(self).log() == old(self).log().push((call, name@, r)),
    {
        let r = (self.call)(call, name);
        self.log = Ghost(self.log@.push((call, name@, r)));
        r
    }
}

/// Something that tells the kernel that there are packets to send.
pub trait TxKick {
    /// Tells the kernel of what is in a ring.
    fn kick(&mut self, ring: &XdpRingMapping) -> Result<(), AfXdpError>;
}

/// Something that tells the kernel, with what it was told and what came of it.
pub struct TxKicker<K> {
    kick: K,
    log: Ghost<Seq<(RingView, Result<(), AfXdpError>)>>,
}

impl<K: TxKick> TxKicker<K> {
    /// The rings that the kernel was told of, as they were then, each with what came of it.
    pub closed spec fn log(self) -> Seq<(RingView, Result<(), AfXdpError>)> {
        self.log@
    }

    /// Nothing was told yet.
    pub fn new(kick: K) -> (r: Self)
        ensures
            r.log() == Seq::<(RingView, Result<(), AfXdpError>)>::empty(),
    {
        TxKicker { kick, log: Ghost(Seq::empty()) }
    }

    /// What tells the kernel.
    pub closed spec fn inner_view(self) -> K {
        self.kick
    }

    /// What tells the kernel.
    pub fn inner(&self) -> (r: &K)
        ensures
            *r == self.inner_view(),
    {
        &self.kick
    }

    /// Tells the kernel of what is in a ring.
    ///
    /// # Errors
    ///
    /// Fails when the kernel fails.
    pub fn kick(&mut self, ring: &XdpRingMapping) -> (r: Result<(), AfXdpError>)
        ensures
            final(self).log() == old(self).log().push((ring@, r)),
    {
        let r = self.kick.kick(ring);
        self.log = Ghost(self.log@.push((ring@, r)));
        r
    }
}

} // verus!
