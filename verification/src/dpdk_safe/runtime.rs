//! The runtime of DPDK, the taker of packets and the clock, with the calls that were made of
//! them written down one behind the other.

use crate::dpdk::executor::Duration;
use crate::dpdk_safe::native::{
    BurstReply, LookupReply, NativeDriver, StatsReply, XstatsReply,
};
use crate::dpdk_safe::{MempoolConfiguration, PacketMetadata, PortConfiguration};
use crate::text;
use vstd::prelude::*;

verus! {

/// A call and its answer.
pub enum RuntimeStep {
    /// The runtime was to be owned.
    Claim(bool),
    /// The runtime is not owned any more.
    Release,
    /// The runtime was to be started.
    Initialize(Seq<Seq<char>>, i32),
    /// The runtime was stopped.
    Cleanup,
    /// The ports were counted.
    CountPorts(u16),
    /// A device was looked up.
    FindPort(Seq<char>, LookupReply),
    /// A pool was to be made.
    CreatePool(MempoolConfiguration, Option<usize>),
    /// A pool was freed.
    FreePool(usize),
    /// A port was to be set up.
    ConfigurePort(PortConfiguration, usize, i32),
    /// A port was to be started.
    StartPort(u16, i32),
    /// A port was stopped and closed.
    ClosePort(u16),
    /// Packets were to be received.
    Receive(u16, u16, u16, BurstReply),
    /// The buffer of a packet was freed.
    FreeBuffer(usize),
    /// Copies of a frame were to be sent.
    Send(u16, u16, usize, Seq<u8>, u16, i32),
    /// The counters of a port were to be read.
    ReadStats(u16, StatsReply),
    /// The statistics of a port were to be read.
    ReadXstats(u16, u32, XstatsReply),
    /// The number of the last error was asked for.
    LastError(i32),
    /// The text of an error was asked for.
    Describe(i32, Option<String>),
    /// A packet was handed on, by its place among those received last.
    Hand(usize, PacketMetadata),
    /// It was asked how much time has passed.
    Elapsed(Duration),
}

/// Takes packets.
pub trait PacketTaker {
    /// Takes a packet, by its place among those received last.
    fn take(&mut self, index: usize, metadata: PacketMetadata);
}

/// Takes packets and does nothing with them.
#[derive(Debug)]
pub struct Discard;

impl PacketTaker for Discard {
    fn take(&mut self, _index: usize, _metadata: PacketMetadata) {
    }
}

/// Says how much time has passed.
pub trait Clock {
    /// How much time has passed.
    fn elapsed(&mut self) -> Duration;
}

/// A taker of packets that is called through the runtime.
#[derive(Debug)]
pub struct Taker<C> {
    inner: C,
}

impl<C: PacketTaker> Taker<C> {
    /// Wraps a taker.
    pub fn new(inner: C) -> (r: Self)
        ensures
            r.inner_view() == inner,
    {
        Taker { inner }
    }

    /// The taker.
    pub closed spec fn inner_view(self) -> C {
        self.inner
    }

    /// Returns the taker.
    pub fn inner(&self) -> (r: &C)
        ensures
            *r == self.inner_view(),
    {
        &self.inner
    }
}

/// A clock that is read through the runtime.
#[derive(Debug)]
pub struct Timer<T> {
    inner: T,
}

impl<T: Clock> Timer<T> {
    /// The clock.
    pub closed spec fn inner_view(self) -> T {
        self.inner
    }

    /// Wraps a clock.
    pub fn new(inner: T) -> (r: Self)
        ensures
            r.inner_view() == inner,
    {
        Timer { inner }
    }
}

/// The runtime, with the calls that were made.
pub struct Runtime<D> {
    driver: D,
    log: Ghost<Seq<RuntimeStep>>,
}

impl<D: NativeDriver> Runtime<D> {
    /// The calls that were made, in their order, each with its answer.
    pub closed spec fn log(self) -> Seq<RuntimeStep> {
        self.log@
    }

    /// The driver.
    pub closed spec fn driver_view(self) -> D {
        self.driver
    }

    /// Nothing was called yet.
    pub fn new(driver: D) -> (r: Self)
        ensures
            r.driver_view() == driver,
            r.log() == Seq::<RuntimeStep>::empty(),
    {
        Runtime { driver, log: Ghost(Seq::empty()) }
    }

    /// Returns the driver.
    pub fn driver(&self) -> (r: &D)
        ensures
            *r == self.driver_view(),
    {
        &self.driver
    }

    /// Marks the runtime as owned. Says whether it was not owned before.
    pub fn claim_runtime(&mut self) -> (r: bool)
        ensures
            final(self).log() == old(self).log().push(RuntimeStep::Claim(r)),
    {
        let r = self.driver.claim_runtime();
        self.log = Ghost(self.log@.push(RuntimeStep::Claim(r)));
        r
    }

    /// Marks the runtime as not owned.
    pub fn release_runtime(&mut self)
        ensures
            final(self).log() == old(self).log().push(RuntimeStep::Release),
    {
        self.driver.release_runtime();
        self.log = Ghost(self.log@.push(RuntimeStep::Release));
    }

    /// Starts the runtime; returns a negative number for failure.
    pub fn eal_init(&mut self, arguments: &[String]) -> (r: i32)
        ensures
            final(self).log() == old(self).log().push(RuntimeStep::Initialize(text::texts(arguments@), r)),
    {
        let r = self.driver.eal_init(arguments);
        self.log = Ghost(self.log@.push(RuntimeStep::Initialize(text::texts(arguments@), r)));
        r
    }

    /// Stops the runtime.
    pub fn eal_cleanup(&mut self)
        ensures
            final(self).log() == old(self).log().push(RuntimeStep::Cleanup),
    {
        self.driver.eal_cleanup();
        self.log = Ghost(self.log@.push(RuntimeStep::Cleanup));
    }

    /// Returns the number of ports.
    pub fn port_count(&mut self) -> (r: u16)
        ensures
            final(self).log() == old(self).log().push(RuntimeStep::CountPorts(r)),
    {
        let r = self.driver.port_count();
        self.log = Ghost(self.log@.push(RuntimeStep::CountPorts(r)));
        r
    }

    /// Looks up which port a device is.
    pub fn port_by_name(&mut self, name: &str) -> (r: LookupReply)
        ensures
            final(self).log() == old(self).log().push(RuntimeStep::FindPort(name@, r)),
    {
        let r = self.driver.port_by_name(name);
        self.log = Ghost(self.log@.push(RuntimeStep::FindPort(name@, r)));
        r
    }

    /// Makes a pool; returns its address.
    pub fn mempool_create(&mut self, configuration: &MempoolConfiguration) -> (r: Option<usize>)
        ensures
            final(self).log() == old(self).log().push(RuntimeStep::CreatePool(*configuration, r)),
    {
        let r = self.driver.mempool_create(configuration);
        self.log = Ghost(self.log@.push(RuntimeStep::CreatePool(*configuration, r)));
        r
    }

    /// Frees a pool.
    pub fn mempool_free(&mut self, pool: usize)
        ensures
            final(self).log() == old(self).log().push(RuntimeStep::FreePool(pool)),
    {
        self.driver.mempool_free(pool);
        self.log = Ghost(self.log@.push(RuntimeStep::FreePool(pool)));
    }

    /// Sets a port up; returns a negative number for failure.
    pub fn port_configure(&mut self, configuration: PortConfiguration, pool: usize) -> (r: i32)
        ensures
            final(self).log() == old(self).log().push(RuntimeStep::ConfigurePort(configuration, pool, r)),
    {
        let r = self.driver.port_configure(configuration, pool);
        self.log = Ghost(self.log@.push(RuntimeStep::ConfigurePort(configuration, pool, r)));
        r
    }

    /// Starts a port; returns a negative number for failure.
    pub fn port_start(&mut self, port_id: u16) -> (r: i32)
        ensures
            final(self).log() == old(self).log().push(RuntimeStep::StartPort(port_id, r)),
    {
        let r = self.driver.port_start(port_id);
        self.log = Ghost(self.log@.push(RuntimeStep::StartPort(port_id, r)));
        r
    }

    /// Stops and closes a port.
    pub fn port_stop_close(&mut self, port_id: u16)
        ensures
            final(self).log() == old(self).log().push(RuntimeStep::ClosePort(port_id)),
    {
        self.driver.port_stop_close(port_id);
        self.log = Ghost(self.log@.push(RuntimeStep::ClosePort(port_id)));
    }

    /// Receives packets.
    pub fn rx_burst(&mut self, port_id: u16, queue_id: u16, capacity: u16) -> (r: BurstReply)
        ensures
            final(self).log() == old(self).log().push(RuntimeStep::Receive(port_id, queue_id, capacity, r)),
    {
        let r = self.driver.rx_burst(port_id, queue_id, capacity);
        self.log = Ghost(self.log@.push(RuntimeStep::Receive(port_id, queue_id, capacity, r)));
        r
    }

    /// Frees the buffer of a packet, by its place among those received last.
    pub fn mbuf_free(&mut self, index: usize)
        ensures
            final(self).log() == old(self).log().push(RuntimeStep::FreeBuffer(index)),
    {
        self.driver.mbuf_free(index);
        self.log = Ghost(self.log@.push(RuntimeStep::FreeBuffer(index)));
    }

    /// Sends copies of a frame; returns how many were accepted, or a negative number for failure.
    pub fn tx_template_burst(&mut self, port_id: u16, queue_id: u16, pool: usize, template: &[u8], count: u16) -> (r: i32)
        ensures
            final(self).log() == old(self).log().push(RuntimeStep::Send(port_id, queue_id, pool, template@, count, r)),
    {
        let r = self.driver.tx_template_burst(port_id, queue_id, pool, template, count);
        self.log = Ghost(self.log@.push(RuntimeStep::Send(port_id, queue_id, pool, template@, count, r)));
        r
    }

    /// Reads the counters of a port.
    pub fn port_stats_get(&mut self, port_id: u16) -> (r: StatsReply)
        ensures
            final(self).log() == old(self).log().push(RuntimeStep::ReadStats(port_id, r)),
    {
        let r = self.driver.port_stats_get(port_id);
        self.log = Ghost(self.log@.push(RuntimeStep::ReadStats(port_id, r)));
        r
    }

    /// Reads as many statistics of a port as there is room for.
    pub fn port_xstats_get(&mut self, port_id: u16, capacity: u32) -> (r: XstatsReply)
        ensures
            final(self).log() == old(self).log().push(RuntimeStep::ReadXstats(port_id, capacity, r)),
    {
        let r = self.driver.port_xstats_get(port_id, capacity);
        self.log = Ghost(self.log@.push(RuntimeStep::ReadXstats(port_id, capacity, r)));
        r
    }

    /// Returns the number of the last error.
    pub fn errno(&mut self) -> (r: i32)
        ensures
            final(self).log() == old(self).log().push(RuntimeStep::LastError(r)),
    {
        let r = self.driver.errno();
        self.log = Ghost(self.log@.push(RuntimeStep::LastError(r)));
        r
    }

    /// Returns the text of an error.
    pub fn strerror(&mut self, code: i32) -> (r: Option<String>)
        ensures
            final(self).log() == old(self).log().push(RuntimeStep::Describe(code, r)),
    {
        let r = self.driver.strerror(code);
        self.log = Ghost(self.log@.push(RuntimeStep::Describe(code, r)));
        r
    }

    /// Hands a packet on.
    pub fn hand<C: PacketTaker>(&mut self, taker: &mut Taker<C>, index: usize, metadata: PacketMetadata)
        ensures
            final(self).log() == old(self).log().push(RuntimeStep::Hand(index, metadata)),
    {
        taker.inner.take(index, metadata);
        self.log = Ghost(self.log@.push(RuntimeStep::Hand(index, metadata)));
    }

    /// Asks how much time has passed.
    pub fn elapsed<T: Clock>(&mut self, timer: &mut Timer<T>) -> (r: Duration)
        ensures
            final(self).log() == old(self).log().push(RuntimeStep::Elapsed(r)),
    {
        let r = timer.inner.elapsed();
        self.log = Ghost(self.log@.push(RuntimeStep::Elapsed(r)));
        r
    }
}

} // verus!
