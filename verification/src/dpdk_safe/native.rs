//! The runtime of DPDK with its pools, ports and queues. A driver makes the calls.

use crate::dpdk_safe;
use crate::dpdk_safe::{
    check_burst, check_packet, check_template_burst, decode_xstats, error_number_of,
    runtime_failure, validate_mempool, MempoolConfiguration, PacketMetadata, PortConfiguration,
    PortState, PortStats, RxDescriptor, XStat, XSTAT_NAME_WIDTH,
};
use crate::dpdk_safe::runtime::{PacketTaker, Runtime, RuntimeStep, Taker};
use crate::error::{ErrorCode, NetToolError};
use crate::text;
use crate::text::contains_char;
use vstd::prelude::*;

verus! {

// --------------------------------------------------------------------------------- the driver

/// What the runtime answered to which port a device is.
#[derive(Clone, Copy, Debug, PartialEq, Eq, Structural)]
pub struct LookupReply {
    /// The status; negative for failure.
    pub result: i32,
    /// The port.
    pub port_id: u16,
}

/// What the runtime answered to a request for counters.
#[derive(Clone, Copy, Debug, PartialEq, Eq, Structural)]
pub struct StatsReply {
    /// The status; negative for failure.
    pub result: i32,
    /// The counters.
    pub stats: PortStats,
}

/// What the runtime answered to a request for statistics.
#[derive(Clone, Debug)]
pub struct XstatsReply {
    /// How many there are; negative for failure.
    pub result: i32,
    /// Their names, each of the same width.
    pub names: Vec<u8>,
    /// Their values.
    pub values: Vec<u64>,
}

/// What the runtime received.
#[derive(Clone, Debug)]
pub struct BurstReply {
    /// How many packets.
    pub received: u16,
    /// The packets.
    pub packets: Vec<RxDescriptor>,
}

/// Makes the calls into the runtime of DPDK.
pub trait NativeDriver {
    /// Marks the runtime as owned. Says whether it was not owned before.
    fn claim_runtime(&mut self) -> bool;

    /// Marks the runtime as not owned.
    fn release_runtime(&mut self);

    /// Starts the runtime; returns a negative number for failure.
    fn eal_init(&mut self, arguments: &[String]) -> i32;

    /// Stops the runtime.
    fn eal_cleanup(&mut self);

    /// The number of ports.
    fn port_count(&mut self) -> u16;

    /// Looks up which port a device is.
    fn port_by_name(&mut self, name: &str) -> LookupReply;

    /// Makes a pool; returns its address.
    fn mempool_create(&mut self, configuration: &MempoolConfiguration) -> Option<usize>;

    /// Frees a pool.
    fn mempool_free(&mut self, pool: usize);

    /// Sets a port up; returns a negative number for failure.
    fn port_configure(&mut self, configuration: PortConfiguration, pool: usize) -> i32;

    /// Starts a port; returns a negative number for failure.
    fn port_start(&mut self, port_id: u16) -> i32;

    /// Stops and closes a port.
    fn port_stop_close(&mut self, port_id: u16);

    /// Receives packets.
    fn rx_burst(&mut self, port_id: u16, queue_id: u16, capacity: u16) -> BurstReply;

    /// Frees the buffer of a packet, by its place among those received last.
    fn mbuf_free(&mut self, index: usize);

    /// Sends copies of a frame; returns how many were accepted, or a negative number for
    /// failure.
    fn tx_template_burst(
        &mut self,
        port_id: u16,
        queue_id: u16,
        pool: usize,
        template: &[u8],
        count: u16,
    ) -> i32;

    /// Reads the counters of a port.
    fn port_stats_get(&mut self, port_id: u16) -> StatsReply;

    /// Reads as many statistics of a port as there is room for.
    fn port_xstats_get(&mut self, port_id: u16, capacity: u32) -> XstatsReply;

    /// The number of the last error.
    fn errno(&mut self) -> i32;

    /// The text of an error.
    fn strerror(&mut self, code: i32) -> Option<String>;
}

// ---------------------------------------------------------------------------------- failures

/// The text of an error, or that there is none.
pub open spec fn detail_text(detail: Option<String>) -> Seq<char> {
    match detail {
        Some(text) => text@,
        None => "unknown DPDK error"@,
    }
}

/// Whether an error says what was tried, what the runtime says, once asked, and its error
/// number.
pub open spec fn failed(
    from: Seq<RuntimeStep>,
    to: Seq<RuntimeStep>,
    context: Seq<char>,
    code: i32,
    e: NetToolError,
) -> bool {
    exists|detail: Option<String>|
        to == #[trigger] from.push(RuntimeStep::Describe(code, detail)) && e.is(
            ErrorCode::PreflightFailed,
            context + ": "@ + detail_text(detail) + " (errno "@ + text::signed_decimal(code as int)
                + ")"@,
            false,
        )
}

/// Whether an error is the one that the runtime reported last.
pub open spec fn failed_last(
    from: Seq<RuntimeStep>,
    to: Seq<RuntimeStep>,
    context: Seq<char>,
    e: NetToolError,
) -> bool {
    exists|code: i32|
        failed(#[trigger] from.push(RuntimeStep::LastError(code)), to, context, code, e)
}

/// Whether a result is a refusal for a reason.
pub open spec fn refused<T>(r: Result<T, NetToolError>, message: Seq<char>) -> bool {
    r is Err && r->Err_0.is(ErrorCode::InvalidArgument, message, false)
}

fn failure_of_code<D: NativeDriver>(runtime: &mut Runtime<D>, context: &str, code: i32) -> (r:
    NetToolError)
    ensures
        failed(old(runtime).log(), final(runtime).log(), context@, code, r),
{
    let detail = runtime.strerror(code);
    let text = match detail {
        Some(text) => text,
        None => "unknown DPDK error".to_owned(),
    };
    runtime_failure(context, text.as_str(), code)
}

fn failure_of_result<D: NativeDriver>(runtime: &mut Runtime<D>, context: &str, result: i32) -> (r:
    NetToolError)
    ensures
        failed(
            old(runtime).log(),
            final(runtime).log(),
            context@,
            dpdk_safe::error_number(result),
            r,
        ),
{
    failure_of_code(runtime, context, error_number_of(result))
}

fn last_failure<D: NativeDriver>(runtime: &mut Runtime<D>, context: &str) -> (r: NetToolError)
    ensures
        failed_last(old(runtime).log(), final(runtime).log(), context@, r),
{
    let code: i32 = runtime.errno();
    failure_of_code(runtime, context, code)
}

fn refusal(message: &str) -> (r: NetToolError)
    ensures
        r.is(ErrorCode::InvalidArgument, message@, false),
{
    NetToolError::new(ErrorCode::InvalidArgument, message, false)
}

// -------------------------------------------------------------------------------- the runtime

/// The runtime, started. There is one at a time.
#[derive(Debug)]
pub struct Environment {
    started: bool,
}

/// Whether one of the texts holds a zero.
pub open spec fn holds_zero(arguments: Seq<Seq<char>>) -> bool {
    exists|i: int| 0 <= i < arguments.len() && (#[trigger] arguments[i]).contains('\0')
}

/// How the runtime is started by the one who owns it. Where it cannot be started it is not
/// owned any more.
pub open spec fn started_by(
    from: Seq<RuntimeStep>,
    to: Seq<RuntimeStep>,
    arguments: Seq<Seq<char>>,
    r: Result<Environment, NetToolError>,
) -> bool {
    if holds_zero(arguments) {
        refused(r, "DPDK EAL argument contains NUL"@) && to == from.push(RuntimeStep::Release)
    } else if arguments.len() > i32::MAX {
        refused(r, "too many DPDK EAL arguments"@) && to == from.push(RuntimeStep::Release)
    } else {
        exists|result: i32|
            {
                let behind = #[trigger] from.push(RuntimeStep::Initialize(arguments, result));
                if result < 0 {
                    r matches Err(e) && failed_last(
                        behind.push(RuntimeStep::Release),
                        to,
                        "DPDK EAL initialization failed"@,
                        e,
                    )
                } else {
                    r is Ok && to == behind
                }
            }
    }
}

/// How the runtime is started. It is started only where it is not owned.
pub open spec fn initialized(
    from: Seq<RuntimeStep>,
    to: Seq<RuntimeStep>,
    arguments: Seq<Seq<char>>,
    r: Result<Environment, NetToolError>,
) -> bool {
    exists|free: bool|
        {
            let behind = #[trigger] from.push(RuntimeStep::Claim(free));
            if free {
                started_by(behind, to, arguments, r)
            } else {
                to == behind && refused(r, "DPDK EAL is already owned by this process"@)
            }
        }
}

/// The calls when the runtime was stopped behind others.
pub open spec fn stopped(from: Seq<RuntimeStep>) -> Seq<RuntimeStep> {
    from.push(RuntimeStep::Cleanup).push(RuntimeStep::Release)
}

/// Which port a device is.
pub open spec fn found(
    from: Seq<RuntimeStep>,
    to: Seq<RuntimeStep>,
    name: Seq<char>,
    r: Result<u16, NetToolError>,
) -> bool {
    if name.len() == 0 {
        to == from && refused(r, "DPDK device name must not be empty"@)
    } else if name.contains('\0') {
        to == from && refused(r, "DPDK device name contains NUL"@)
    } else {
        exists|reply: LookupReply|
            {
                let behind = #[trigger] from.push(RuntimeStep::FindPort(name, reply));
                if reply.result < 0 {
                    r matches Err(e) && failed(
                        behind,
                        to,
                        "DPDK device lookup failed"@,
                        dpdk_safe::error_number(reply.result),
                        e,
                    )
                } else {
                    to == behind && r == Ok::<u16, NetToolError>(reply.port_id)
                }
            }
    }
}

/// How a pool is made.
pub open spec fn pooled(
    from: Seq<RuntimeStep>,
    to: Seq<RuntimeStep>,
    configuration: MempoolConfiguration,
    r: Result<Mempool, NetToolError>,
) -> bool {
    if !dpdk_safe::mempool_valid(configuration) {
        to == from && refused(r, "invalid DPDK mempool configuration"@)
    } else if configuration.name@.contains('\0') {
        to == from && refused(r, "DPDK mempool name contains NUL"@)
    } else {
        exists|reply: Option<usize>|
            {
                let behind = #[trigger] from.push(RuntimeStep::CreatePool(configuration, reply));
                match reply {
                    None => r matches Err(e) && failed_last(
                        behind,
                        to,
                        "DPDK mempool creation failed"@,
                        e,
                    ),
                    Some(address) => to == behind && (r matches Ok(pool) && pool.address()
                        == address),
                }
            }
    }
}

fn any_zero(arguments: &[String]) -> (r: bool)
    ensures
        r == holds_zero(text::texts(arguments@)),
{
    let mut i: usize = 0;
    while i < arguments.len()
        invariant
            i <= arguments@.len(),
            forall|k: int|
                #![trigger text::texts(arguments@)[k]]
                0 <= k < i ==> !text::texts(arguments@)[k].contains('\0'),
        decreases arguments@.len() - i,
    {
        proof {
            assert(text::texts(arguments@)[i as int] == arguments@[i as int]@);
        }
        if contains_char(arguments[i].as_str(), '\0') {
            return true;
        }
        i += 1;
    }
    false
}

impl Environment {
    /// Starts the runtime.
    ///
    /// # Errors
    ///
    /// Fails when it is owned already, when an argument holds a zero, when there are too many
    /// and when the runtime fails.
    pub fn initialize<D: NativeDriver>(runtime: &mut Runtime<D>, arguments: &[String]) -> (r: Result<
        Self,
        NetToolError,
    >)
        ensures
            initialized(old(runtime).log(), final(runtime).log(), text::texts(arguments@), r),
    {
        let free: bool = runtime.claim_runtime();
        if !free {
            return Err(refusal("DPDK EAL is already owned by this process"));
        }
        if any_zero(arguments) {
            runtime.release_runtime();
            return Err(refusal("DPDK EAL argument contains NUL"));
        }
        if arguments.len() > 0x7fff_ffff {
            runtime.release_runtime();
            return Err(refusal("too many DPDK EAL arguments"));
        }
        let result: i32 = runtime.eal_init(arguments);
        if result < 0 {
            runtime.release_runtime();
            return Err(last_failure(runtime, "DPDK EAL initialization failed"));
        }
        Ok(Environment { started: true })
    }

    /// Stops the runtime.
    pub fn close<D: NativeDriver>(self, runtime: &mut Runtime<D>)
        ensures
            final(runtime).log() == stopped(old(runtime).log()),
    {
        runtime.eal_cleanup();
        runtime.release_runtime();
    }

    /// The number of ports.
    pub fn port_count<D: NativeDriver>(&self, runtime: &mut Runtime<D>) -> (r: u16)
        ensures
            final(runtime).log() == old(runtime).log().push(RuntimeStep::CountPorts(r)),
    {
        runtime.port_count()
    }

    /// Looks up which port a device is.
    ///
    /// # Errors
    ///
    /// Fails when the name is empty or holds a zero and when there is no such device.
    pub fn port_by_name<D: NativeDriver>(&self, runtime: &mut Runtime<D>, name: &str) -> (r: Result<
        u16,
        NetToolError,
    >)
        ensures
            found(old(runtime).log(), final(runtime).log(), name@, r),
    {
        if name.is_empty() {
            return Err(refusal("DPDK device name must not be empty"));
        }
        if contains_char(name, '\0') {
            return Err(refusal("DPDK device name contains NUL"));
        }
        let reply = runtime.port_by_name(name);
        if reply.result < 0 {
            return Err(failure_of_result(runtime, "DPDK device lookup failed", reply.result));
        }
        Ok(reply.port_id)
    }

    /// Makes a pool of packet buffers.
    ///
    /// # Errors
    ///
    /// Fails when the configuration is not valid and when the runtime fails.
    pub fn create_mempool<D: NativeDriver>(
        &self,
        runtime: &mut Runtime<D>,
        configuration: &MempoolConfiguration,
    ) -> (r: Result<Mempool, NetToolError>)
        ensures
            pooled(old(runtime).log(), final(runtime).log(), *configuration, r),
    {
        match validate_mempool(configuration) {
            Ok(_) => {},
            Err(e) => {
                return Err(e);
            },
        }
        if contains_char(configuration.name.as_str(), '\0') {
            return Err(refusal("DPDK mempool name contains NUL"));
        }
        let reply = runtime.mempool_create(configuration);
        match reply {
            None => Err(last_failure(runtime, "DPDK mempool creation failed")),
            Some(address) => Ok(Mempool { address }),
        }
    }
}

// ------------------------------------------------------------------------------ pools and ports

/// A pool of packet buffers.
#[derive(Debug)]
pub struct Mempool {
    address: usize,
}

/// How a port is set up.
pub open spec fn set_up(
    from: Seq<RuntimeStep>,
    to: Seq<RuntimeStep>,
    pool: Mempool,
    configuration: PortConfiguration,
    r: Result<Port, NetToolError>,
) -> bool {
    if !dpdk_safe::port_valid(configuration) {
        to == from && refused(r, "invalid DPDK port configuration"@)
    } else {
        exists|result: i32|
            {
                let behind = #[trigger] from.push(
                    RuntimeStep::ConfigurePort(configuration, pool.address(), result),
                );
                if result < 0 {
                    r matches Err(e) && failed(
                        behind,
                        to,
                        "DPDK port configuration failed"@,
                        dpdk_safe::error_number(result),
                        e,
                    )
                } else {
                    to == behind && (r matches Ok(port) && port.state().is_new(configuration))
                }
            }
    }
}

impl Mempool {
    /// Where it is.
    pub closed spec fn address(self) -> usize {
        self.address
    }

    /// Sets a port up.
    ///
    /// # Errors
    ///
    /// Fails when the configuration is not valid and when the driver refuses it.
    pub fn configure_port<D: NativeDriver>(
        &self,
        runtime: &mut Runtime<D>,
        configuration: PortConfiguration,
    ) -> (r: Result<Port, NetToolError>)
        ensures
            set_up(old(runtime).log(), final(runtime).log(), *self, configuration, r),
    {
        let state = match PortState::configure(configuration) {
            Ok(state) => state,
            Err(e) => {
                return Err(e);
            },
        };
        let result: i32 = runtime.port_configure(configuration, self.address);
        if result < 0 {
            return Err(failure_of_result(runtime, "DPDK port configuration failed", result));
        }
        Ok(Port { state })
    }

    /// Frees the pool.
    pub fn close<D: NativeDriver>(self, runtime: &mut Runtime<D>)
        ensures
            final(runtime).log() == old(runtime).log().push(
                RuntimeStep::FreePool(self.address()),
            ),
    {
        runtime.mempool_free(self.address);
    }
}

/// A port that was set up.
#[derive(Debug)]
pub struct Port {
    state: PortState,
}

/// How a port is started.
pub open spec fn port_started(
    from: Seq<RuntimeStep>,
    to: Seq<RuntimeStep>,
    before: PortState,
    after: PortState,
    r: Result<(), NetToolError>,
) -> bool {
    if before.started() {
        to == from && refused(r, "DPDK port is already started"@) && after == before
    } else {
        exists|result: i32|
            {
                let behind = #[trigger] from.push(
                    RuntimeStep::StartPort(before.configuration().port_id, result),
                );
                if result < 0 {
                    &&& after == before
                    &&& r matches Err(e) && failed(
                        behind,
                        to,
                        "DPDK port start failed"@,
                        dpdk_safe::error_number(result),
                        e,
                    )
                } else {
                    &&& to == behind
                    &&& r is Ok
                    &&& after.started()
                    &&& after.configuration() == before.configuration()
                    &&& after.rx() == before.rx()
                    &&& after.tx() == before.tx()
                }
            }
    }
}

/// How the counters of a port are read.
pub open spec fn counted(
    from: Seq<RuntimeStep>,
    to: Seq<RuntimeStep>,
    port: PortState,
    r: Result<PortStats, NetToolError>,
) -> bool {
    if !port.started() {
        to == from && refused(r, "DPDK port must be started before reading statistics"@)
    } else {
        exists|reply: StatsReply|
            {
                let behind = #[trigger] from.push(
                    RuntimeStep::ReadStats(port.configuration().port_id, reply),
                );
                if reply.result < 0 {
                    r matches Err(e) && failed(
                        behind,
                        to,
                        "DPDK port statistics query failed"@,
                        dpdk_safe::error_number(reply.result),
                        e,
                    )
                } else {
                    to == behind && r == Ok::<PortStats, NetToolError>(reply.stats)
                }
            }
    }
}

/// Whether a reply holds as many statistics as there are said to be.
pub open spec fn holds_all(reply: XstatsReply, count: i32) -> bool {
    &&& reply.result == count
    &&& reply.values@.len() == count
    &&& reply.names@.len() == count * XSTAT_NAME_WIDTH
}

/// What a reply with statistics means.
pub open spec fn xstats_of(
    from: Seq<RuntimeStep>,
    to: Seq<RuntimeStep>,
    count: i32,
    reply: XstatsReply,
    r: Result<Vec<XStat>, NetToolError>,
) -> bool {
    if reply.result < 0 {
        r matches Err(e) && failed(
            from,
            to,
            "DPDK xstats query failed"@,
            dpdk_safe::error_number(reply.result),
            e,
        )
    } else if !holds_all(reply, count) {
        to == from && refused(r, "DPDK xstats count changed during query"@)
    } else {
        to == from && dpdk_safe::decoded(reply.names@, reply.values@, r)
    }
}

/// How the statistics of a port are read: they are counted, and then as many are read.
pub open spec fn described(
    from: Seq<RuntimeStep>,
    to: Seq<RuntimeStep>,
    port: PortState,
    r: Result<Vec<XStat>, NetToolError>,
) -> bool {
    let port_id = port.configuration().port_id;
    if !port.started() {
        to == from && refused(r, "DPDK port must be started before reading xstats"@)
    } else {
        exists|first: XstatsReply|
            {
                let behind = #[trigger] from.push(RuntimeStep::ReadXstats(port_id, 0u32, first));
                if first.result < 0 {
                    r matches Err(e) && failed(
                        behind,
                        to,
                        "DPDK xstats count query failed"@,
                        dpdk_safe::error_number(first.result),
                        e,
                    )
                } else if first.result == 0 {
                    to == behind && (r matches Ok(stats) && stats@.len() == 0)
                } else {
                    described_again(behind, to, port_id, first.result, r)
                }
            }
    }
}

/// How as many statistics of a port are read as were counted.
pub open spec fn described_again(
    from: Seq<RuntimeStep>,
    to: Seq<RuntimeStep>,
    port_id: u16,
    count: i32,
    r: Result<Vec<XStat>, NetToolError>,
) -> bool {
    exists|second: XstatsReply|
        xstats_of(
            #[trigger] from.push(RuntimeStep::ReadXstats(port_id, count as u32, second)),
            to,
            count,
            second,
            r,
        )
}

impl Port {
    /// Whether it was started and which queues have owners.
    pub closed spec fn state(self) -> PortState {
        self.state
    }

    /// Starts the port.
    ///
    /// # Errors
    ///
    /// Fails when it was started before and when the driver fails.
    pub fn start<D: NativeDriver>(&mut self, runtime: &mut Runtime<D>) -> (r: Result<(), NetToolError>)
        ensures
            port_started(
                old(runtime).log(),
                final(runtime).log(),
                old(self).state(),
                final(self).state(),
                r,
            ),
    {
        if self.state.is_started() {
            return Err(refusal("DPDK port is already started"));
        }
        let port_id: u16 = self.state.port_id();
        let result: i32 = runtime.port_start(port_id);
        if result < 0 {
            return Err(failure_of_result(runtime, "DPDK port start failed", result));
        }
        self.state.start()
    }

    /// Reads the counters of the port.
    ///
    /// # Errors
    ///
    /// Fails when the port was not started and when the driver fails.
    pub fn stats<D: NativeDriver>(&self, runtime: &mut Runtime<D>) -> (r: Result<PortStats, NetToolError>)
        ensures
            counted(old(runtime).log(), final(runtime).log(), self.state(), r),
    {
        match self.state.require_started_for_statistics() {
            Ok(_) => {},
            Err(e) => {
                return Err(e);
            },
        }
        let port_id: u16 = self.state.port_id();
        let reply = runtime.port_stats_get(port_id);
        if reply.result < 0 {
            return Err(
                failure_of_result(runtime, "DPDK port statistics query failed", reply.result),
            );
        }
        Ok(reply.stats)
    }

    /// Reads the statistics of the port.
    ///
    /// # Errors
    ///
    /// Fails when the port was not started, when the driver fails, when the number of
    /// statistics changes and when a name is empty or not UTF-8.
    pub fn xstats<D: NativeDriver>(&self, runtime: &mut Runtime<D>) -> (r: Result<Vec<XStat>, NetToolError>)
        ensures
            described(old(runtime).log(), final(runtime).log(), self.state(), r),
    {
        match self.state.require_started_for_xstats() {
            Ok(_) => {},
            Err(e) => {
                return Err(e);
            },
        }
        let port_id: u16 = self.state.port_id();
        let first = runtime.port_xstats_get(port_id, 0);
        let count: i32 = first.result;
        if count < 0 {
            return Err(failure_of_result(runtime, "DPDK xstats count query failed", count));
        }
        if count == 0 {
            return Ok(Vec::new());
        }
        let second = runtime.port_xstats_get(port_id, count as u32);
        read_all(runtime, count, &second)
    }

    /// Takes a receive queue for polling.
    ///
    /// # Errors
    ///
    /// Fails when the port was not started, has no such queue, the burst is not between 1 and
    /// 256 or the queue has an owner.
    pub fn rx_queue(&mut self, queue_id: u16, burst_capacity: u16) -> (r: Result<
        RxQueue,
        NetToolError,
    >)
        ensures
            old(self).state().same_but_rx(final(self).state()),
            match old(self).state().rx_fault(queue_id, burst_capacity) {
                Some(message) => refused(r, message) && final(self).state().rx() == old(
                    self,
                ).state().rx(),
                None => {
                    &&& final(self).state().rx() == old(self).state().rx().insert(queue_id)
                    &&& r matches Ok(queue) && queue.port_id() == old(
                        self,
                    ).state().configuration().port_id && queue.queue_id() == queue_id
                        && queue.capacity() == burst_capacity
                },
            },
    {
        match self.state.claim_rx(queue_id, burst_capacity) {
            Ok(_) => {},
            Err(e) => {
                return Err(e);
            },
        }
        Ok(RxQueue { port_id: self.state.port_id(), queue_id, capacity: burst_capacity })
    }

    /// Takes a transmit queue. What it sends is from a pool.
    ///
    /// # Errors
    ///
    /// Fails when the port was not started, has no such queue or the queue has an owner.
    pub fn tx_queue(&mut self, queue_id: u16, pool: &Mempool) -> (r: Result<TxQueue, NetToolError>)
        ensures
            old(self).state().same_but_tx(final(self).state()),
            match old(self).state().tx_fault(queue_id) {
                Some(message) => refused(r, message) && final(self).state().tx() == old(
                    self,
                ).state().tx(),
                None => {
                    &&& final(self).state().tx() == old(self).state().tx().insert(queue_id)
                    &&& r matches Ok(queue) && queue.port_id() == old(
                        self,
                    ).state().configuration().port_id && queue.queue_id() == queue_id
                        && queue.pool() == pool.address()
                },
            },
    {
        match self.state.claim_tx(queue_id) {
            Ok(_) => {},
            Err(e) => {
                return Err(e);
            },
        }
        Ok(TxQueue { port_id: self.state.port_id(), queue_id, pool: pool.address })
    }

    /// Gives a receive queue back.
    pub fn release_rx(&mut self, queue: RxQueue)
        ensures
            old(self).state().same_but_rx(final(self).state()),
            final(self).state().rx() == old(self).state().rx().remove(queue.queue_id()),
    {
        self.state.release_rx(queue.queue_id);
    }

    /// Gives a transmit queue back.
    pub fn release_tx(&mut self, queue: TxQueue)
        ensures
            old(self).state().same_but_tx(final(self).state()),
            final(self).state().tx() == old(self).state().tx().remove(queue.queue_id()),
    {
        self.state.release_tx(queue.queue_id);
    }

    /// Stops and closes the port.
    pub fn close<D: NativeDriver>(self, runtime: &mut Runtime<D>)
        ensures
            final(runtime).log() == old(runtime).log().push(
                RuntimeStep::ClosePort(self.state().configuration().port_id),
            ),
    {
        runtime.port_stop_close(self.state.port_id());
    }
}

fn read_all<D: NativeDriver>(runtime: &mut Runtime<D>, count: i32, reply: &XstatsReply) -> (r: Result<
    Vec<XStat>,
    NetToolError,
>)
    requires
        count > 0,
    ensures
        xstats_of(old(runtime).log(), final(runtime).log(), count, *reply, r),
{
    if reply.result < 0 {
        return Err(failure_of_result(runtime, "DPDK xstats query failed", reply.result));
    }
    let all: u64 = count as u64;
    if reply.result != count || reply.values.len() as u64 != all || reply.names.len() as u64 != all
        * XSTAT_NAME_WIDTH as u64 {
        return Err(refusal("DPDK xstats count changed during query"));
    }
    decode_xstats(reply.names.as_slice(), reply.values.as_slice())
}

// ------------------------------------------------------------------------------------- queues

/// The one handle of a receive queue.
#[derive(Debug)]
pub struct RxQueue {
    port_id: u16,
    queue_id: u16,
    capacity: u16,
}

/// The one handle of a transmit queue.
#[derive(Debug)]
pub struct TxQueue {
    port_id: u16,
    queue_id: u16,
    pool: usize,
}

/// What is said of a packet of a burst; a packet that nothing is said of has no buffer.
pub open spec fn packet_at(reply: BurstReply, i: int) -> RxDescriptor {
    if 0 <= i < reply.packets@.len() {
        reply.packets@[i]
    } else {
        RxDescriptor {
            has_buffer: false,
            has_data: false,
            data_len: 0,
            packet_len: 0,
            rss_hash: 0,
            offload_flags: 0,
        }
    }
}

/// What is handed on of a packet.
pub open spec fn metadata_of(queue_id: u16, d: RxDescriptor) -> PacketMetadata {
    PacketMetadata {
        packet_length: d.packet_len,
        captured_length: d.data_len,
        queue_id,
        rss_hash: d.rss_hash,
        offload_flags: d.offload_flags,
    }
}

/// The calls that free the buffers of a burst between two places.
pub open spec fn frees_of(reply: BurstReply, from: int, to: int) -> Seq<RuntimeStep>
    decreases to - from,
{
    if to <= from {
        Seq::empty()
    } else {
        let before = frees_of(reply, from, to - 1);
        if packet_at(reply, to - 1).has_buffer {
            before.push(RuntimeStep::FreeBuffer((to - 1) as usize))
        } else {
            before
        }
    }
}

/// The calls that hand the first packets of a burst on, one after the other, each one freed
/// behind that.
pub open spec fn hands_of(queue_id: u16, reply: BurstReply, n: int) -> Seq<RuntimeStep>
    decreases n,
{
    if n <= 0 {
        Seq::empty()
    } else {
        hands_of(queue_id, reply, n - 1).push(
            RuntimeStep::Hand(
                (n - 1) as usize,
                metadata_of(queue_id, packet_at(reply, n - 1)),
            ),
        ).push(RuntimeStep::FreeBuffer((n - 1) as usize))
    }
}

/// Whether what is said of the first packets of a burst makes sense.
pub open spec fn valid_below(reply: BurstReply, n: int) -> bool {
    forall|i: int|
        0 <= i < n ==> dpdk_safe::descriptor_valid(#[trigger] packet_at(reply, i))
}

/// How the packets of a burst are handed on: one after the other, up to the first that makes
/// no sense. Whatever happens, every buffer is freed, once.
pub open spec fn taken(
    from: Seq<RuntimeStep>,
    to: Seq<RuntimeStep>,
    queue_id: u16,
    reply: BurstReply,
    r: Result<usize, NetToolError>,
) -> bool {
    match r {
        Ok(n) => {
            &&& n == reply.received
            &&& valid_below(reply, n as int)
            &&& to == from + hands_of(queue_id, reply, n as int)
        },
        Err(e) => exists|k: int|
            {
                &&& 0 <= k < reply.received
                &&& valid_below(reply, k)
                &&& !dpdk_safe::descriptor_valid(packet_at(reply, k))
                &&& to == from + #[trigger] hands_of(queue_id, reply, k) + frees_of(
                    reply,
                    k,
                    reply.received as int,
                )
                &&& e.is(
                    ErrorCode::InvalidArgument,
                    "DPDK RX burst returned invalid packet metadata"@,
                    false,
                )
            },
    }
}

/// How a burst is received.
pub open spec fn burst_received(
    from: Seq<RuntimeStep>,
    to: Seq<RuntimeStep>,
    queue: RxQueue,
    r: Result<usize, NetToolError>,
) -> bool {
    exists|reply: BurstReply|
        {
            let behind = #[trigger] from.push(
                RuntimeStep::Receive(queue.port_id(), queue.queue_id(), queue.capacity(), reply),
            );
            if reply.received > queue.capacity() {
                to == behind && refused(r, "DPDK RX burst exceeded configured capacity"@)
            } else {
                taken(behind, to, queue.queue_id(), reply, r)
            }
        }
}

fn describe(reply: &BurstReply, i: usize) -> (r: RxDescriptor)
    ensures
        r == packet_at(*reply, i as int),
{
    if i < reply.packets.len() {
        reply.packets[i]
    } else {
        RxDescriptor {
            has_buffer: false,
            has_data: false,
            data_len: 0,
            packet_len: 0,
            rss_hash: 0,
            offload_flags: 0,
        }
    }
}

fn free_from<D: NativeDriver>(runtime: &mut Runtime<D>, reply: &BurstReply, start: usize)
    requires
        start <= reply.received,
    ensures
        final(runtime).log() == old(runtime).log() + frees_of(
            *reply,
            start as int,
            reply.received as int,
        ),
{
    let mut i: usize = start;
    proof {
        assert(runtime.log() =~= old(runtime).log() + frees_of(*reply, start as int, i as int));
    }
    while i < reply.received as usize
        invariant
            start <= i <= reply.received,
            runtime.log() == old(runtime).log() + frees_of(*reply, start as int, i as int),
        decreases reply.received - i,
    {
        if describe(reply, i).has_buffer {
            runtime.mbuf_free(i);
        }
        i += 1;
        proof {
            assert(runtime.log() =~= old(runtime).log() + frees_of(
                *reply,
                start as int,
                i as int,
            ));
        }
    }
}

impl RxQueue {
    /// The port.
    pub closed spec fn port_id(self) -> u16 {
        self.port_id
    }

    /// The queue.
    pub closed spec fn queue_id(self) -> u16 {
        self.queue_id
    }

    /// The most packets of a burst.
    pub closed spec fn capacity(self) -> u16 {
        self.capacity
    }

    /// Receives a burst and hands its packets on, by their places in it. Each is freed behind
    /// that.
    ///
    /// # Errors
    ///
    /// Fails when the driver received more than it was asked for and when what it says of a
    /// packet makes no sense.
    pub fn receive_burst<D: NativeDriver, C: PacketTaker>(
        &self,
        runtime: &mut Runtime<D>,
        taker: &mut Taker<C>,
    ) -> (r: Result<usize, NetToolError>)
        ensures
            burst_received(old(runtime).log(), final(runtime).log(), *self, r),
    {
        let reply = runtime.rx_burst(self.port_id, self.queue_id, self.capacity);
        let ghost behind = runtime.log();
        let count: usize = match check_burst(reply.received, self.capacity) {
            Ok(count) => count,
            Err(e) => {
                return Err(e);
            },
        };
        let mut i: usize = 0;
        proof {
            assert(behind =~= behind + hands_of(self.queue_id(), reply, 0));
        }
        while i < count
            invariant
                i <= count,
                count == reply.received,
                valid_below(reply, i as int),
                runtime.log() == behind + hands_of(self.queue_id(), reply, i as int),
                reply.received <= self.capacity(),
                behind == old(runtime).log().push(
                    RuntimeStep::Receive(
                        self.port_id(),
                        self.queue_id(),
                        self.capacity(),
                        reply,
                    ),
                ),
            decreases count - i,
        {
            let packet = describe(&reply, i);
            match check_packet(self.queue_id, packet) {
                Ok(metadata) => {
                    runtime.hand(taker, i, metadata);
                    runtime.mbuf_free(i);
                    proof {
                        assert(metadata == metadata_of(
                            self.queue_id(),
                            packet_at(reply, i as int),
                        ));
                        assert(runtime.log() =~= behind + hands_of(
                            self.queue_id(),
                            reply,
                            i + 1,
                        ));
                    }
                },
                Err(e) => {
                    free_from(runtime, &reply, i);
                    proof {
                        assert(!dpdk_safe::descriptor_valid(packet_at(reply, i as int)));
                        assert(taken(
                            behind,
                            runtime.log(),
                            self.queue_id(),
                            reply,
                            Err::<usize, NetToolError>(e),
                        ));
                    }
                    return Err(e);
                },
            }
            i += 1;
        }
        Ok(count)
    }
}

/// How copies of a frame are sent.
pub open spec fn burst_sent(
    from: Seq<RuntimeStep>,
    to: Seq<RuntimeStep>,
    queue: TxQueue,
    template: Seq<u8>,
    count: u16,
    r: Result<u16, NetToolError>,
) -> bool {
    if template.len() > u16::MAX {
        to == from && refused(r, "DPDK TX template exceeds u16 length"@)
    } else if template.len() == 0 || count == 0 || count > dpdk_safe::MAX_BURST {
        to == from && refused(r, "DPDK TX template/count is invalid"@)
    } else {
        exists|result: i32|
            {
                let behind = #[trigger] from.push(burst_step(queue, template, count, result));
                if result < 0 {
                    r matches Err(e) && failed(
                        behind,
                        to,
                        "DPDK TX burst failed"@,
                        dpdk_safe::error_number(result),
                        e,
                    )
                } else if result > u16::MAX {
                    to == behind && refused(r, "DPDK TX result exceeds u16 capacity"@)
                } else {
                    to == behind && r == Ok::<u16, NetToolError>(result as u16)
                }
            }
    }
}

/// The call that sends copies of a frame.
pub open spec fn burst_step(
    queue: TxQueue,
    template: Seq<u8>,
    count: u16,
    result: i32,
) -> RuntimeStep {
    RuntimeStep::Send(queue.port_id(), queue.queue_id(), queue.pool(), template, count, result)
}

impl TxQueue {
    /// The port.
    pub closed spec fn port_id(self) -> u16 {
        self.port_id
    }

    /// The queue.
    pub closed spec fn queue_id(self) -> u16 {
        self.queue_id
    }

    /// The pool.
    pub closed spec fn pool(self) -> usize {
        self.pool
    }

    /// Sends copies of a frame and returns how many were accepted.
    ///
    /// # Errors
    ///
    /// Fails when the frame or the number is not valid and when the driver fails.
    pub fn send_template_burst<D: NativeDriver>(
        &self,
        runtime: &mut Runtime<D>,
        template: &[u8],
        count: u16,
    ) -> (r: Result<u16, NetToolError>)
        ensures
            burst_sent(old(runtime).log(), final(runtime).log(), *self, template@, count, r),
    {
        match check_template_burst(template, count) {
            Ok(_) => {},
            Err(e) => {
                return Err(e);
            },
        }
        let result: i32 = runtime.tx_template_burst(
            self.port_id,
            self.queue_id,
            self.pool,
            template,
            count,
        );
        proof {
            assert(runtime.log() == old(runtime).log().push(
                burst_step(*self, template@, count, result),
            ));
        }
        if result < 0 {
            return Err(failure_of_result(runtime, "DPDK TX burst failed", result));
        }
        if result > 0xffff {
            return Err(refusal("DPDK TX result exceeds u16 capacity"));
        }
        Ok(result as u16)
    }
}

} // verus!
