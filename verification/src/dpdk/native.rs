//! Sending and receiving through the runtime of DPDK.

use crate::dpdk::executor;
use crate::dpdk::executor::{
    count_accepted, count_received, native_executor_unavailable, next_burst, plan_setup,
    runtime_arguments, Direction, Duration, NativeDpdkExecutionRequest, NativeDpdkExecutionResult,
    NativeDpdkReceiveRequest, NativeDpdkReceiveResult,
};
use crate::dpdk::planning::QueuePlan;
use crate::dpdk_safe;
use crate::dpdk_safe::native;
use crate::dpdk_safe::native::{
    BurstReply, Environment, Mempool, NativeDriver, Port, RxQueue, TxQueue,
};
use crate::dpdk_safe::runtime::{Clock, Discard, Runtime, RuntimeStep, Taker, Timer};
use crate::dpdk_safe::{
    DpdkFeatures, MempoolConfiguration, PortConfiguration, PortState, PortStats, XStat,
};
use crate::error::{ErrorCode, NetToolError};
use crate::text;
use vstd::prelude::*;

verus! {

// -------------------------------------------------------------------------------- the session

/// The runtime with a pool and a port that was set up.
#[derive(Debug)]
pub struct Session {
    environment: Environment,
    pool: Mempool,
    port: Port,
}

impl Session {
    /// The pool.
    pub closed spec fn pool(self) -> Mempool {
        self.pool
    }

    /// The port.
    pub closed spec fn port(self) -> Port {
        self.port
    }

    /// The number of the port.
    pub open spec fn port_id(self) -> u16 {
        self.port().state().configuration().port_id
    }
}

/// The calls when a pool was freed and then the runtime stopped, behind others.
pub open spec fn pool_closed(from: Seq<RuntimeStep>, pool: Mempool) -> Seq<RuntimeStep> {
    native::stopped(from.push(RuntimeStep::FreePool(pool.address())))
}

/// The calls when a port was stopped and closed, then its pool freed and then the runtime
/// stopped, behind others.
pub open spec fn session_closed(from: Seq<RuntimeStep>, session: Session) -> Seq<RuntimeStep> {
    pool_closed(from.push(RuntimeStep::ClosePort(session.port_id())), session.pool())
}

/// How a port is set up with a pool. Where it cannot be, the pool is freed and the runtime
/// stopped.
pub open spec fn opened_on(
    from: Seq<RuntimeStep>,
    to: Seq<RuntimeStep>,
    pool: Mempool,
    configuration: PortConfiguration,
    r: Result<Session, NetToolError>,
) -> bool {
    exists|middle: Seq<RuntimeStep>, port: Result<Port, NetToolError>| #[trigger]
        native::set_up(from, middle, pool, configuration, port) && match port {
            Ok(port) => to == middle && (r matches Ok(session) && session.pool() == pool
                && session.port() == port),
            Err(e) => to == pool_closed(middle, pool) && r == Err::<Session, NetToolError>(e),
        }
}

/// How a pool and a port are made as planned. Where one cannot be, the runtime is stopped.
pub open spec fn opened_as(
    from: Seq<RuntimeStep>,
    to: Seq<RuntimeStep>,
    pool_configuration: MempoolConfiguration,
    configuration: PortConfiguration,
    r: Result<Session, NetToolError>,
) -> bool {
    exists|middle: Seq<RuntimeStep>, pool: Result<Mempool, NetToolError>| #[trigger]
        native::pooled(from, middle, pool_configuration, pool) && match pool {
            Ok(pool) => opened_on(middle, to, pool, configuration, r),
            Err(e) => to == native::stopped(middle) && r == Err::<Session, NetToolError>(e),
        }
}

/// How a pool and a port are made for a port of the runtime.
pub open spec fn opened_at(
    from: Seq<RuntimeStep>,
    to: Seq<RuntimeStep>,
    direction: Direction,
    port_id: u16,
    plan: QueuePlan,
    r: Result<Session, NetToolError>,
) -> bool {
    exists|planned: Result<(MempoolConfiguration, PortConfiguration), NetToolError>| #[trigger]
        executor::setup_planned(plan, direction, port_id, planned) && match planned {
            Ok((pool, port)) => opened_as(from, to, pool, port, r),
            Err(e) => to == native::stopped(from) && r == Err::<Session, NetToolError>(e),
        }
}

/// How a pool and a port are made for a device in the started runtime.
pub open spec fn opened_in(
    from: Seq<RuntimeStep>,
    to: Seq<RuntimeStep>,
    direction: Direction,
    pci_address: Seq<char>,
    plan: QueuePlan,
    r: Result<Session, NetToolError>,
) -> bool {
    exists|middle: Seq<RuntimeStep>, port_id: Result<u16, NetToolError>| #[trigger]
        native::found(from, middle, pci_address, port_id) && match port_id {
            Ok(port_id) => opened_at(middle, to, direction, port_id, plan, r),
            Err(e) => to == native::stopped(middle) && r == Err::<Session, NetToolError>(e),
        }
}

/// How a session is opened: the runtime is started on one device, and a pool and a port are
/// made for it.
pub open spec fn opened(
    from: Seq<RuntimeStep>,
    to: Seq<RuntimeStep>,
    direction: Direction,
    pci_address: Seq<char>,
    plan: QueuePlan,
    r: Result<Session, NetToolError>,
) -> bool {
    exists|middle: Seq<RuntimeStep>, environment: Result<Environment, NetToolError>| #[trigger]
        native::initialized(
            from,
            middle,
            executor::arguments_of(direction, pci_address),
            environment,
        ) && match environment {
            Ok(_) => opened_in(middle, to, direction, pci_address, plan, r),
            Err(e) => to == middle && r == Err::<Session, NetToolError>(e),
        }
}

impl Session {
    /// Opens a session on a device.
    ///
    /// # Errors
    ///
    /// Fails when the plan is not valid and when the runtime fails. What was opened is then
    /// closed.
    pub fn open<D: NativeDriver>(
        runtime: &mut Runtime<D>,
        direction: Direction,
        pci_address: &str,
        plan: &QueuePlan,
    ) -> (r: Result<Self, NetToolError>)
        ensures
            opened(
                old(runtime).log(),
                final(runtime).log(),
                direction,
                pci_address@,
                *plan,
                r,
            ),
            r matches Ok(session) ==> is_fresh(session),
    {
        let arguments = runtime_arguments(direction, pci_address);
        let given = arguments.as_slice();
        match Environment::initialize(runtime, given) {
            Ok(environment) => open_in(runtime, environment, direction, pci_address, plan),
            Err(e) => Err(e),
        }
    }

    /// Closes the session: the port first, then the pool, then the runtime.
    pub fn close<D: NativeDriver>(self, runtime: &mut Runtime<D>)
        ensures
            final(runtime).log() == session_closed(old(runtime).log(), self),
    {
        self.port.close(runtime);
        self.pool.close(runtime);
        self.environment.close(runtime);
    }
}

/// Whether the port of a session was just set up and has queues of both directions.
pub open spec fn is_fresh(session: Session) -> bool {
    let state = session.port().state();
    &&& state.is_new(state.configuration())
    &&& dpdk_safe::port_valid(state.configuration())
}

fn open_in<D: NativeDriver>(
    runtime: &mut Runtime<D>,
    environment: Environment,
    direction: Direction,
    pci_address: &str,
    plan: &QueuePlan,
) -> (r: Result<Session, NetToolError>)
    ensures
        opened_in(old(runtime).log(), final(runtime).log(), direction, pci_address@, *plan, r),
        r matches Ok(session) ==> is_fresh(session),
{
    let port_id: u16 = match environment.port_by_name(runtime, pci_address) {
        Ok(port_id) => port_id,
        Err(e) => {
            environment.close(runtime);
            return Err(e);
        },
    };
    match plan_setup(plan, direction, port_id) {
        Ok((pool, port)) => open_as(runtime, environment, &pool, port),
        Err(e) => {
            environment.close(runtime);
            Err(e)
        },
    }
}

fn open_as<D: NativeDriver>(
    runtime: &mut Runtime<D>,
    environment: Environment,
    pool_configuration: &MempoolConfiguration,
    configuration: PortConfiguration,
) -> (r: Result<Session, NetToolError>)
    ensures
        opened_as(
            old(runtime).log(),
            final(runtime).log(),
            *pool_configuration,
            configuration,
            r,
        ),
        r matches Ok(session) ==> is_fresh(session),
{
    let pool = match environment.create_mempool(runtime, pool_configuration) {
        Ok(pool) => pool,
        Err(e) => {
            environment.close(runtime);
            return Err(e);
        },
    };
    match pool.configure_port(runtime, configuration) {
        Ok(port) => Ok(Session { environment, pool, port }),
        Err(e) => {
            pool.close(runtime);
            environment.close(runtime);
            Err(e)
        },
    }
}

// -------------------------------------------------------------------------------- the readings

/// How the counters and statistics of a port are read once packets were moved.
pub open spec fn read_out(
    from: Seq<RuntimeStep>,
    to: Seq<RuntimeStep>,
    port: PortState,
    r: Result<(PortStats, Vec<XStat>), NetToolError>,
) -> bool {
    exists|middle: Seq<RuntimeStep>, stats: Result<PortStats, NetToolError>| #[trigger]
        native::counted(from, middle, port, stats) && match stats {
            Ok(hardware) => exists|xstats: Result<Vec<XStat>, NetToolError>| #[trigger]
                native::described(middle, to, port, xstats) && match xstats {
                    Ok(xstats) => r == Ok::<(PortStats, Vec<XStat>), NetToolError>(
                        (hardware, xstats),
                    ),
                    Err(e) => r == Err::<(PortStats, Vec<XStat>), NetToolError>(e),
                },
            Err(e) => to == middle && r == Err::<(PortStats, Vec<XStat>), NetToolError>(e),
        }
}

fn read_port<D: NativeDriver>(runtime: &mut Runtime<D>, port: &Port) -> (r: Result<
    (PortStats, Vec<XStat>),
    NetToolError,
>)
    ensures
        read_out(old(runtime).log(), final(runtime).log(), port.state(), r),
{
    let hardware = match port.stats(runtime) {
        Ok(hardware) => hardware,
        Err(e) => {
            return Err(e);
        },
    };
    match port.xstats(runtime) {
        Ok(xstats) => Ok((hardware, xstats)),
        Err(e) => Err(e),
    }
}

// ------------------------------------------------------------------------------------- sending

/// Whether these can be the numbers of packets that bursts got accepted, each burst sent while
/// packets were left: some were accepted each time.
pub open spec fn is_progress(packets: u64, accepted: Seq<u16>) -> bool
    decreases accepted.len(),
{
    accepted.len() == 0 || {
        &&& is_progress(packets, accepted.drop_last())
        &&& executor::total_of(accepted.drop_last()) < packets
        &&& accepted.last() > 0
    }
}

/// The calls that send bursts of a frame one after the other, each one of the size of what was
/// left, with the numbers of packets that were accepted.
pub open spec fn bursts_of(
    queue: TxQueue,
    frame: Seq<u8>,
    packets: u64,
    accepted: Seq<u16>,
) -> Seq<RuntimeStep>
    decreases accepted.len(),
{
    if accepted.len() == 0 {
        Seq::empty()
    } else {
        let before = executor::total_of(accepted.drop_last());
        bursts_of(queue, frame, packets, accepted.drop_last()).push(
            native::burst_step(
                queue,
                frame,
                executor::burst_size(packets, before as u64) as u16,
                accepted.last() as i32,
            ),
        )
    }
}

/// Whether packets were sent as they should be, in bursts that got packets accepted. Where not
/// all were sent one more burst failed or got nothing accepted.
pub open spec fn transmitted_by(
    from: Seq<RuntimeStep>,
    to: Seq<RuntimeStep>,
    queue: TxQueue,
    frame: Seq<u8>,
    packets: u64,
    r: Result<u64, NetToolError>,
    accepted: Seq<u16>,
) -> bool {
    let total = executor::total_of(accepted);
    let burst = executor::burst_size(packets, total as u64) as u16;
    let behind = from + bursts_of(queue, frame, packets, accepted);
    &&& is_progress(packets, accepted)
    &&& match r {
        Ok(n) => to == behind && n == total && n >= packets,
        Err(e) => {
            &&& total < packets
            &&& {
                ||| native::burst_sent(behind, to, queue, frame, burst, Err(e))
                ||| native::burst_sent(behind, to, queue, frame, burst, Ok(0)) && e.is(
                    ErrorCode::PreflightFailed,
                    "DPDK TX made no forward progress"@,
                    true,
                )
            }
        },
    }
}

/// How all packets of a request are sent.
pub open spec fn all_transmitted(
    from: Seq<RuntimeStep>,
    to: Seq<RuntimeStep>,
    queue: TxQueue,
    request: NativeDpdkExecutionRequest,
    r: Result<u64, NetToolError>,
) -> bool {
    exists|accepted: Seq<u16>| #[trigger]
        transmitted_by(
            from,
            to,
            queue,
            request.frame_template@,
            request.packets,
            r,
            accepted,
        )
}

/// Sends bursts until all packets were accepted, and returns how many were.
///
/// # Errors
///
/// Fails with what sending a burst fails with, and when a burst gets nothing accepted.
pub fn transmit<D: NativeDriver>(
    runtime: &mut Runtime<D>,
    queue: &TxQueue,
    request: &NativeDpdkExecutionRequest,
) -> (r: Result<u64, NetToolError>)
    ensures
        all_transmitted(old(runtime).log(), final(runtime).log(), *queue, *request, r),
{
    let frame = request.frame_template.as_slice();
    let packets: u64 = request.packets;
    let ghost mut accepted: Seq<u16> = Seq::empty();
    let ghost from = runtime.log();
    let mut transmitted: u64 = 0;
    proof {
        assert(runtime.log() =~= from + bursts_of(*queue, frame@, packets, accepted));
    }
    while transmitted < packets
        invariant
            from == old(runtime).log(),
            frame@ == request.frame_template@,
            packets == request.packets,
            transmitted == executor::total_of(accepted),
            is_progress(packets, accepted),
            runtime.log() == from + bursts_of(*queue, frame@, packets, accepted),
        decreases u64::MAX - transmitted,
    {
        let burst: u16 = next_burst(packets, transmitted);
        let count: u16 = match queue.send_template_burst(runtime, frame, burst) {
            Ok(n) => n,
            Err(e) => {
                proof {
                    let r = Err::<u64, NetToolError>(e);
                    assert(transmitted_by(
                        from,
                        runtime.log(),
                        *queue,
                        frame@,
                        packets,
                        r,
                        accepted,
                    ));
                }
                return Err(e);
            },
        };
        match count_accepted(transmitted, count) {
            Ok(n) => {
                proof {
                    assert(accepted.push(count).drop_last() =~= accepted);
                    accepted = accepted.push(count);
                    assert(runtime.log() =~= from + bursts_of(*queue, frame@, packets, accepted));
                }
                transmitted = n;
            },
            Err(e) => {
                proof {
                    let r = Err::<u64, NetToolError>(e);
                    assert(transmitted_by(
                        from,
                        runtime.log(),
                        *queue,
                        frame@,
                        packets,
                        r,
                        accepted,
                    ));
                }
                return Err(e);
            },
        }
    }
    proof {
        let r = Ok::<u64, NetToolError>(transmitted);
        assert(transmitted_by(from, runtime.log(), *queue, frame@, packets, r, accepted));
    }
    Ok(transmitted)
}

/// Whether a queue is the first one of a port that sends from a pool.
pub open spec fn is_first_tx(queue: TxQueue, session: Session) -> bool {
    &&& queue.port_id() == session.port_id()
    &&& queue.queue_id() == 0
    &&& queue.pool() == session.pool().address()
}

/// How packets are sent in a session once the port was started.
pub open spec fn sent_in(
    from: Seq<RuntimeStep>,
    to: Seq<RuntimeStep>,
    session: Session,
    port: PortState,
    request: NativeDpdkExecutionRequest,
    r: Result<NativeDpdkExecutionResult, NetToolError>,
) -> bool {
    exists|middle: Seq<RuntimeStep>, queue: TxQueue, total: Result<u64, NetToolError>| #[trigger]
        all_transmitted(from, middle, queue, request, total) && is_first_tx(queue, session)
            && match total {
            Ok(transmitted_packets) => exists|
                readings: Result<(PortStats, Vec<XStat>), NetToolError>,
            | #[trigger]
                read_out(middle, to, port, readings) && match readings {
                    Ok((hardware, xstats)) => r == Ok::<NativeDpdkExecutionResult, NetToolError>(
                        NativeDpdkExecutionResult { transmitted_packets, hardware, xstats },
                    ),
                    Err(e) => r == Err::<NativeDpdkExecutionResult, NetToolError>(e),
                },
            Err(e) => to == middle && r == Err::<NativeDpdkExecutionResult, NetToolError>(e),
        }
}

/// How packets are sent in a session.
pub open spec fn session_sent(
    from: Seq<RuntimeStep>,
    to: Seq<RuntimeStep>,
    session: Session,
    request: NativeDpdkExecutionRequest,
    r: Result<NativeDpdkExecutionResult, NetToolError>,
) -> bool {
    exists|middle: Seq<RuntimeStep>, port: PortState, started: Result<(), NetToolError>|
        #[trigger] native::port_started(
            from,
            middle,
            session.port().state(),
            port,
            started,
        ) && match started {
            Ok(_) => sent_in(middle, to, session, port, request, r),
            Err(e) => to == middle && r == Err::<NativeDpdkExecutionResult, NetToolError>(e),
        }
}

/// How packets are sent in a session that was opened. Whatever comes of it, the session is
/// closed behind that.
pub open spec fn sent_and_closed(
    from: Seq<RuntimeStep>,
    to: Seq<RuntimeStep>,
    session: Session,
    request: NativeDpdkExecutionRequest,
    r: Result<NativeDpdkExecutionResult, NetToolError>,
) -> bool {
    exists|middle: Seq<RuntimeStep>|
        to == session_closed(middle, session) && #[trigger] session_sent(
            from,
            middle,
            session,
            request,
            r,
        )
}

/// How a request to send packets is carried out.
pub open spec fn sent(
    from: Seq<RuntimeStep>,
    to: Seq<RuntimeStep>,
    request: NativeDpdkExecutionRequest,
    r: Result<NativeDpdkExecutionResult, NetToolError>,
) -> bool {
    match executor::execution_fault(request) {
        Some(message) => to == from && native::refused(r, message),
        None => exists|middle: Seq<RuntimeStep>, session: Result<Session, NetToolError>|
            #[trigger] opened(
                from,
                middle,
                Direction::Transmit,
                request.pci_address@,
                request.queue_plan,
                session,
            ) && match session {
                Ok(session) => sent_and_closed(middle, to, session, request, r),
                Err(e) => to == middle && r == Err::<NativeDpdkExecutionResult, NetToolError>(e),
            },
    }
}

fn send_in<D: NativeDriver>(
    runtime: &mut Runtime<D>,
    session: &mut Session,
    request: &NativeDpdkExecutionRequest,
) -> (r: Result<NativeDpdkExecutionResult, NetToolError>)
    requires
        is_fresh(*old(session)),
    ensures
        session_sent(old(runtime).log(), final(runtime).log(), *old(session), *request, r),
        final(session).port_id() == old(session).port_id(),
        final(session).pool() == old(session).pool(),
{
    let ghost before = *session;
    let started = session.port.start(runtime);
    let ghost running = session.port.state();
    let ghost up = runtime.log();
    match started {
        Ok(_) => {},
        Err(e) => {
            return Err(e);
        },
    }
    let queue = match session.port.tx_queue(0, &session.pool) {
        Ok(queue) => queue,
        Err(e) => {
            return Err(e);
        },
    };
    let total = transmit(runtime, &queue, request);
    let ghost counted = total;
    let ghost first = queue;
    let ghost moved = runtime.log();
    session.port.release_tx(queue);
    proof {
        assert(all_transmitted(up, moved, first, *request, counted));
        assert(is_first_tx(first, before));
    }
    let transmitted_packets: u64 = match total {
        Ok(n) => n,
        Err(e) => {
            return Err(e);
        },
    };
    let readings = read_port(runtime, &session.port);
    proof {
        lemma_readings(moved, runtime.log(), session.port.state(), running, readings);
    }
    match readings {
        Ok((hardware, xstats)) => Ok(
            NativeDpdkExecutionResult { transmitted_packets, hardware, xstats },
        ),
        Err(e) => Err(e),
    }
}

proof fn lemma_readings(
    from: Seq<RuntimeStep>,
    to: Seq<RuntimeStep>,
    a: PortState,
    b: PortState,
    r: Result<(PortStats, Vec<XStat>), NetToolError>,
)
    requires
        a.started() == b.started(),
        a.configuration() == b.configuration(),
        read_out(from, to, a, r),
    ensures
        read_out(from, to, b, r),
{
    let (middle, stats) = choose|
        middle: Seq<RuntimeStep>,
        stats: Result<PortStats, NetToolError>,
    | #[trigger]
        native::counted(from, middle, a, stats) && match stats {
            Ok(hardware) => exists|xstats: Result<Vec<XStat>, NetToolError>| #[trigger]
                native::described(middle, to, a, xstats) && match xstats {
                    Ok(xstats) => r == Ok::<(PortStats, Vec<XStat>), NetToolError>(
                        (hardware, xstats),
                    ),
                    Err(e) => r == Err::<(PortStats, Vec<XStat>), NetToolError>(e),
                },
            Err(e) => to == middle && r == Err::<(PortStats, Vec<XStat>), NetToolError>(e),
        };
    assert(native::counted(from, middle, b, stats));
    if stats is Ok {
        let xstats = choose|xstats: Result<Vec<XStat>, NetToolError>| #[trigger]
            native::described(middle, to, a, xstats) && match xstats {
                Ok(xstats) => r == Ok::<(PortStats, Vec<XStat>), NetToolError>(
                    (stats->Ok_0, xstats),
                ),
                Err(e) => r == Err::<(PortStats, Vec<XStat>), NetToolError>(e),
            };
        assert(native::described(middle, to, b, xstats));
    }
}

/// Sends the packets of a request.
///
/// # Errors
///
/// Fails when the request is not valid, when the runtime fails and when nothing is accepted.
pub fn run_native_tx<D: NativeDriver>(
    runtime: &mut Runtime<D>,
    request: &NativeDpdkExecutionRequest,
) -> (r: Result<NativeDpdkExecutionResult, NetToolError>)
    ensures
        sent(old(runtime).log(), final(runtime).log(), *request, r),
{
    match request.validate() {
        Ok(_) => {},
        Err(e) => {
            return Err(e);
        },
    }
    let address = request.pci_address.as_str();
    let mut session = match Session::open(
        runtime,
        Direction::Transmit,
        address,
        &request.queue_plan,
    ) {
        Ok(session) => session,
        Err(e) => {
            return Err(e);
        },
    };
    let ghost fresh = session;
    let ghost open = runtime.log();
    let r = send_in(runtime, &mut session, request);
    session.close(runtime);
    proof {
        assert(sent_and_closed(open, runtime.log(), fresh, *request, r));
    }
    r
}

/// Sends the packets of a request. A build that does not declare the shim refuses, and calls
/// nothing.
///
/// # Errors
///
/// Fails when the build does not declare the shim, when the request is not valid, when the
/// runtime fails and when nothing is accepted.
pub fn execute_native_tx<D: NativeDriver>(
    features: DpdkFeatures,
    runtime: &mut Runtime<D>,
    request: &NativeDpdkExecutionRequest,
) -> (r: Result<NativeDpdkExecutionResult, NetToolError>)
    ensures
        if features.ffi_api {
            sent(old(runtime).log(), final(runtime).log(), *request, r)
        } else {
            &&& r matches Err(e) && e.is(
                ErrorCode::BackendNotBuilt,
                executor::unavailable_text(features),
                false,
            )
            &&& *final(runtime) == *old(runtime)
        },
{
    if !features.ffi_api {
        return Err(native_executor_unavailable(features));
    }
    run_native_tx(runtime, request)
}

// ----------------------------------------------------------------------------------- receiving

/// The packets that bursts received, all together.
pub open spec fn sum_of(replies: Seq<BurstReply>) -> int
    decreases replies.len(),
{
    if replies.len() == 0 {
        0
    } else {
        executor::capped_sum(sum_of(replies.drop_last()), replies.last().received as int)
    }
}

/// The calls that receive bursts one after the other, the clock read before each one.
pub open spec fn polls_of(
    queue: RxQueue,
    times: Seq<Duration>,
    replies: Seq<BurstReply>,
) -> Seq<RuntimeStep>
    decreases replies.len(),
{
    if replies.len() == 0 {
        Seq::empty()
    } else {
        let reply = replies.last();
        polls_of(queue, times.drop_last(), replies.drop_last()).push(
            RuntimeStep::Elapsed(times.last()),
        ).push(
            RuntimeStep::Receive(queue.port_id(), queue.queue_id(), queue.capacity(), reply),
        ) + native::hands_of(queue.queue_id(), reply, reply.received as int)
    }
}

/// Whether a burst is not larger than what was asked for and makes sense.
pub open spec fn burst_good(queue: RxQueue, reply: BurstReply) -> bool {
    reply.received <= queue.capacity() && native::valid_below(reply, reply.received as int)
}

/// Whether packets were received as they should be: bursts one after the other, each while
/// there was time left. It ends when the time is over, when a burst fails, or when no more
/// bursts can be counted.
pub open spec fn received_by(
    from: Seq<RuntimeStep>,
    to: Seq<RuntimeStep>,
    queue: RxQueue,
    duration: Duration,
    r: Result<u64, NetToolError>,
    times: Seq<Duration>,
    replies: Seq<BurstReply>,
) -> bool {
    let behind = from + polls_of(queue, times, replies);
    &&& times.len() == replies.len()
    &&& forall|i: int| 0 <= i < times.len() ==> (#[trigger] times[i]).below(duration)
    &&& forall|i: int| 0 <= i < replies.len() ==> burst_good(queue, #[trigger] replies[i])
    &&& match r {
        Ok(n) => n == sum_of(replies) && (time_over(behind, to, duration) || replies.len()
            == u64::MAX && to == behind),
        Err(e) => burst_failed(behind, to, queue, duration, e),
    }
}

/// Whether the clock was read and said that the time is over.
pub open spec fn time_over(
    from: Seq<RuntimeStep>,
    to: Seq<RuntimeStep>,
    duration: Duration,
) -> bool {
    exists|time: Duration|
        to == #[trigger] from.push(RuntimeStep::Elapsed(time)) && !time.below(duration)
}

/// Whether the clock was read and said that there is time left, and a burst failed then.
pub open spec fn burst_failed(
    from: Seq<RuntimeStep>,
    to: Seq<RuntimeStep>,
    queue: RxQueue,
    duration: Duration,
    e: NetToolError,
) -> bool {
    exists|time: Duration|
        time.below(duration) && native::burst_received(
            #[trigger] from.push(RuntimeStep::Elapsed(time)),
            to,
            queue,
            Err(e),
        )
}

/// How packets are received for a time.
pub open spec fn all_received(
    from: Seq<RuntimeStep>,
    to: Seq<RuntimeStep>,
    queue: RxQueue,
    duration: Duration,
    r: Result<u64, NetToolError>,
) -> bool {
    exists|times: Seq<Duration>, replies: Seq<BurstReply>| #[trigger]
        received_by(from, to, queue, duration, r, times, replies)
}

/// Receives bursts until the time is over, and returns how many packets came.
///
/// # Errors
///
/// Fails with what receiving a burst fails with.
pub fn receive<D: NativeDriver, T: Clock>(
    runtime: &mut Runtime<D>,
    queue: &RxQueue,
    duration: Duration,
    timer: &mut Timer<T>,
) -> (r: Result<u64, NetToolError>)
    ensures
        all_received(old(runtime).log(), final(runtime).log(), *queue, duration, r),
{
    let ghost from = runtime.log();
    let ghost mut times: Seq<Duration> = Seq::empty();
    let ghost mut replies: Seq<BurstReply> = Seq::empty();
    let mut polls: u64 = 0;
    let mut total: u64 = 0;
    proof {
        assert(runtime.log() =~= from + polls_of(*queue, times, replies));
    }
    while polls < u64::MAX
        invariant
            from == old(runtime).log(),
            polls == replies.len(),
            times.len() == replies.len(),
            total == sum_of(replies),
            runtime.log() == from + polls_of(*queue, times, replies),
            forall|i: int| 0 <= i < times.len() ==> (#[trigger] times[i]).below(duration),
            forall|i: int| 0 <= i < replies.len() ==> burst_good(*queue, #[trigger] replies[i]),
        decreases u64::MAX - polls,
    {
        let ghost behind = runtime.log();
        let time = runtime.elapsed(timer);
        let ghost asked = runtime.log();
        if !time.is_below(&duration) {
            proof {
                assert(time_over(behind, runtime.log(), duration));
                let r = Ok::<u64, NetToolError>(total);
                assert(received_by(from, runtime.log(), *queue, duration, r, times, replies));
            }
            return Ok(total);
        }
        let mut taker = Taker::new(Discard);
        let count: usize = match queue.receive_burst(runtime, &mut taker) {
            Ok(n) => n,
            Err(e) => {
                proof {
                    assert(burst_failed(behind, runtime.log(), *queue, duration, e));
                    let r = Err::<u64, NetToolError>(e);
                    assert(received_by(from, runtime.log(), *queue, duration, r, times, replies));
                }
                return Err(e);
            },
        };
        proof {
            let done = Ok::<usize, NetToolError>(count);
            let reply = choose|reply: BurstReply|
                {
                    let after = #[trigger] asked.push(
                        RuntimeStep::Receive(
                            queue.port_id(),
                            queue.queue_id(),
                            queue.capacity(),
                            reply,
                        ),
                    );
                    if reply.received > queue.capacity() {
                        runtime.log() == after && native::refused(
                            done,
                            "DPDK RX burst exceeded configured capacity"@,
                        )
                    } else {
                        native::taken(after, runtime.log(), queue.queue_id(), reply, done)
                    }
                };
            assert(times.push(time).drop_last() =~= times);
            assert(replies.push(reply).drop_last() =~= replies);
            times = times.push(time);
            replies = replies.push(reply);
            assert(burst_good(*queue, reply));
            assert(runtime.log() =~= from + polls_of(*queue, times, replies));
        }
        total = count_received(total, count);
        polls += 1;
    }
    proof {
        let r = Ok::<u64, NetToolError>(total);
        assert(received_by(from, runtime.log(), *queue, duration, r, times, replies));
    }
    Ok(total)
}

/// Whether a queue is the first one of a port, with bursts of 64 packets.
pub open spec fn is_first_rx(queue: RxQueue, session: Session) -> bool {
    &&& queue.port_id() == session.port_id()
    &&& queue.queue_id() == 0
    &&& queue.capacity() == 64
}

/// How packets are received in a session once the port was started.
pub open spec fn received_in(
    from: Seq<RuntimeStep>,
    to: Seq<RuntimeStep>,
    session: Session,
    port: PortState,
    duration: Duration,
    r: Result<NativeDpdkReceiveResult, NetToolError>,
) -> bool {
    exists|middle: Seq<RuntimeStep>, queue: RxQueue, total: Result<u64, NetToolError>| #[trigger]
        all_received(from, middle, queue, duration, total) && is_first_rx(queue, session)
            && match total {
            Ok(received_packets) => exists|
                readings: Result<(PortStats, Vec<XStat>), NetToolError>,
            | #[trigger]
                read_out(middle, to, port, readings) && match readings {
                    Ok((hardware, xstats)) => r == Ok::<NativeDpdkReceiveResult, NetToolError>(
                        NativeDpdkReceiveResult { received_packets, hardware, xstats },
                    ),
                    Err(e) => r == Err::<NativeDpdkReceiveResult, NetToolError>(e),
                },
            Err(e) => to == middle && r == Err::<NativeDpdkReceiveResult, NetToolError>(e),
        }
}

/// How packets are received in a session.
pub open spec fn session_received(
    from: Seq<RuntimeStep>,
    to: Seq<RuntimeStep>,
    session: Session,
    duration: Duration,
    r: Result<NativeDpdkReceiveResult, NetToolError>,
) -> bool {
    exists|middle: Seq<RuntimeStep>, port: PortState, started: Result<(), NetToolError>|
        #[trigger] native::port_started(
            from,
            middle,
            session.port().state(),
            port,
            started,
        ) && match started {
            Ok(_) => received_in(middle, to, session, port, duration, r),
            Err(e) => to == middle && r == Err::<NativeDpdkReceiveResult, NetToolError>(e),
        }
}

/// How packets are received in a session that was opened. Whatever comes of it, the session is
/// closed behind that.
pub open spec fn received_and_closed(
    from: Seq<RuntimeStep>,
    to: Seq<RuntimeStep>,
    session: Session,
    duration: Duration,
    r: Result<NativeDpdkReceiveResult, NetToolError>,
) -> bool {
    exists|middle: Seq<RuntimeStep>|
        to == session_closed(middle, session) && #[trigger] session_received(
            from,
            middle,
            session,
            duration,
            r,
        )
}

/// How a request to receive packets is carried out.
pub open spec fn received(
    from: Seq<RuntimeStep>,
    to: Seq<RuntimeStep>,
    request: NativeDpdkReceiveRequest,
    r: Result<NativeDpdkReceiveResult, NetToolError>,
) -> bool {
    match executor::receive_fault(request) {
        Some(message) => to == from && native::refused(r, message),
        None => exists|middle: Seq<RuntimeStep>, session: Result<Session, NetToolError>|
            #[trigger] opened(
                from,
                middle,
                Direction::Receive,
                request.pci_address@,
                request.queue_plan,
                session,
            ) && match session {
                Ok(session) => received_and_closed(middle, to, session, request.duration, r),
                Err(e) => to == middle && r == Err::<NativeDpdkReceiveResult, NetToolError>(e),
            },
    }
}

fn receive_in<D: NativeDriver, T: Clock>(
    runtime: &mut Runtime<D>,
    session: &mut Session,
    duration: Duration,
    timer: &mut Timer<T>,
) -> (r: Result<NativeDpdkReceiveResult, NetToolError>)
    requires
        is_fresh(*old(session)),
    ensures
        session_received(old(runtime).log(), final(runtime).log(), *old(session), duration, r),
        final(session).port_id() == old(session).port_id(),
        final(session).pool() == old(session).pool(),
{
    let ghost before = *session;
    let started = session.port.start(runtime);
    let ghost running = session.port.state();
    let ghost up = runtime.log();
    match started {
        Ok(_) => {},
        Err(e) => {
            return Err(e);
        },
    }
    let queue = match session.port.rx_queue(0, 64) {
        Ok(queue) => queue,
        Err(e) => {
            return Err(e);
        },
    };
    let total = receive(runtime, &queue, duration, timer);
    let ghost counted = total;
    let ghost first = queue;
    let ghost moved = runtime.log();
    session.port.release_rx(queue);
    proof {
        assert(all_received(up, moved, first, duration, counted));
        assert(is_first_rx(first, before));
    }
    let received_packets: u64 = match total {
        Ok(n) => n,
        Err(e) => {
            return Err(e);
        },
    };
    let readings = read_port(runtime, &session.port);
    proof {
        lemma_readings(moved, runtime.log(), session.port.state(), running, readings);
    }
    match readings {
        Ok((hardware, xstats)) => Ok(
            NativeDpdkReceiveResult { received_packets, hardware, xstats },
        ),
        Err(e) => Err(e),
    }
}

/// Receives packets for the time of a request. The clock says how much time has passed.
///
/// # Errors
///
/// Fails when the request is not valid and when the runtime fails.
pub fn run_native_rx<D: NativeDriver, T: Clock>(
    runtime: &mut Runtime<D>,
    request: &NativeDpdkReceiveRequest,
    timer: &mut Timer<T>,
) -> (r: Result<NativeDpdkReceiveResult, NetToolError>)
    ensures
        received(old(runtime).log(), final(runtime).log(), *request, r),
{
    match request.validate() {
        Ok(_) => {},
        Err(e) => {
            return Err(e);
        },
    }
    let address = request.pci_address.as_str();
    let mut session = match Session::open(
        runtime,
        Direction::Receive,
        address,
        &request.queue_plan,
    ) {
        Ok(session) => session,
        Err(e) => {
            return Err(e);
        },
    };
    let ghost fresh = session;
    let ghost open = runtime.log();
    let r = receive_in(runtime, &mut session, request.duration, timer);
    session.close(runtime);
    proof {
        assert(received_and_closed(open, runtime.log(), fresh, request.duration, r));
    }
    r
}

/// Receives packets for the time of a request. A build that does not declare the shim refuses,
/// and calls nothing.
///
/// # Errors
///
/// Fails when the build does not declare the shim, when the request is not valid and when the
/// runtime fails.
pub fn execute_native_rx<D: NativeDriver, T: Clock>(
    features: DpdkFeatures,
    runtime: &mut Runtime<D>,
    request: &NativeDpdkReceiveRequest,
    timer: &mut Timer<T>,
) -> (r: Result<NativeDpdkReceiveResult, NetToolError>)
    ensures
        if features.ffi_api {
            received(old(runtime).log(), final(runtime).log(), *request, r)
        } else {
            &&& r matches Err(e) && e.is(
                ErrorCode::BackendNotBuilt,
                executor::unavailable_text(features),
                false,
            )
            &&& *final(runtime) == *old(runtime)
            &&& *final(timer) == *old(timer)
        },
{
    if !features.ffi_api {
        return Err(native_executor_unavailable(features));
    }
    run_native_rx(runtime, request, timer)
}

/// Whether the runtime was given up last, but for questions after the text of an error.
pub open spec fn given_up(from: Seq<RuntimeStep>, to: Seq<RuntimeStep>) -> bool {
    exists|i: int|
        {
            &&& from.len() <= i < to.len()
            &&& #[trigger] to[i] == RuntimeStep::Release
            &&& forall|j: int| i < j < to.len() ==> is_question(#[trigger] to[j])
        }
}

/// Whether a call only asks after an error.
pub open spec fn is_question(step: RuntimeStep) -> bool {
    step is LastError || step is Describe
}

/// A session that is not opened leaves the runtime without an owner, unless it had one before.
pub proof fn law_failed_openings_leave_nothing_open(
    from: Seq<RuntimeStep>,
    to: Seq<RuntimeStep>,
    direction: Direction,
    pci_address: Seq<char>,
    plan: QueuePlan,
    r: Result<Session, NetToolError>,
)
    requires
        opened(from, to, direction, pci_address, plan, r),
        r is Err,
    ensures
        given_up(from, to) || to == from.push(RuntimeStep::Claim(false)) && native::refused(
            r,
            "DPDK EAL is already owned by this process"@,
        ),
{
    let arguments = executor::arguments_of(direction, pci_address);
    let (middle, environment) = choose|
        middle: Seq<RuntimeStep>,
        environment: Result<Environment, NetToolError>,
    | #[trigger]
        native::initialized(from, middle, arguments, environment) && match environment {
            Ok(_) => opened_in(middle, to, direction, pci_address, plan, r),
            Err(e) => to == middle && r == Err::<Session, NetToolError>(e),
        };
    match environment {
        Ok(_) => {
            assert(from.is_prefix_of(middle));
            lemma_failure_stops(middle, to, direction, pci_address, plan, r);
            assert(to.last() == RuntimeStep::Release);
            assert(to[to.len() - 1] == RuntimeStep::Release);
        },
        Err(_) => {
            if to != from.push(RuntimeStep::Claim(false)) {
                let behind = from.push(RuntimeStep::Claim(true));
                assert(native::started_by(behind, to, arguments, environment));
                if native::holds_zero(arguments) || arguments.len() > i32::MAX {
                    assert(to[behind.len() as int] == RuntimeStep::Release);
                } else {
                    assert(to[behind.len() as int + 1] == RuntimeStep::Release);
                }
            }
        },
    }
}

proof fn lemma_failure_stops(
    from: Seq<RuntimeStep>,
    to: Seq<RuntimeStep>,
    direction: Direction,
    pci_address: Seq<char>,
    plan: QueuePlan,
    r: Result<Session, NetToolError>,
)
    requires
        opened_in(from, to, direction, pci_address, plan, r),
        r is Err,
    ensures
        from.is_prefix_of(to),
        to.len() > from.len(),
        to.last() == RuntimeStep::Release,
{
}

/// Sending packets leaves the runtime without an owner, unless it had one before. A request that
/// is not valid does not reach it.
pub proof fn law_sending_leaves_nothing_open(
    from: Seq<RuntimeStep>,
    to: Seq<RuntimeStep>,
    request: NativeDpdkExecutionRequest,
    r: Result<NativeDpdkExecutionResult, NetToolError>,
)
    requires
        sent(from, to, request, r),
    ensures
        to == from || given_up(from, to) || to == from.push(RuntimeStep::Claim(false))
            && native::refused(r, "DPDK EAL is already owned by this process"@),
{
    if executor::execution_fault(request) is None {
        let (middle, session) = choose|
            middle: Seq<RuntimeStep>,
            session: Result<Session, NetToolError>,
        |
            #[trigger] opened(
                from,
                middle,
                Direction::Transmit,
                request.pci_address@,
                request.queue_plan,
                session,
            ) && match session {
                Ok(session) => sent_and_closed(middle, to, session, request, r),
                Err(e) => to == middle && r == Err::<NativeDpdkExecutionResult, NetToolError>(e),
            };
        if session is Err {
            law_failed_openings_leave_nothing_open(
                from,
                middle,
                Direction::Transmit,
                request.pci_address@,
                request.queue_plan,
                session,
            );
        } else {
            lemma_opening_grows(
                from,
                middle,
                Direction::Transmit,
                request.pci_address@,
                request.queue_plan,
                session,
            );
            lemma_sending_grows(middle, to, session->Ok_0, request, r);
        }
    }
}

proof fn lemma_opening_grows(
    from: Seq<RuntimeStep>,
    to: Seq<RuntimeStep>,
    direction: Direction,
    pci_address: Seq<char>,
    plan: QueuePlan,
    r: Result<Session, NetToolError>,
)
    requires
        opened(from, to, direction, pci_address, plan, r),
    ensures
        to.len() >= from.len(),
{
}

proof fn lemma_sending_grows(
    from: Seq<RuntimeStep>,
    to: Seq<RuntimeStep>,
    session: Session,
    request: NativeDpdkExecutionRequest,
    r: Result<NativeDpdkExecutionResult, NetToolError>,
)
    requires
        sent_and_closed(from, to, session, request, r),
    ensures
        to.len() > from.len(),
        to[to.len() - 1] == RuntimeStep::Release,
{
}

/// Receiving packets leaves the runtime without an owner, unless it had one before. A request
/// that is not valid does not reach it.
pub proof fn law_receiving_leaves_nothing_open(
    from: Seq<RuntimeStep>,
    to: Seq<RuntimeStep>,
    request: NativeDpdkReceiveRequest,
    r: Result<NativeDpdkReceiveResult, NetToolError>,
)
    requires
        received(from, to, request, r),
    ensures
        to == from || given_up(from, to) || to == from.push(RuntimeStep::Claim(false))
            && native::refused(r, "DPDK EAL is already owned by this process"@),
{
    if executor::receive_fault(request) is None {
        let (middle, session) = choose|
            middle: Seq<RuntimeStep>,
            session: Result<Session, NetToolError>,
        |
            #[trigger] opened(
                from,
                middle,
                Direction::Receive,
                request.pci_address@,
                request.queue_plan,
                session,
            ) && match session {
                Ok(session) => received_and_closed(middle, to, session, request.duration, r),
                Err(e) => to == middle && r == Err::<NativeDpdkReceiveResult, NetToolError>(e),
            };
        if session is Err {
            law_failed_openings_leave_nothing_open(
                from,
                middle,
                Direction::Receive,
                request.pci_address@,
                request.queue_plan,
                session,
            );
        } else {
            lemma_opening_grows(
                from,
                middle,
                Direction::Receive,
                request.pci_address@,
                request.queue_plan,
                session,
            );
            lemma_receiving_grows(middle, to, session->Ok_0, request.duration, r);
        }
    }
}

proof fn lemma_receiving_grows(
    from: Seq<RuntimeStep>,
    to: Seq<RuntimeStep>,
    session: Session,
    duration: Duration,
    r: Result<NativeDpdkReceiveResult, NetToolError>,
)
    requires
        received_and_closed(from, to, session, duration, r),
    ensures
        to.len() > from.len(),
        to[to.len() - 1] == RuntimeStep::Release,
{
}

/// Whatever was sent was accepted: where sending succeeds, at least as many packets were
/// accepted as were asked for.
pub proof fn law_sent_means_accepted(
    from: Seq<RuntimeStep>,
    to: Seq<RuntimeStep>,
    request: NativeDpdkExecutionRequest,
    r: Result<NativeDpdkExecutionResult, NetToolError>,
)
    requires
        sent(from, to, request, r),
    ensures
        r matches Ok(result) ==> result.transmitted_packets >= request.packets,
{
}

} // verus!
