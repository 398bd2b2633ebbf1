//! Requests to the DPDK executor and the steps that it takes.

use crate::dpdk::environment;
use crate::dpdk::environment::valid_pci_address;
use crate::dpdk::planning;
use crate::dpdk::planning::{required_mbufs, MbufPoolSizing, QueuePlan};
use crate::dpdk_safe;
use crate::dpdk_safe::{
    backend_not_built, validate_mempool, DpdkFeatures, MempoolConfiguration, PortConfiguration,
    PortStats, XStat,
};
use crate::error::{ErrorCode, NetToolError};
use crate::text;
use crate::text::{chars_of, decimal_text};
use vstd::prelude::*;

verus! {

/// A span of time.
#[derive(Clone, Copy, Debug, PartialEq, Eq, Structural)]
pub struct Duration {
    /// Whole seconds.
    pub seconds: u64,
    /// The rest, in nanoseconds.
    pub nanoseconds: u32,
}

impl Duration {
    /// No time.
    pub fn zero() -> (r: Self)
        ensures
            r == (Duration { seconds: 0, nanoseconds: 0 }),
    {
        Duration { seconds: 0, nanoseconds: 0 }
    }

    /// Whether it is shorter than another.
    pub open spec fn below(self, other: Self) -> bool {
        self.seconds < other.seconds || (self.seconds == other.seconds && self.nanoseconds
            < other.nanoseconds)
    }

    /// Whether it is shorter than another.
    pub fn is_below(&self, other: &Self) -> (r: bool)
        ensures
            r == self.below(*other),
    {
        self.seconds < other.seconds || (self.seconds == other.seconds && self.nanoseconds
            < other.nanoseconds)
    }

    /// Whether it is no time.
    pub fn is_zero(&self) -> (r: bool)
        ensures
            r == (self.seconds == 0 && self.nanoseconds == 0),
    {
        self.seconds == 0 && self.nanoseconds == 0
    }
}

/// A request to send packets.
#[derive(Clone, Debug, PartialEq, Eq)]
pub struct NativeDpdkExecutionRequest {
    /// The PCI address of the interface.
    pub pci_address: String,
    /// The bytes of a frame on the wire.
    pub frame_size: u16,
    /// The number of packets.
    pub packets: u64,
    /// The queues and their owners.
    pub queue_plan: QueuePlan,
    /// The frame.
    pub frame_template: Vec<u8>,
}

/// What sending packets came to.
#[derive(Clone, Debug, PartialEq, Eq)]
pub struct NativeDpdkExecutionResult {
    /// The packets that were accepted.
    pub transmitted_packets: u64,
    /// The counters of the port.
    pub hardware: PortStats,
    /// The statistics of the driver.
    pub xstats: Vec<XStat>,
}

/// A request to receive packets.
#[derive(Clone, Debug, PartialEq, Eq)]
pub struct NativeDpdkReceiveRequest {
    /// The PCI address of the interface.
    pub pci_address: String,
    /// For how long.
    pub duration: Duration,
    /// The queues and their owners.
    pub queue_plan: QueuePlan,
}

/// What receiving packets came to.
#[derive(Clone, Debug, PartialEq, Eq)]
pub struct NativeDpdkReceiveResult {
    /// The packets that were received.
    pub received_packets: u64,
    /// The counters of the port.
    pub hardware: PortStats,
    /// The statistics of the driver.
    pub xstats: Vec<XStat>,
}

/// Whether a text is a PCI address with a function number of 0 to 7.
pub open spec fn bdf_form(s: Seq<char>) -> bool {
    &&& environment::pci_form(s)
    &&& '0' <= s[11] <= '7'
}

fn valid_pci_bdf(value: &str) -> (r: bool)
    ensures
        r == bdf_form(value@),
{
    if !valid_pci_address(value) {
        return false;
    }
    let v = chars_of(value);
    v[11] >= '0' && v[11] <= '7'
}

/// Why packets cannot be sent as requested, if they cannot.
pub open spec fn execution_fault(q: NativeDpdkExecutionRequest) -> Option<Seq<char>> {
    if !bdf_form(q.pci_address@) || q.frame_size < 64 || q.packets == 0 || q.frame_template@.len()
        != q.frame_size {
        Some("native DPDK executor request is invalid"@)
    } else {
        planning::plan_fault(q.queue_plan)
    }
}

impl NativeDpdkExecutionRequest {
    /// Checks the request.
    ///
    /// # Errors
    ///
    /// Fails when the address is not one, the frame is under 64 bytes or has another length
    /// than the template, there is no packet or the queue plan is not valid.
    pub fn validate(&self) -> (r: Result<(), NetToolError>)
        ensures
            match r {
                Ok(_) => execution_fault(*self) is None,
                Err(e) => execution_fault(*self) is Some && e.is(
                    ErrorCode::InvalidArgument,
                    execution_fault(*self)->0,
                    false,
                ),
            },
    {
        if !valid_pci_bdf(self.pci_address.as_str()) || self.frame_size < 64 || self.packets == 0
            || self.frame_template.len() != self.frame_size as usize {
            return Err(invalid("native DPDK executor request is invalid"));
        }
        self.queue_plan.validate()
    }
}

/// Why packets cannot be received as requested, if they cannot.
pub open spec fn receive_fault(q: NativeDpdkReceiveRequest) -> Option<Seq<char>> {
    if !bdf_form(q.pci_address@) || (q.duration.seconds == 0 && q.duration.nanoseconds == 0) {
        Some("native DPDK receive request is invalid"@)
    } else {
        planning::plan_fault(q.queue_plan)
    }
}

impl NativeDpdkReceiveRequest {
    /// Checks the request.
    ///
    /// # Errors
    ///
    /// Fails when the address is not one, there is no time or the queue plan is not valid.
    pub fn validate(&self) -> (r: Result<(), NetToolError>)
        ensures
            match r {
                Ok(_) => receive_fault(*self) is None,
                Err(e) => receive_fault(*self) is Some && e.is(
                    ErrorCode::InvalidArgument,
                    receive_fault(*self)->0,
                    false,
                ),
            },
    {
        if !valid_pci_bdf(self.pci_address.as_str()) || self.duration.is_zero() {
            return Err(invalid("native DPDK receive request is invalid"));
        }
        self.queue_plan.validate()
    }
}

/// What an executor without the DPDK runtime says.
pub open spec fn unavailable_text(features: DpdkFeatures) -> Seq<char> {
    if features.ffi_api {
        "DPDK executor requires a build with the native-dpdk feature and libdpdk SDK"@
    } else {
        "DPDK support requires a build with the native-dpdk feature and libdpdk SDK"@
    }
}

/// The error of an executor without the DPDK runtime.
#[must_use]
pub fn native_executor_unavailable(features: DpdkFeatures) -> (r: NetToolError)
    ensures
        r.is(ErrorCode::BackendNotBuilt, unavailable_text(features), false),
{
    if features.ffi_api {
        return NetToolError::new(
            ErrorCode::BackendNotBuilt,
            "DPDK executor requires a build with the native-dpdk feature and libdpdk SDK",
            false,
        );
    }
    backend_not_built()
}

// ------------------------------------------------------------------ setting up the runtime

/// The direction of packets.
#[derive(Clone, Copy, Debug, PartialEq, Eq, Structural)]
pub enum Direction {
    /// Sending.
    Transmit,
    /// Receiving.
    Receive,
}

impl Direction {
    /// The name that the runtime is started under.
    pub open spec fn program(self) -> Seq<char> {
        match self {
            Direction::Transmit => "nettool-backend-dpdk"@,
            Direction::Receive => "nettool-backend-dpdk-rx"@,
        }
    }

    /// What the names of pools begin with.
    pub open spec fn pool_prefix(self) -> Seq<char> {
        match self {
            Direction::Transmit => "nettool_speed_tx_"@,
            Direction::Receive => "nettool_speed_rx_"@,
        }
    }
}

/// The arguments that start the runtime on one interface, without telemetry.
pub open spec fn arguments_of(direction: Direction, pci_address: Seq<char>) -> Seq<Seq<char>> {
    seq![direction.program(), "--no-telemetry"@, "-a"@, pci_address]
}

/// Returns the arguments that start the runtime on one interface.
pub fn runtime_arguments(direction: Direction, pci_address: &str) -> (r: Vec<String>)
    ensures
        text::texts(r@) == arguments_of(direction, pci_address@),
{
    let program = match direction {
        Direction::Transmit => "nettool-backend-dpdk",
        Direction::Receive => "nettool-backend-dpdk-rx",
    };
    let mut out: Vec<String> = Vec::new();
    out.push(program.to_owned());
    out.push("--no-telemetry".to_owned());
    out.push("-a".to_owned());
    out.push(pci_address.to_owned());
    proof {
        assert(text::texts(out@) =~= arguments_of(direction, pci_address@));
    }
    out
}

/// The size of the buffer pool for a queue plan.
pub open spec fn sizing(plan: QueuePlan) -> MbufPoolSizing {
    MbufPoolSizing {
        rx_queues: plan.rx_queues as u32,
        rx_descriptors_per_queue: 1024,
        tx_queues: plan.tx_queues as u32,
        tx_descriptors_per_queue: 1024,
        burst_size: 64,
        pipeline_depth: 1,
        capture_buffers: 0,
        safety_margin: 1024,
    }
}

/// Why no pool can be made for a queue plan, if none can.
pub open spec fn setup_fault(plan: QueuePlan) -> Option<Seq<char>> {
    if plan.rx_queues == 0 || plan.tx_queues == 0 {
        Some("mbuf sizing inputs must be non-zero"@)
    } else if plan.numa_node < 0 {
        Some("invalid DPDK mempool configuration"@)
    } else {
        None
    }
}

/// How the buffer pool and the port for a queue plan are planned.
pub open spec fn setup_planned(
    plan: QueuePlan,
    direction: Direction,
    port_id: u16,
    r: Result<(MempoolConfiguration, PortConfiguration), NetToolError>,
) -> bool {
    match r {
        Ok((pool, port)) => {
            &&& setup_fault(plan) is None
            &&& pool.name@ == direction.pool_prefix() + text::decimal(port_id as nat)
            &&& pool.count == planning::pool_size(sizing(plan))
            &&& pool.cache_size == 256
            &&& pool.data_room_size == 9600
            &&& pool.socket_id == plan.numa_node
            &&& dpdk_safe::mempool_valid(pool)
            &&& port.port_id == port_id
            &&& port.rx_queues == plan.rx_queues
            &&& port.tx_queues == plan.tx_queues
            &&& port.rx_descriptors == 1024
            &&& port.tx_descriptors == 1024
            &&& port.socket_id == plan.numa_node
            &&& dpdk_safe::port_valid(port)
        },
        Err(e) => setup_fault(plan) is Some && e.is(
            ErrorCode::InvalidArgument,
            setup_fault(plan)->0,
            false,
        ),
    }
}

/// Plans the buffer pool and the port for a queue plan.
///
/// # Errors
///
/// Fails when there are no queues or when the NUMA node is negative.
pub fn plan_setup(plan: &QueuePlan, direction: Direction, port_id: u16) -> (r: Result<
    (MempoolConfiguration, PortConfiguration),
    NetToolError,
>)
    ensures
        setup_planned(*plan, direction, port_id, r),
{
    let needs = MbufPoolSizing {
        rx_queues: plan.rx_queues as u32,
        rx_descriptors_per_queue: 1024,
        tx_queues: plan.tx_queues as u32,
        tx_descriptors_per_queue: 1024,
        burst_size: 64,
        pipeline_depth: 1,
        capture_buffers: 0,
        safety_margin: 1024,
    };
    let mbufs: u64 = match required_mbufs(needs) {
        Ok(n) => n,
        Err(e) => {
            return Err(e);
        },
    };
    if mbufs > 0xffff_ffff {
        return Err(invalid("DPDK mbuf pool size exceeds u32 capacity"));
    }
    let prefix = match direction {
        Direction::Transmit => "nettool_speed_tx_",
        Direction::Receive => "nettool_speed_rx_",
    };
    let mut name = prefix.to_owned();
    name.append(decimal_text(port_id as u64).as_str());
    proof {
        reveal_strlit("nettool_speed_tx_");
        reveal_strlit("nettool_speed_rx_");
    }
    let pool = MempoolConfiguration {
        name,
        count: mbufs as u32,
        cache_size: 256,
        data_room_size: 9600,
        socket_id: plan.numa_node,
    };
    match validate_mempool(&pool) {
        Ok(_) => {},
        Err(e) => {
            return Err(e);
        },
    }
    if plan.numa_node < 0 {
        return Err(invalid("DPDK NUMA socket ID must be non-negative"));
    }
    let port = PortConfiguration {
        port_id,
        rx_queues: plan.rx_queues,
        tx_queues: plan.tx_queues,
        rx_descriptors: 1024,
        tx_descriptors: 1024,
        socket_id: plan.numa_node as u32,
    };
    Ok((pool, port))
}

// --------------------------------------------------------------------------- moving packets

/// The size of the next burst: what is left, at most 64.
pub open spec fn burst_size(packets: u64, transmitted: u64) -> int {
    let left = packets - transmitted;
    if left < 64 {
        left
    } else {
        64
    }
}

/// Returns the size of the next burst.
pub fn next_burst(packets: u64, transmitted: u64) -> (r: u16)
    requires
        transmitted <= packets,
    ensures
        r == burst_size(packets, transmitted),
{
    let left: u64 = packets - transmitted;
    if left < 64 {
        left as u16
    } else {
        64
    }
}

/// A sum that stays at the largest number where it would exceed it.
pub open spec fn capped_sum(a: int, b: int) -> int {
    if a + b > u64::MAX {
        u64::MAX as int
    } else {
        a + b
    }
}

/// Counts the packets that a burst got accepted.
///
/// # Errors
///
/// Fails when none was accepted; trying again may help.
pub fn count_accepted(transmitted: u64, accepted: u16) -> (r: Result<u64, NetToolError>)
    ensures
        match r {
            Ok(n) => accepted != 0 && n == capped_sum(transmitted as int, accepted as int),
            Err(e) => accepted == 0 && e.is(
                ErrorCode::PreflightFailed,
                "DPDK TX made no forward progress"@,
                true,
            ),
        },
{
    if accepted == 0 {
        return Err(
            NetToolError::new(
                ErrorCode::PreflightFailed,
                "DPDK TX made no forward progress",
                true,
            ),
        );
    }
    Ok(transmitted.saturating_add(accepted as u64))
}

/// Counts the packets that a burst received.
pub fn count_received(total: u64, received: usize) -> (r: u64)
    ensures
        r == capped_sum(total as int, received as int),
{
    total.saturating_add(received as u64)
}

/// The packets that bursts got accepted, all together.
pub open spec fn total_of(accepted: Seq<u16>) -> int
    decreases accepted.len(),
{
    if accepted.len() == 0 {
        0
    } else {
        capped_sum(total_of(accepted.drop_last()), accepted.last() as int)
    }
}

fn invalid(message: &str) -> (r: NetToolError)
    ensures
        r.is(ErrorCode::InvalidArgument, message@, false),
{
    NetToolError::new(ErrorCode::InvalidArgument, message, false)
}

} // verus!
