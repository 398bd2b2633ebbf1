//! The rules of DPDK ports, queues and pools that hold whatever drives them.

use crate::error::{ErrorCode, NetToolError};
use crate::protobuf::text_from_utf8;
use crate::text;
use crate::text::signed_text;
use std::collections::BTreeSet;
use vstd::prelude::*;
use vstd::utf8::*;

pub mod limit_laws;
pub mod native;
pub mod runtime;
pub mod runtime_laws;

verus! {

/// The largest burst.
pub const MAX_BURST: usize = 256;

/// The bytes that the name of a statistic takes up.
pub const XSTAT_NAME_WIDTH: usize = 128;

/// The features that a program is built with.
#[derive(Clone, Copy, Debug, PartialEq, Eq, Structural)]
pub struct DpdkFeatures {
    /// Whether the functions of the C shim are declared.
    pub ffi_api: bool,
    /// Whether the C shim and the DPDK runtime are linked.
    pub native_dpdk: bool,
}

impl Default for DpdkFeatures {
    /// A build without any feature.
    fn default() -> (r: Self)
        ensures
            !r.ffi_api,
            !r.native_dpdk,
    {
        DpdkFeatures { ffi_api: false, native_dpdk: false }
    }
}

/// Whether a build is linked with the DPDK runtime.
#[must_use]
pub fn is_native_dpdk_built(features: DpdkFeatures) -> (r: bool)
    ensures
        r == features.native_dpdk,
{
    features.native_dpdk
}

/// The error of a build without the DPDK runtime.
#[must_use]
pub fn backend_not_built() -> (r: NetToolError)
    ensures
        r.is(
            ErrorCode::BackendNotBuilt,
            "DPDK support requires a build with the native-dpdk feature and libdpdk SDK"@,
            false,
        ),
{
    NetToolError::new(
        ErrorCode::BackendNotBuilt,
        "DPDK support requires a build with the native-dpdk feature and libdpdk SDK",
        false,
    )
}

/// Which queues of a port have an owner.
#[derive(Debug)]
pub struct QueueOwnership {
    owned: BTreeSet<u16>,
}

impl View for QueueOwnership {
    type V = Set<u16>;

    closed spec fn view(&self) -> Set<u16> {
        self.owned@
    }
}

impl Default for QueueOwnership {
    fn default() -> (r: Self)
        ensures
            r@ == Set::<u16>::empty(),
    {
        QueueOwnership { owned: BTreeSet::new() }
    }
}

impl QueueOwnership {
    /// Takes a queue, unless it has an owner.
    pub fn claim(&mut self, queue_id: u16) -> (r: bool)
        ensures
            r == !old(self)@.contains(queue_id),
            final(self)@ == old(self)@.insert(queue_id),
    {
        broadcast use vstd::laws_cmp::group_laws_cmp;

        self.owned.insert(queue_id)
    }

    /// Gives a queue back.
    pub fn release(&mut self, queue_id: u16)
        ensures
            final(self)@ == old(self)@.remove(queue_id),
    {
        broadcast use vstd::laws_cmp::group_laws_cmp;

        let _ = self.owned.remove(&queue_id);
    }
}

/// A queue belongs to one owner until it is given back: after a successful claim another one
/// fails, and after the release the next one succeeds.
pub proof fn law_ownership_is_exclusive(before: Set<u16>, queue_id: u16)
    requires
        !before.contains(queue_id),
    ensures
        before.insert(queue_id).contains(queue_id),
        !before.insert(queue_id).remove(queue_id).contains(queue_id),
        before.insert(queue_id).remove(queue_id) == before,
{
    assert(before.insert(queue_id).remove(queue_id) =~= before);
}

/// What is known of a received packet.
#[derive(Clone, Copy, Debug, PartialEq, Eq, Structural)]
pub struct PacketMetadata {
    /// The length of the packet, which may exceed the first segment.
    pub packet_length: u32,
    /// The length of the bytes that are at hand.
    pub captured_length: u32,
    /// The receive queue.
    pub queue_id: u16,
    /// The RSS hash.
    pub rss_hash: u32,
    /// The offload flags.
    pub offload_flags: u64,
}

/// A received packet, for as long as its memory is borrowed.
#[derive(Clone, Copy, Debug)]
pub struct PacketView<'a> {
    /// The bytes of the first segment.
    pub bytes: &'a [u8],
    /// What is known of it.
    pub metadata: PacketMetadata,
}

/// How a buffer pool is made.
#[derive(Clone, Debug, PartialEq, Eq)]
pub struct MempoolConfiguration {
    /// The unique name.
    pub name: String,
    /// The number of buffers.
    pub count: u32,
    /// The buffers that each core caches; may be zero.
    pub cache_size: u32,
    /// The bytes of each buffer.
    pub data_room_size: u16,
    /// The NUMA node.
    pub socket_id: i32,
}

/// How a port is set up.
#[derive(Clone, Copy, Debug, PartialEq, Eq, Structural)]
pub struct PortConfiguration {
    /// The port.
    pub port_id: u16,
    /// The receive queues.
    pub rx_queues: u16,
    /// The transmit queues.
    pub tx_queues: u16,
    /// The descriptors of each receive queue.
    pub rx_descriptors: u16,
    /// The descriptors of each transmit queue.
    pub tx_descriptors: u16,
    /// The NUMA node.
    pub socket_id: u32,
}

/// The counters of a port.
#[derive(Clone, Copy, Debug, PartialEq, Eq, Structural)]
pub struct PortStats {
    /// Received packets.
    pub received_packets: u64,
    /// Transmitted packets.
    pub transmitted_packets: u64,
    /// Received bytes.
    pub received_bytes: u64,
    /// Transmitted bytes.
    pub transmitted_bytes: u64,
    /// Packets that the hardware missed.
    pub missed_packets: u64,
    /// Receive errors.
    pub receive_errors: u64,
    /// Transmit errors.
    pub transmit_errors: u64,
    /// Packets without a buffer.
    pub rx_mbuf_failures: u64,
}

impl Default for PortStats {
    fn default() -> (r: Self)
        ensures
            r == (PortStats {
                received_packets: 0,
                transmitted_packets: 0,
                received_bytes: 0,
                transmitted_bytes: 0,
                missed_packets: 0,
                receive_errors: 0,
                transmit_errors: 0,
                rx_mbuf_failures: 0,
            }),
    {
        PortStats {
            received_packets: 0,
            transmitted_packets: 0,
            received_bytes: 0,
            transmitted_bytes: 0,
            missed_packets: 0,
            receive_errors: 0,
            transmit_errors: 0,
            rx_mbuf_failures: 0,
        }
    }
}

/// A statistic of a driver.
#[derive(Clone, Debug, PartialEq, Eq)]
pub struct XStat {
    /// The name, such as `rx_q0_packets`.
    pub name: String,
    /// The value.
    pub value: u64,
}

// ------------------------------------------------------------------------------ setting up

/// Whether a pool can be made as configured.
pub open spec fn mempool_valid(c: MempoolConfiguration) -> bool {
    &&& c.name@.len() > 0
    &&& c.count > 0
    &&& c.data_room_size > 0
    &&& c.cache_size < c.count
    &&& c.socket_id >= 0
}

/// Checks how a pool is made.
///
/// # Errors
///
/// Fails when it has no name, no buffers or no room, when the cache is not smaller than the
/// pool or when the node is negative.
pub fn validate_mempool(configuration: &MempoolConfiguration) -> (r: Result<(), NetToolError>)
    ensures
        match r {
            Ok(_) => mempool_valid(*configuration),
            Err(e) => !mempool_valid(*configuration) && e.is(
                ErrorCode::InvalidArgument,
                "invalid DPDK mempool configuration"@,
                false,
            ),
        },
{
    if configuration.name.as_str().is_empty() || configuration.count == 0
        || configuration.data_room_size == 0 || configuration.cache_size >= configuration.count
        || configuration.socket_id < 0 {
        return Err(error("invalid DPDK mempool configuration"));
    }
    Ok(())
}

/// Whether a port can be set up as configured.
pub open spec fn port_valid(c: PortConfiguration) -> bool {
    c.rx_queues > 0 && c.tx_queues > 0 && c.rx_descriptors > 0 && c.tx_descriptors > 0
}

/// Checks how a port is set up.
///
/// # Errors
///
/// Fails when a number of queues or descriptors is zero.
pub fn validate_port(configuration: PortConfiguration) -> (r: Result<(), NetToolError>)
    ensures
        match r {
            Ok(_) => port_valid(configuration),
            Err(e) => !port_valid(configuration) && e.is(
                ErrorCode::InvalidArgument,
                "invalid DPDK port configuration"@,
                false,
            ),
        },
{
    if configuration.rx_queues == 0 || configuration.tx_queues == 0 || configuration.rx_descriptors
        == 0 || configuration.tx_descriptors == 0 {
        return Err(error("invalid DPDK port configuration"));
    }
    Ok(())
}

/// The state of a configured port: whether it was started and which queues have owners.
#[derive(Debug)]
pub struct PortState {
    configuration: PortConfiguration,
    started: bool,
    rx: QueueOwnership,
    tx: QueueOwnership,
}

impl PortState {
    /// How the port is set up.
    pub closed spec fn configuration(self) -> PortConfiguration {
        self.configuration
    }

    /// Whether the port was started.
    pub closed spec fn started(self) -> bool {
        self.started
    }

    /// The receive queues with owners.
    pub closed spec fn rx(self) -> Set<u16> {
        self.rx@
    }

    /// The transmit queues with owners.
    pub closed spec fn tx(self) -> Set<u16> {
        self.tx@
    }

    /// Whether another state differs only in the receive queues with owners.
    pub open spec fn same_but_rx(self, other: Self) -> bool {
        self.configuration() == other.configuration() && self.started() == other.started()
            && self.tx() == other.tx()
    }

    /// Whether another state differs only in the transmit queues with owners.
    pub open spec fn same_but_tx(self, other: Self) -> bool {
        self.configuration() == other.configuration() && self.started() == other.started()
            && self.rx() == other.rx()
    }

    /// Whether this is the state of a port that was just configured.
    pub open spec fn is_new(self, configuration: PortConfiguration) -> bool {
        &&& self.configuration() == configuration
        &&& !self.started()
        &&& self.rx() == Set::<u16>::empty()
        &&& self.tx() == Set::<u16>::empty()
    }

    /// The port.
    #[must_use]
    pub fn port_id(&self) -> (r: u16)
        ensures
            r == self.configuration().port_id,
    {
        self.configuration.port_id
    }

    /// Whether the port was started.
    #[must_use]
    pub fn is_started(&self) -> (r: bool)
        ensures
            r == self.started(),
    {
        self.started
    }

    /// Takes over a port that was configured.
    ///
    /// # Errors
    ///
    /// Fails when the configuration is not valid.
    pub fn configure(configuration: PortConfiguration) -> (r: Result<Self, NetToolError>)
        ensures
            match r {
                Ok(port) => port_valid(configuration) && port.is_new(configuration),
                Err(e) => !port_valid(configuration) && e.is(
                    ErrorCode::InvalidArgument,
                    "invalid DPDK port configuration"@,
                    false,
                ),
            },
    {
        match validate_port(configuration) {
            Err(e) => Err(e),
            Ok(_) => Ok(
                PortState {
                    configuration,
                    started: false,
                    rx: QueueOwnership::default(),
                    tx: QueueOwnership::default(),
                },
            ),
        }
    }

    /// Starts the port.
    ///
    /// # Errors
    ///
    /// Fails when it was started before.
    pub fn start(&mut self) -> (r: Result<(), NetToolError>)
        ensures
            final(self).configuration() == old(self).configuration(),
            final(self).rx() == old(self).rx(),
            final(self).tx() == old(self).tx(),
            final(self).started(),
            match r {
                Ok(_) => !old(self).started(),
                Err(e) => old(self).started() && e.is(
                    ErrorCode::InvalidArgument,
                    "DPDK port is already started"@,
                    false,
                ),
            },
    {
        if self.started {
            return Err(error("DPDK port is already started"));
        }
        self.started = true;
        Ok(())
    }

    /// Why a receive queue cannot be taken, if it cannot.
    pub open spec fn rx_fault(self, queue_id: u16, burst_capacity: u16) -> Option<Seq<char>> {
        if !self.started() {
            Some("DPDK port must be started before creating an RX queue"@)
        } else if queue_id >= self.configuration().rx_queues {
            Some("DPDK RX queue ID is out of range"@)
        } else if burst_capacity == 0 || burst_capacity > MAX_BURST {
            Some("DPDK burst capacity must be between 1 and 256"@)
        } else if self.rx().contains(queue_id) {
            Some("DPDK RX queue already has an owner"@)
        } else {
            None
        }
    }

    /// Takes a receive queue for polling.
    ///
    /// # Errors
    ///
    /// Fails when the port was not started, has no such queue, the burst is not between 1 and
    /// 256 or the queue has an owner.
    pub fn claim_rx(&mut self, queue_id: u16, burst_capacity: u16) -> (r: Result<
        (),
        NetToolError,
    >)
        ensures
            old(self).same_but_rx(*final(self)),
            match r {
                Ok(_) => {
                    &&& old(self).rx_fault(queue_id, burst_capacity) is None
                    &&& final(self).rx() == old(self).rx().insert(queue_id)
                },
                Err(e) => {
                    &&& old(self).rx_fault(queue_id, burst_capacity) is Some
                    &&& final(self).rx() == old(self).rx()
                    &&& e.is(
                        ErrorCode::InvalidArgument,
                        old(self).rx_fault(queue_id, burst_capacity)->0,
                        false,
                    )
                },
            },
    {
        if !self.started {
            return Err(error("DPDK port must be started before creating an RX queue"));
        }
        if queue_id >= self.configuration.rx_queues {
            return Err(error("DPDK RX queue ID is out of range"));
        }
        if burst_capacity == 0 || burst_capacity as usize > MAX_BURST {
            return Err(error("DPDK burst capacity must be between 1 and 256"));
        }
        if !self.rx.claim(queue_id) {
            proof {
                assert(old(self).rx().insert(queue_id) =~= old(self).rx());
            }
            return Err(error("DPDK RX queue already has an owner"));
        }
        Ok(())
    }

    /// Gives a receive queue back.
    pub fn release_rx(&mut self, queue_id: u16)
        ensures
            old(self).same_but_rx(*final(self)),
            final(self).rx() == old(self).rx().remove(queue_id),
    {
        self.rx.release(queue_id);
    }

    /// Why a transmit queue cannot be taken, if it cannot.
    pub open spec fn tx_fault(self, queue_id: u16) -> Option<Seq<char>> {
        if !self.started() {
            Some("DPDK port must be started before creating a TX queue"@)
        } else if queue_id >= self.configuration().tx_queues {
            Some("DPDK TX queue ID is out of range"@)
        } else if self.tx().contains(queue_id) {
            Some("DPDK TX queue already has an owner"@)
        } else {
            None
        }
    }

    /// Takes a transmit queue.
    ///
    /// # Errors
    ///
    /// Fails when the port was not started, has no such queue or the queue has an owner.
    pub fn claim_tx(&mut self, queue_id: u16) -> (r: Result<(), NetToolError>)
        ensures
            old(self).same_but_tx(*final(self)),
            match r {
                Ok(_) => {
                    &&& old(self).tx_fault(queue_id) is None
                    &&& final(self).tx() == old(self).tx().insert(queue_id)
                },
                Err(e) => {
                    &&& old(self).tx_fault(queue_id) is Some
                    &&& final(self).tx() == old(self).tx()
                    &&& e.is(ErrorCode::InvalidArgument, old(self).tx_fault(queue_id)->0, false)
                },
            },
    {
        if !self.started {
            return Err(error("DPDK port must be started before creating a TX queue"));
        }
        if queue_id >= self.configuration.tx_queues {
            return Err(error("DPDK TX queue ID is out of range"));
        }
        if !self.tx.claim(queue_id) {
            proof {
                assert(old(self).tx().insert(queue_id) =~= old(self).tx());
            }
            return Err(error("DPDK TX queue already has an owner"));
        }
        Ok(())
    }

    /// Gives a transmit queue back.
    pub fn release_tx(&mut self, queue_id: u16)
        ensures
            old(self).same_but_tx(*final(self)),
            final(self).tx() == old(self).tx().remove(queue_id),
    {
        self.tx.release(queue_id);
    }

    /// Checks that statistics can be read.
    ///
    /// # Errors
    ///
    /// Fails when the port was not started.
    pub fn require_started_for_statistics(&self) -> (r: Result<(), NetToolError>)
        ensures
            match r {
                Ok(_) => self.started(),
                Err(e) => !self.started() && e.is(
                    ErrorCode::InvalidArgument,
                    "DPDK port must be started before reading statistics"@,
                    false,
                ),
            },
    {
        if !self.started {
            return Err(error("DPDK port must be started before reading statistics"));
        }
        Ok(())
    }

    /// Checks that extended statistics can be read.
    ///
    /// # Errors
    ///
    /// Fails when the port was not started.
    pub fn require_started_for_xstats(&self) -> (r: Result<(), NetToolError>)
        ensures
            match r {
                Ok(_) => self.started(),
                Err(e) => !self.started() && e.is(
                    ErrorCode::InvalidArgument,
                    "DPDK port must be started before reading xstats"@,
                    false,
                ),
            },
    {
        if !self.started {
            return Err(error("DPDK port must be started before reading xstats"));
        }
        Ok(())
    }
}

// ----------------------------------------------------------------------------- moving packets

/// Checks a burst to send and returns the length of its template.
///
/// # Errors
///
/// Fails when the template does not fit in 16 bits or is empty, and when the number of packets
/// is not between 1 and 256.
pub fn check_template_burst(template: &[u8], count: u16) -> (r: Result<u16, NetToolError>)
    ensures
        match r {
            Ok(length) => {
                &&& length == template@.len()
                &&& length > 0
                &&& 1 <= count <= MAX_BURST
            },
            Err(e) => if template@.len() > u16::MAX {
                e.is(
                    ErrorCode::InvalidArgument,
                    "DPDK TX template exceeds u16 length"@,
                    false,
                )
            } else {
                &&& template@.len() == 0 || count == 0 || count > MAX_BURST
                &&& e.is(
                    ErrorCode::InvalidArgument,
                    "DPDK TX template/count is invalid"@,
                    false,
                )
            },
        },
{
    if template.len() > 0xffff {
        return Err(error("DPDK TX template exceeds u16 length"));
    }
    let length: u16 = template.len() as u16;
    if length == 0 || count == 0 || count as usize > MAX_BURST {
        return Err(error("DPDK TX template/count is invalid"));
    }
    Ok(length)
}

/// What a driver says of a received packet.
#[derive(Clone, Copy, Debug, PartialEq, Eq, Structural)]
pub struct RxDescriptor {
    /// Whether it holds a buffer.
    pub has_buffer: bool,
    /// Whether it points to bytes.
    pub has_data: bool,
    /// The length of the bytes at hand.
    pub data_len: u32,
    /// The length of the packet.
    pub packet_len: u32,
    /// The RSS hash.
    pub rss_hash: u32,
    /// The offload flags.
    pub offload_flags: u64,
}

/// Whether what a driver says of a packet makes sense: it has a buffer, its bytes are there
/// and are not more than the packet.
pub open spec fn descriptor_valid(d: RxDescriptor) -> bool {
    &&& d.has_buffer
    &&& d.has_data || d.data_len == 0
    &&& d.data_len <= d.packet_len
}

/// Checks that a driver did not receive more than it was asked for.
///
/// # Errors
///
/// Fails when it did.
pub fn check_burst(received: u16, capacity: u16) -> (r: Result<usize, NetToolError>)
    ensures
        match r {
            Ok(n) => received <= capacity && n == received,
            Err(e) => received > capacity && e.is(
                ErrorCode::InvalidArgument,
                "DPDK RX burst exceeded configured capacity"@,
                false,
            ),
        },
{
    if received > capacity {
        return Err(error("DPDK RX burst exceeded configured capacity"));
    }
    Ok(received as usize)
}

/// Checks what a driver says of a packet before its bytes are touched.
///
/// # Errors
///
/// Fails when it makes no sense.
pub fn check_packet(queue_id: u16, d: RxDescriptor) -> (r: Result<PacketMetadata, NetToolError>)
    ensures
        match r {
            Ok(m) => descriptor_valid(d) && m == (PacketMetadata {
                packet_length: d.packet_len,
                captured_length: d.data_len,
                queue_id,
                rss_hash: d.rss_hash,
                offload_flags: d.offload_flags,
            }),
            Err(e) => !descriptor_valid(d) && e.is(
                ErrorCode::InvalidArgument,
                "DPDK RX burst returned invalid packet metadata"@,
                false,
            ),
        },
{
    if !d.has_buffer || (!d.has_data && d.data_len != 0) || d.data_len > d.packet_len {
        return Err(error("DPDK RX burst returned invalid packet metadata"));
    }
    Ok(
        PacketMetadata {
            packet_length: d.packet_len,
            captured_length: d.data_len,
            queue_id,
            rss_hash: d.rss_hash,
            offload_flags: d.offload_flags,
        },
    )
}

// ------------------------------------------------------------------------------- statistics

/// The bytes before the first zero.
pub open spec fn until_zero(b: Seq<u8>) -> Seq<u8>
    decreases b.len(),
{
    if b.len() == 0 || b[0] == 0 {
        Seq::empty()
    } else {
        seq![b[0]] + until_zero(b.drop_first())
    }
}

/// The name of a statistic among fixed width names.
pub open spec fn xstat_name(names: Seq<u8>, i: int) -> Seq<u8> {
    until_zero(
        names.subrange(i * XSTAT_NAME_WIDTH as int, (i + 1) * XSTAT_NAME_WIDTH as int),
    )
}

/// What is wrong with the first names, if something is.
pub open spec fn xstat_fault(names: Seq<u8>, n: nat) -> Option<Seq<char>>
    decreases n,
{
    if n == 0 {
        None
    } else {
        match xstat_fault(names, (n - 1) as nat) {
            Some(fault) => Some(fault),
            None => {
                let name = xstat_name(names, n - 1);
                if !valid_utf8(name) {
                    Some("DPDK xstats name is not valid UTF-8"@)
                } else if name.len() == 0 {
                    Some("DPDK xstats name is empty"@)
                } else {
                    None
                }
            },
        }
    }
}

fn name_length(b: &[u8]) -> (r: usize)
    ensures
        r <= b@.len(),
        b@.take(r as int) == until_zero(b@),
{
    let mut i: usize = 0;
    proof {
        assert(b@.skip(0) == b@);
        assert(b@.take(0) + until_zero(b@.skip(0)) == until_zero(b@));
    }
    while i < b.len() && b[i] != 0
        invariant
            i <= b@.len(),
            b@.take(i as int) + until_zero(b@.skip(i as int)) == until_zero(b@),
        decreases b@.len() - i,
    {
        proof {
            let t = b@.skip(i as int);
            assert(t.drop_first() == b@.skip(i + 1));
            assert(b@.take(i + 1) == b@.take(i as int) + seq![t[0]]);
            assert(b@.take(i + 1) + until_zero(b@.skip(i + 1)) =~= b@.take(i as int) + (seq![t[0]]
                + until_zero(b@.skip(i + 1))));
        }
        i += 1;
    }
    proof {
        assert(until_zero(b@.skip(i as int)) == Seq::<u8>::empty());
        assert(b@.take(i as int) + Seq::<u8>::empty() == b@.take(i as int));
    }
    i
}

/// How statistics are read from fixed width names and their values.
pub open spec fn decoded(
    names: Seq<u8>,
    values: Seq<u64>,
    r: Result<Vec<XStat>, NetToolError>,
) -> bool {
    match r {
        Ok(stats) => {
            &&& xstat_fault(names, values.len()) is None
            &&& stats@.len() == values.len()
            &&& forall|i: int|
                0 <= i < stats@.len() ==> {
                    &&& encode_utf8((#[trigger] stats@[i]).name@) == xstat_name(names, i)
                    &&& stats@[i].value == values[i]
                }
        },
        Err(e) => xstat_fault(names, values.len()) is Some && e.is(
            ErrorCode::InvalidArgument,
            xstat_fault(names, values.len())->0,
            false,
        ),
    }
}

/// Reads statistics from fixed width names and their values.
///
/// # Errors
///
/// Fails when a name is not UTF-8 or is empty.
pub fn decode_xstats(names: &[u8], values: &[u64]) -> (r: Result<Vec<XStat>, NetToolError>)
    requires
        names@.len() == values@.len() * XSTAT_NAME_WIDTH,
    ensures
        decoded(names@, values@, r),
{
    let mut out: Vec<XStat> = Vec::new();
    let total: usize = names.len();
    let mut i: usize = 0;
    let mut at: usize = 0;
    while i < values.len()
        invariant
            total == names@.len(),
            names@.len() == values@.len() * XSTAT_NAME_WIDTH,
            i <= values@.len(),
            at == i * XSTAT_NAME_WIDTH,
            out@.len() == i,
            xstat_fault(names@, i as nat) is None,
            forall|j: int|
                0 <= j < i ==> {
                    &&& encode_utf8((#[trigger] out@[j]).name@) == xstat_name(names@, j)
                    &&& out@[j].value == values@[j]
                },
        decreases values@.len() - i,
    {
        proof {
            assert((i + 1) * XSTAT_NAME_WIDTH <= values@.len() * XSTAT_NAME_WIDTH)
                by (nonlinear_arith)
                requires
                    i + 1 <= values@.len(),
                    XSTAT_NAME_WIDTH == 128,
            ;
        }
        let field = vstd::slice::slice_subrange(names, at, at + XSTAT_NAME_WIDTH);
        let length: usize = name_length(field);
        let bytes = vstd::slice::slice_to_vec(vstd::slice::slice_subrange(field, 0, length));
        proof {
            assert(bytes@ == field@.take(length as int));
            assert(bytes@ == xstat_name(names@, i as int));
        }
        match text_from_utf8(bytes) {
            None => {
                proof {
                    lemma_xstat_fault_stays(names@, (i + 1) as nat, values@.len());
                }
                return Err(error("DPDK xstats name is not valid UTF-8"));
            },
            Some(name) => {
                if length == 0 {
                    proof {
                        lemma_xstat_fault_stays(names@, (i + 1) as nat, values@.len());
                    }
                    return Err(error("DPDK xstats name is empty"));
                }
                out.push(XStat { name, value: values[i] });
            },
        }
        at += XSTAT_NAME_WIDTH;
        i += 1;
    }
    Ok(out)
}

proof fn lemma_xstat_fault_stays(names: Seq<u8>, n: nat, m: nat)
    requires
        n <= m,
        xstat_fault(names, n) is Some,
    ensures
        xstat_fault(names, m) == xstat_fault(names, n),
    decreases m,
{
    if n < m {
        lemma_xstat_fault_stays(names, n, (m - 1) as nat);
    }
}

// ---------------------------------------------------------------------------------- failures

/// The error number in a negative result; the result itself where it cannot be negated.
pub open spec fn error_number(result: i32) -> i32 {
    if result == i32::MIN {
        result
    } else {
        (-result) as i32
    }
}

/// The error of a call into the runtime: what was tried, what the runtime says and its error
/// number.
pub fn runtime_failure(context: &str, detail: &str, code: i32) -> (r: NetToolError)
    ensures
        r.is(
            ErrorCode::PreflightFailed,
            context@ + ": "@ + detail@ + " (errno "@ + text::signed_decimal(code as int) + ")"@,
            false,
        ),
{
    let mut message = context.to_owned();
    message.append(": ");
    message.append(detail);
    message.append(" (errno ");
    message.append(signed_text(code).as_str());
    message.append(")");
    NetToolError::new(ErrorCode::PreflightFailed, message.as_str(), false)
}

/// Returns the error number in a negative result.
pub fn error_number_of(result: i32) -> (r: i32)
    ensures
        r == error_number(result),
{
    if result == i32::MIN {
        result
    } else {
        -result
    }
}

fn error(message: &str) -> (r: NetToolError)
    ensures
        r.is(ErrorCode::InvalidArgument, message@, false),
{
    NetToolError::new(ErrorCode::InvalidArgument, message, false)
}

} // verus!
