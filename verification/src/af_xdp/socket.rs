//! What a socket asks of the kernel, and what it makes of the answers.

use crate::af_xdp;
use crate::af_xdp::kernel::SetupKernel;
use crate::af_xdp::mapping;
use crate::af_xdp::mapping::{RingView, XdpMmapOffsets, XdpRingMapping, XdpRingOffset};
use crate::af_xdp::setup;
use crate::af_xdp::setup::{
    attach_program, map_all, open_socket, MapCall, MapReply, MappedRings, SetupCall,
    XdpRedirectLink,
};
use crate::af_xdp::worker;
use crate::af_xdp::worker::{frame_descriptors, XdpRingMappings};
use crate::af_xdp::{
    is_valid_size, validate_interface_name, AfXdpConfig, AfXdpError, AfXdpErrorText, UmemRegion,
    PAGE_SIZE,
};
use crate::dpdk::executor::Duration;
use crate::record::Recorder;
use crate::text::contains_char;
use vstd::prelude::*;

verus! {

/// Packets are not copied.
pub const XDP_ZEROCOPY: u16 = 4;

/// The bytes of the answer to where the rings are.
pub const OFFSETS_SIZE: u32 = 128;

/// The helper of the kernel that hands a packet to a socket.
pub const BPF_FUNC_REDIRECT_MAP: i32 = 51;

/// What the kernel answered: a number, and the number of the error where that is negative.
#[derive(Clone, Copy, Debug, PartialEq, Eq, Structural)]
pub struct KernelReply {
    /// What was returned.
    pub result: i64,
    /// The number of the last error.
    pub errno: i32,
}

/// What is wrong with a request to bind a socket.
pub open spec fn bind_fault(
    interface_name: Seq<char>,
    config: AfXdpConfig,
    platform_is_linux: bool,
) -> Option<AfXdpErrorText> {
    match af_xdp::config_fault(config) {
        Some(message) => Some(AfXdpErrorText::InvalidConfig(message)),
        None => if !af_xdp::safe_interface_name(interface_name) {
            Some(
                AfXdpErrorText::InvalidInterface(
                    "interface name contains unsupported characters"@,
                ),
            )
        } else if !platform_is_linux {
            Some(AfXdpErrorText::UnsupportedPlatform)
        } else {
            None
        },
    }
}

/// A socket that is bound.
#[derive(Debug)]
pub struct AfXdpSocket {
    fd: i32,
}

/// What the kernel answered to where the rings are.
#[derive(Clone, Copy, Debug, PartialEq, Eq, Structural)]
pub struct OffsetsReply {
    /// The status; zero for success.
    pub status: i32,
    /// The number of the last error.
    pub errno: i32,
    /// The bytes of the answer.
    pub length: u32,
    /// The answer.
    pub offsets: XdpMmapOffsets,
}

/// What the kernel answered to waiting.
#[derive(Clone, Copy, Debug, PartialEq, Eq, Structural)]
pub struct PollReply {
    /// The number of sockets that something happened to.
    pub result: i32,
    /// What happened.
    pub events: u16,
    /// The number of the last error.
    pub errno: i32,
}

/// The larger of two numbers.
pub open spec fn most(a: int, b: int) -> int {
    if a > b {
        a
    } else {
        b
    }
}

/// The last place where a part of a ring begins.
pub open spec fn last_part(offsets: XdpRingOffset) -> int {
    most(
        most(offsets.producer as int, offsets.consumer as int),
        most(offsets.descriptor as int, offsets.flags as int),
    )
}

/// The bytes that hold all parts of a ring, in whole pages, or why they cannot be mapped.
pub open spec fn mapping_length(entries: u32, offsets: XdpRingOffset) -> Result<int, Seq<char>> {
    let array = entries * 16;
    let end = last_part(offsets) + most(array, 4);
    if array > usize::MAX {
        Err("ring mapping size overflows"@)
    } else if last_part(offsets) > usize::MAX || end > usize::MAX {
        Err("ring offset exceeds addressable size"@)
    } else if end + 4095 > usize::MAX {
        Err("ring mapping alignment overflows"@)
    } else {
        Ok((end + 4095) / 4096 * 4096)
    }
}

/// Memory of the computed length holds every part of the ring.
pub proof fn law_mapped_rings_are_whole(v: RingView, slot: u32)
    requires
        mapping_length(v.entries, v.offsets) == Ok::<int, Seq<char>>(v.bytes.len() as int),
        slot < v.entries,
    ensures
        v.index_fault(v.offsets.producer) is None,
        v.index_fault(v.offsets.consumer) is None,
        v.slot_fault(slot) is None,
{
}

fn larger(a: u64, b: u64) -> (r: u64)
    ensures
        r == most(a as int, b as int),
{
    if a > b {
        a
    } else {
        b
    }
}

/// Computes the bytes that hold all parts of a ring, in whole pages.
///
/// # Errors
///
/// Fails when there are too many.
pub fn ring_mapping_length(count: u32, offset: XdpRingOffset) -> (r: Result<usize, AfXdpError>)
    ensures
        match mapping_length(count, offset) {
            Ok(length) => r matches Ok(n) && n == length,
            Err(message) => af_xdp::refused(r, AfXdpErrorText::InvalidConfig(message)),
        },
{
    let array: usize = match (count as usize).checked_mul(16) {
        Some(n) => n,
        None => {
            return Err(AfXdpError::InvalidConfig("ring mapping size overflows".to_owned()));
        },
    };
    let last: u64 = larger(
        larger(offset.producer, offset.consumer),
        larger(offset.descriptor, offset.flags),
    );
    if last > usize::MAX as u64 {
        return Err(AfXdpError::InvalidConfig("ring offset exceeds addressable size".to_owned()));
    }
    let tail: usize = if array > 4 {
        array
    } else {
        4
    };
    match (last as usize).checked_add(tail) {
        None => Err(AfXdpError::InvalidConfig("ring offset exceeds addressable size".to_owned())),
        Some(end) => match end.checked_add(PAGE_SIZE - 1) {
            None => Err(AfXdpError::InvalidConfig("ring mapping alignment overflows".to_owned())),
            Some(n) => Ok(n / PAGE_SIZE * PAGE_SIZE),
        },
    }
}

/// The frames of the shared memory, in order.
pub open spec fn all_frames(n: nat) -> Seq<u64> {
    Seq::new(n, |i: int| i as u64)
}

/// What is wrong with filling a ring with all frames.
pub open spec fn filling_fault(v: RingView, umem: UmemRegion) -> Option<AfXdpErrorText> {
    match v.index_fault(v.offsets.producer) {
        Some(message) => Some(AfXdpErrorText::InvalidConfig(message)),
        None => if v.producer() != 0 {
            Some(AfXdpErrorText::Kernel("fill_ring_not_empty"@, 0))
        } else {
            match v.index_fault(v.offsets.consumer) {
                Some(message) => Some(AfXdpErrorText::InvalidConfig(message)),
                None => if v.consumer() != 0 {
                    Some(AfXdpErrorText::Kernel("fill_ring_not_empty"@, 0))
                } else if umem.frames() > u32::MAX {
                    Some(
                        AfXdpErrorText::InvalidConfig(
                            "UMEM frame count exceeds FILL ring index"@,
                        ),
                    )
                } else if umem.frames() > v.entries {
                    Some(
                        AfXdpErrorText::InvalidConfig(
                            "FILL ring capacity is smaller than UMEM frame count"@,
                        ),
                    )
                } else {
                    None
                },
            }
        },
    }
}

/// The time to wait, in milliseconds, or the longest that the kernel can wait.
pub open spec fn milliseconds(timeout: Duration) -> int {
    let n = timeout.seconds * 1000 + timeout.nanoseconds as int / 1000000;
    if n > i32::MAX {
        i32::MAX as int
    } else {
        n
    }
}

/// Computes the time to wait, in milliseconds.
pub fn poll_timeout(timeout: Duration) -> (r: i32)
    ensures
        r == milliseconds(timeout),
{
    let n: u128 = timeout.seconds as u128 * 1000 + timeout.nanoseconds as u128 / 1000000;
    if n > 0x7fff_ffff {
        0x7fff_ffff
    } else {
        n as i32
    }
}

/// What the answer to waiting means: whether packets wait.
pub open spec fn poll_outcome(reply: PollReply) -> Result<bool, AfXdpErrorText> {
    if reply.result < 0 {
        Err(AfXdpErrorText::Kernel("poll"@, reply.errno))
    } else if reply.result == 0 {
        Ok(false)
    } else if reply.events & 0x18 != 0 {
        Err(AfXdpErrorText::Kernel("poll_error"@, reply.errno))
    } else {
        Ok(reply.events & 0x01 != 0)
    }
}

/// A file descriptor that the kernel returned, or why there is none.
pub open spec fn descriptor_of(
    reply: KernelReply,
    operation: Seq<char>,
    too_large: Seq<char>,
) -> Result<i32, AfXdpErrorText> {
    if !(i32::MIN <= reply.result <= i32::MAX) {
        Err(AfXdpErrorText::InvalidConfig(too_large))
    } else if reply.result < 0 {
        Err(AfXdpErrorText::Kernel(operation, reply.errno))
    } else {
        Ok(reply.result as i32)
    }
}

/// Takes a file descriptor that the kernel returned.
///
/// # Errors
///
/// Fails when the kernel failed or the number is none.
pub fn accept_descriptor(reply: KernelReply, operation: &'static str, too_large: &str) -> (r:
    Result<i32, AfXdpError>)
    ensures
        match descriptor_of(reply, operation@, too_large@) {
            Ok(fd) => r == Ok::<i32, AfXdpError>(fd),
            Err(error) => af_xdp::refused(r, error),
        },
{
    if reply.result < -0x8000_0000 || reply.result > 0x7fff_ffff {
        return Err(AfXdpError::InvalidConfig(too_large.to_owned()));
    }
    if reply.result < 0 {
        return Err(AfXdpError::Kernel { operation, errno: reply.errno });
    }
    Ok(reply.result as i32)
}

/// The file descriptor of a socket that was bound, or why it was not.
pub open spec fn descriptors(r: Result<AfXdpSocket, AfXdpError>) -> Result<i32, AfXdpError> {
    match r {
        Ok(socket) => Ok(socket.fd()),
        Err(e) => Err(e),
    }
}

impl AfXdpSocket {
    /// The file descriptor.
    pub closed spec fn fd(self) -> i32 {
        self.fd
    }

    /// Creates and binds a socket.
    ///
    /// # Errors
    ///
    /// Fails when the configuration or the name is not valid, when the platform has no such
    /// sockets, and when the kernel fails. A socket that cannot be bound is closed.
    pub fn bind<F: FnMut(SetupCall, &str) -> KernelReply>(
        interface_name: &str,
        config: AfXdpConfig,
        umem: &UmemRegion,
        platform_is_linux: bool,
        kernel: &mut SetupKernel<F>,
    ) -> (r: Result<Self, AfXdpError>)
        requires
            old(kernel).takes_all(),
        ensures
            final(kernel).takes_all(),
            match bind_fault(interface_name@, config, platform_is_linux) {
                Some(error) => af_xdp::refused(r, error) && *final(kernel) == *old(kernel),
                None => setup::opened(
                    old(kernel).log(),
                    final(kernel).log(),
                    interface_name@,
                    config,
                    *umem,
                    descriptors(r),
                ),
            },
    {
        let config = match config.validate() {
            Ok(config) => config,
            Err(e) => {
                return Err(e);
            },
        };
        match validate_interface_name(interface_name) {
            Ok(_) => {},
            Err(e) => {
                return Err(e);
            },
        }
        if !platform_is_linux {
            return Err(AfXdpError::UnsupportedPlatform);
        }
        match open_socket(interface_name, config, umem, kernel) {
            Ok(fd) => Ok(AfXdpSocket { fd }),
            Err(e) => Err(e),
        }
    }

    /// The file descriptor.
    #[must_use]
    pub fn raw_fd(&self) -> (r: i32)
        ensures
            r == self.fd(),
    {
        self.fd
    }

    /// Asks the kernel where the rings are.
    ///
    /// # Errors
    ///
    /// Fails when the kernel fails or answers too little.
    pub fn ring_offsets<F: FnOnce(i32) -> OffsetsReply>(&self, query: F) -> (r: Result<
        XdpMmapOffsets,
        AfXdpError,
    >)
        requires
            call_requires(query, (self.fd(),)),
        ensures
            exists|reply: OffsetsReply| #[trigger]
                call_ensures(query, (self.fd(),), reply) && if reply.status != 0 {
                    af_xdp::refused(
                        r,
                        AfXdpErrorText::Kernel("getsockopt_mmap_offsets"@, reply.errno),
                    )
                } else if reply.length < OFFSETS_SIZE {
                    af_xdp::refused(
                        r,
                        AfXdpErrorText::Kernel("getsockopt_mmap_offsets_short"@, 0),
                    )
                } else {
                    r == Ok::<XdpMmapOffsets, AfXdpError>(reply.offsets)
                },
    {
        let reply = query(self.fd);
        proof {
            assert(call_ensures(query, (self.fd(),), reply));
        }
        if reply.status != 0 {
            return Err(
                AfXdpError::Kernel { operation: "getsockopt_mmap_offsets", errno: reply.errno },
            );
        }
        if reply.length < OFFSETS_SIZE {
            return Err(
                AfXdpError::Kernel { operation: "getsockopt_mmap_offsets_short", errno: 0 },
            );
        }
        Ok(reply.offsets)
    }

    /// Maps the rings, in the order in which they are named.
    ///
    /// # Errors
    ///
    /// Fails when the configuration is not valid, when a ring is too long and when the kernel
    /// fails. The rings that were mapped are then unmapped.
    pub fn map_rings<F: FnMut(MapCall) -> MapReply>(
        &self,
        config: AfXdpConfig,
        offsets: XdpMmapOffsets,
        kernel: &mut Recorder<F, MapCall, MapReply>,
    ) -> (r: Result<MappedRings, AfXdpError>)
        requires
            old(kernel).takes_all(),
        ensures
            final(kernel).takes_all(),
            match af_xdp::config_fault(config) {
                Some(message) => af_xdp::refused(r, AfXdpErrorText::InvalidConfig(message))
                    && *final(kernel) == *old(kernel),
                None => setup::all_mapped(
                    old(kernel).log(),
                    final(kernel).log(),
                    self.fd(),
                    setup::ring_plans(config, offsets),
                    r,
                ),
            },
    {
        match config.validate() {
            Ok(config) => map_all(self.fd, config, offsets, kernel),
            Err(e) => Err(e),
        }
    }

    /// Fills the ring of free frames with all frames and returns their number.
    ///
    /// # Errors
    ///
    /// Fails when the ring is not empty or too short, and when a part of it is outside the
    /// mapped memory.
    pub fn initialize_fill_ring(&self, mappings: &mut XdpRingMappings, umem: &UmemRegion) -> (r:
        Result<u32, AfXdpError>)
        ensures
            final(mappings).rx == old(mappings).rx,
            final(mappings).tx == old(mappings).tx,
            final(mappings).completion == old(mappings).completion,
            filled_up(old(mappings).fill@, final(mappings).fill@, *umem, r),
    {
        fill_all(&mut mappings.fill, umem)
    }

    /// Waits until packets wait, for no longer than a time. Returns whether any do. `poll`
    /// takes the file descriptor and the time in milliseconds.
    ///
    /// # Errors
    ///
    /// Fails when waiting fails and when the socket is broken.
    pub fn wait_for_io<F: FnOnce(i32, i32) -> PollReply>(&self, timeout: Duration, poll: F) -> (r:
        Result<bool, AfXdpError>)
        requires
            forall|fd: i32, millis: i32| call_requires(poll, (fd, millis)),
        ensures
            exists|reply: PollReply| #[trigger]
                call_ensures(poll, (self.fd(), milliseconds(timeout) as i32), reply)
                    && match poll_outcome(reply) {
                    Ok(ready) => r == Ok::<bool, AfXdpError>(ready),
                    Err(error) => af_xdp::refused(r, error),
                },
    {
        let millis: i32 = poll_timeout(timeout);
        let reply = poll(self.fd, millis);
        proof {
            assert(call_ensures(poll, (self.fd(), milliseconds(timeout) as i32), reply));
        }
        if reply.result < 0 {
            return Err(AfXdpError::Kernel { operation: "poll", errno: reply.errno });
        }
        if reply.result == 0 {
            return Ok(false);
        }
        if reply.events & 0x18 != 0 {
            return Err(AfXdpError::Kernel { operation: "poll_error", errno: reply.errno });
        }
        Ok(reply.events & 0x01 != 0)
    }

    /// Tells the kernel that there are packets to send.
    ///
    /// # Errors
    ///
    /// Fails when the kernel fails.
    pub fn kick_tx<F: FnOnce(i32) -> KernelReply>(&self, send: F) -> (r: Result<(), AfXdpError>)
        requires
            call_requires(send, (self.fd(),)),
        ensures
            exists|reply: KernelReply| #[trigger]
                call_ensures(send, (self.fd(),), reply) && if reply.result < 0 {
                    af_xdp::refused(r, AfXdpErrorText::Kernel("sendto_tx_kick"@, reply.errno))
                } else {
                    r is Ok
                },
    {
        let reply = send(self.fd);
        proof {
            assert(call_ensures(send, (self.fd(),), reply));
        }
        if reply.result < 0 {
            return Err(AfXdpError::Kernel { operation: "sendto_tx_kick", errno: reply.errno });
        }
        Ok(())
    }

    /// Creates a map of sockets.
    ///
    /// # Errors
    ///
    /// Fails when the size is not a power of two or too large, and when the kernel fails.
    pub fn create_xsk_map<F: FnMut(u32) -> KernelReply>(
        max_entries: u32,
        create: &mut Recorder<F, u32, KernelReply>,
    ) -> (r: Result<XskMap, AfXdpError>)
        requires
            old(create).takes_all(),
        ensures
            final(create).takes_all(),
            if !af_xdp::valid_size(max_entries) {
                &&& af_xdp::refused(
                    r,
                    AfXdpErrorText::InvalidConfig(
                        "XSKMAP capacity must be a power-of-two between 1 and 1048576"@,
                    ),
                )
                &&& *final(create) == *old(create)
            } else {
                exists|reply: KernelReply|
                    final(create).log() == #[trigger] old(create).log().push((max_entries, reply))
                        && match descriptor_of(
                        reply,
                        "bpf_map_create_xskmap"@,
                        "map fd exceeds c_int"@,
                    ) {
                        Ok(fd) => r matches Ok(map) && map.fd() == fd && map.max_entries()
                            == max_entries,
                        Err(error) => af_xdp::refused(r, error),
                    }
            },
    {
        if !is_valid_size(max_entries) {
            return Err(
                AfXdpError::InvalidConfig(
                    "XSKMAP capacity must be a power-of-two between 1 and 1048576".to_owned(),
                ),
            );
        }
        let reply = create.ask(max_entries);
        match accept_descriptor(reply, "bpf_map_create_xskmap", "map fd exceeds c_int") {
            Ok(fd) => Ok(XskMap { fd, max_entries }),
            Err(e) => Err(e),
        }
    }
}

/// Whether a ring was filled with all frames as it should be.
pub open spec fn filled_up(
    before: RingView,
    after: RingView,
    umem: UmemRegion,
    r: Result<u32, AfXdpError>,
) -> bool {
    let n = umem.frames() as nat;
    let items = worker::frames_of(umem, all_frames(n));
    match filling_fault(before, umem) {
        Some(error) => af_xdp::refused(r, error) && after == before,
        None => match mapping::first_write_fault(before, items, 0, n) {
            Some((at, message)) => {
                &&& af_xdp::refused(r, AfXdpErrorText::InvalidConfig(message))
                &&& after == mapping::after_writes(before, items, 0, at)
            },
            None => {
                &&& r == Ok::<u32, AfXdpError>(n as u32)
                &&& after == mapping::after_writes(before, items, 0, n).with_index(
                    before.offsets.producer,
                    n as u32,
                )
            },
        },
    }
}

fn fill_all(ring: &mut XdpRingMapping, umem: &UmemRegion) -> (r: Result<u32, AfXdpError>)
    ensures
        filled_up(old(ring)@, final(ring)@, *umem, r),
{
    match ring.producer_index() {
        Err(e) => {
            return Err(e);
        },
        Ok(n) => {
            if n != 0 {
                return Err(AfXdpError::Kernel { operation: "fill_ring_not_empty", errno: 0 });
            }
        },
    }
    match ring.consumer_index() {
        Err(e) => {
            return Err(e);
        },
        Ok(n) => {
            if n != 0 {
                return Err(AfXdpError::Kernel { operation: "fill_ring_not_empty", errno: 0 });
            }
        },
    }
    let frame_count: u64 = umem.length() / umem.chunk_size() as u64;
    if frame_count > 0xffff_ffff {
        return Err(
            AfXdpError::InvalidConfig("UMEM frame count exceeds FILL ring index".to_owned()),
        );
    }
    if frame_count > ring.entries() as u64 {
        return Err(
            AfXdpError::InvalidConfig(
                "FILL ring capacity is smaller than UMEM frame count".to_owned(),
            ),
        );
    }
    let count: u32 = frame_count as u32;
    let mut indices: Vec<u64> = Vec::new();
    let mut i: u32 = 0;
    while i < count
        invariant
            i <= count,
            indices@ == all_frames(i as nat),
        decreases count - i,
    {
        indices.push(i as u64);
        i += 1;
        proof {
            assert(indices@ =~= all_frames(i as nat));
        }
    }
    let items = frame_descriptors(umem, indices.as_slice());
    if count > 0 {
        match ring.write_behind(&items, 0, count) {
            Ok(_) => {},
            Err(e) => {
                return Err(e);
            },
        }
    }
    proof {
        mapping::lemma_writes_keep_layout(
            old(ring)@,
            worker::frames_of(*umem, all_frames(count as nat)),
            0,
            count as nat,
        );
    }
    match ring.publish_producer(count) {
        Ok(_) => Ok(count),
        Err(e) => Err(e),
    }
}

/// A map from queues to sockets.
#[derive(Debug)]
pub struct XskMap {
    fd: i32,
    max_entries: u32,
}

/// A step of the program that hands packets to sockets.
#[derive(Clone, Copy, Debug, PartialEq, Eq, Structural)]
pub struct BpfInsn {
    /// The operation.
    pub code: u8,
    /// The registers.
    pub regs: u8,
    /// An offset.
    pub off: i16,
    /// A number.
    pub imm: i32,
}

/// The program that hands packets to sockets: it looks the queue of a packet up in a map.
pub open spec fn redirect_program(map_fd: i32) -> Seq<BpfInsn> {
    seq![
        BpfInsn { code: 0x61, regs: 0x12, off: 16, imm: 0 },
        BpfInsn { code: 0x18, regs: 0x11, off: 0, imm: map_fd },
        BpfInsn { code: 0, regs: 0, off: 0, imm: 0 },
        BpfInsn { code: 0x85, regs: 0, off: 0, imm: BPF_FUNC_REDIRECT_MAP },
        BpfInsn { code: 0x95, regs: 0, off: 0, imm: 0 },
    ]
}

/// Makes the program that hands packets to the sockets of a map.
pub fn redirect_instructions(map_fd: i32) -> (r: [BpfInsn; 5])
    ensures
        r@ == redirect_program(map_fd),
{
    let program = [
        BpfInsn { code: 0x61, regs: 0x12, off: 16, imm: 0 },
        BpfInsn { code: 0x18, regs: 0x11, off: 0, imm: map_fd },
        BpfInsn { code: 0, regs: 0, off: 0, imm: 0 },
        BpfInsn { code: 0x85, regs: 0, off: 0, imm: BPF_FUNC_REDIRECT_MAP },
        BpfInsn { code: 0x95, regs: 0, off: 0, imm: 0 },
    ];
    proof {
        assert(program@ =~= redirect_program(map_fd));
    }
    program
}

impl XskMap {
    /// The file descriptor.
    pub closed spec fn fd(self) -> i32 {
        self.fd
    }

    /// The most sockets.
    pub closed spec fn max_entries(self) -> u32 {
        self.max_entries
    }

    /// Sets the socket of a queue. `update` takes the map, the queue and the socket.
    ///
    /// # Errors
    ///
    /// Fails when the map has no such queue, when a file descriptor is negative and when the
    /// kernel fails.
    pub fn insert<F: FnMut((u32, u64, u64)) -> KernelReply>(
        &self,
        queue_id: u32,
        socket: &AfXdpSocket,
        update: &mut Recorder<F, (u32, u64, u64), KernelReply>,
    ) -> (r: Result<(), AfXdpError>)
        requires
            old(update).takes_all(),
        ensures
            final(update).takes_all(),
            if queue_id >= self.max_entries() {
                &&& af_xdp::refused(
                    r,
                    AfXdpErrorText::InvalidConfig("XSKMAP queue id exceeds map capacity"@),
                )
                &&& *final(update) == *old(update)
            } else if socket.fd() < 0 {
                &&& af_xdp::refused(r, AfXdpErrorText::InvalidConfig("socket fd is negative"@))
                &&& *final(update) == *old(update)
            } else if self.fd() < 0 {
                &&& af_xdp::refused(r, AfXdpErrorText::InvalidConfig("map fd is negative"@))
                &&& *final(update) == *old(update)
            } else {
                exists|reply: KernelReply|
                    final(update).log() == #[trigger] old(update).log().push(
                        ((self.fd() as u32, queue_id as u64, socket.fd() as u64), reply),
                    ) && if reply.result < 0 {
                        af_xdp::refused(
                            r,
                            AfXdpErrorText::Kernel("bpf_map_update_xskmap"@, reply.errno),
                        )
                    } else {
                        r is Ok
                    }
            },
    {
        if queue_id >= self.max_entries {
            return Err(
                AfXdpError::InvalidConfig("XSKMAP queue id exceeds map capacity".to_owned()),
            );
        }
        if socket.fd < 0 {
            return Err(AfXdpError::InvalidConfig("socket fd is negative".to_owned()));
        }
        if self.fd < 0 {
            return Err(AfXdpError::InvalidConfig("map fd is negative".to_owned()));
        }
        let reply = update.ask((self.fd as u32, queue_id as u64, socket.fd as u64));
        if reply.result < 0 {
            return Err(
                AfXdpError::Kernel { operation: "bpf_map_update_xskmap", errno: reply.errno },
            );
        }
        Ok(())
    }

    /// The file descriptor.
    #[must_use]
    pub fn raw_fd(&self) -> (r: i32)
        ensures
            r == self.fd(),
    {
        self.fd
    }

    /// Hands the packets of an interface to the sockets of the map.
    ///
    /// # Errors
    ///
    /// Fails when the name of the interface cannot be handed to the kernel, when there is no
    /// such interface and when the kernel fails.
    pub fn attach_redirect<F: FnMut(SetupCall, &str) -> KernelReply>(
        &self,
        interface_name: &str,
        kernel: &mut SetupKernel<F>,
    ) -> (r: Result<XdpRedirectLink, AfXdpError>)
        requires
            old(kernel).takes_all(),
        ensures
            final(kernel).takes_all(),
            if interface_name@.contains('\0') {
                &&& af_xdp::refused(
                    r,
                    AfXdpErrorText::InvalidInterface("interface name contains NUL"@),
                )
                &&& *final(kernel) == *old(kernel)
            } else {
                setup::attached(
                    old(kernel).log(),
                    final(kernel).log(),
                    interface_name@,
                    self.fd(),
                    r,
                )
            },
    {
        if contains_char(interface_name, '\0') {
            return Err(AfXdpError::InvalidInterface("interface name contains NUL".to_owned()));
        }
        attach_program(interface_name, self.fd, kernel)
    }
}

} // verus!
