//! The calls into the kernel that set a socket up, map its rings and attach its program: which
//! calls are made in which order, and what each answer leads to.

use crate::af_xdp;
use crate::af_xdp::kernel::{SetupKernel, SetupStep};
use crate::af_xdp::mapping::{XdpMmapOffsets, XdpRingOffset};
use crate::af_xdp::socket;
use crate::af_xdp::socket::{accept_descriptor, ring_mapping_length, KernelReply, XDP_ZEROCOPY};
use crate::af_xdp::worker::RingKind;
use crate::af_xdp::{AfXdpConfig, AfXdpError, AfXdpErrorText, UmemRegion};
use crate::record::Recorder;
use vstd::prelude::*;

verus! {

// ------------------------------------------------------------------------------- the calls

/// A call into the kernel. The name of the interface goes with it.
#[derive(Clone, Copy, Debug, PartialEq, Eq, Structural)]
pub enum SetupCall {
    /// Creates a socket; returns its file descriptor.
    Open,
    /// Looks the number of the interface up; returns zero where there is none.
    FindInterface,
    /// Registers the shared memory; returns zero for success.
    RegisterMemory {
        /// The socket.
        fd: i32,
        /// The bytes of the memory.
        length: u64,
        /// The bytes of a frame.
        chunk_size: u32,
        /// The bytes before the payload in a frame.
        headroom: u32,
    },
    /// Sets the size of a ring; returns zero for success.
    SetRing {
        /// The socket.
        fd: i32,
        /// The ring.
        kind: RingKind,
        /// Its entries.
        entries: u32,
    },
    /// Binds the socket; returns zero for success.
    Bind {
        /// The socket.
        fd: i32,
        /// The number of the interface.
        interface_index: u32,
        /// The queue of the interface.
        queue_id: u32,
        /// The flags of the address.
        flags: u16,
    },
    /// Loads the program that hands packets to the sockets of a map; returns its file
    /// descriptor.
    LoadProgram {
        /// The map.
        map_fd: i32,
        /// The number of the interface.
        interface_index: u32,
    },
    /// Links a program with the interface; returns the file descriptor of the link.
    Link {
        /// The program.
        program_fd: i32,
        /// The number of the interface.
        interface_index: u32,
    },
    /// Closes a file descriptor.
    Close {
        /// The file descriptor.
        fd: i32,
    },
}

/// The number of an interface, or that there is none.
pub open spec fn index_of(reply: KernelReply) -> Result<u32, AfXdpErrorText> {
    if 1 <= reply.result <= u32::MAX {
        Ok(reply.result as u32)
    } else {
        Err(AfXdpErrorText::Kernel("if_nametoindex"@, reply.errno))
    }
}

/// Takes the number of an interface; zero means that there is none.
///
/// # Errors
///
/// Fails when there is no such interface.
pub fn accept_interface_index(reply: KernelReply) -> (r: Result<u32, AfXdpError>)
    ensures
        match index_of(reply) {
            Ok(index) => r == Ok::<u32, AfXdpError>(index),
            Err(error) => af_xdp::refused(r, error),
        },
{
    if reply.result < 1 || reply.result > 0xffff_ffff {
        return Err(AfXdpError::Kernel { operation: "if_nametoindex", errno: reply.errno });
    }
    Ok(reply.result as u32)
}

// ---------------------------------------------------------------------------- opening a socket

/// The calls that configure and bind a socket, each with what its failure is called.
pub open spec fn setup_plan(
    fd: i32,
    interface_index: u32,
    config: AfXdpConfig,
    umem: UmemRegion,
) -> Seq<(SetupCall, Seq<char>)> {
    let ring = "setsockopt_ring"@;
    seq![
        (
            SetupCall::RegisterMemory {
                fd,
                length: umem.bytes(),
                chunk_size: umem.chunk(),
                headroom: umem.room(),
            },
            "setsockopt_umem"@,
        ),
        (SetupCall::SetRing { fd, kind: RingKind::Rx, entries: config.rx_ring_size }, ring),
        (SetupCall::SetRing { fd, kind: RingKind::Tx, entries: config.tx_ring_size }, ring),
        (SetupCall::SetRing { fd, kind: RingKind::Fill, entries: config.fill_ring_size }, ring),
        (
            SetupCall::SetRing {
                fd,
                kind: RingKind::Completion,
                entries: config.completion_ring_size,
            },
            ring,
        ),
        (
            SetupCall::Bind {
                fd,
                interface_index,
                queue_id: config.queue_id,
                flags: if config.require_zero_copy {
                    XDP_ZEROCOPY
                } else {
                    0
                },
            },
            if config.require_zero_copy {
                "bind_zero_copy"@
            } else {
                "bind"@
            },
        ),
    ]
}

/// Calls with what their failures are called, as texts.
pub open spec fn step_views(steps: Seq<(SetupCall, &'static str)>) -> Seq<(SetupCall, Seq<char>)> {
    Seq::new(steps.len(), |i: int| (steps[i].0, steps[i].1@))
}

fn setup_steps(fd: i32, interface_index: u32, config: AfXdpConfig, umem: &UmemRegion) -> (r: Vec<
    (SetupCall, &'static str),
>)
    ensures
        step_views(r@) == setup_plan(fd, interface_index, config, *umem),
{
    let (flags, operation): (u16, &'static str) = if config.require_zero_copy {
        (XDP_ZEROCOPY, "bind_zero_copy")
    } else {
        (0, "bind")
    };
    let mut steps: Vec<(SetupCall, &'static str)> = Vec::new();
    steps.push(
        (
            SetupCall::RegisterMemory {
                fd,
                length: umem.length(),
                chunk_size: umem.chunk_size(),
                headroom: umem.headroom(),
            },
            "setsockopt_umem",
        ),
    );
    steps.push(
        (
            SetupCall::SetRing { fd, kind: RingKind::Rx, entries: config.rx_ring_size },
            "setsockopt_ring",
        ),
    );
    steps.push(
        (
            SetupCall::SetRing { fd, kind: RingKind::Tx, entries: config.tx_ring_size },
            "setsockopt_ring",
        ),
    );
    steps.push(
        (
            SetupCall::SetRing { fd, kind: RingKind::Fill, entries: config.fill_ring_size },
            "setsockopt_ring",
        ),
    );
    steps.push(
        (
            SetupCall::SetRing {
                fd,
                kind: RingKind::Completion,
                entries: config.completion_ring_size,
            },
            "setsockopt_ring",
        ),
    );
    steps.push(
        (
            SetupCall::Bind { fd, interface_index, queue_id: config.queue_id, flags },
            operation,
        ),
    );
    proof {
        assert(step_views(steps@) =~= setup_plan(fd, interface_index, config, *umem));
    }
    steps
}

/// The calls that planned calls come to, with their answers.
pub open spec fn steps_of(
    name: Seq<char>,
    plan: Seq<(SetupCall, Seq<char>)>,
    replies: Seq<KernelReply>,
) -> Seq<SetupStep> {
    Seq::new(replies.len(), |i: int| (plan[i].0, name, replies[i]))
}

/// How planned calls are carried out, one behind the other. The first that fails ends it.
pub open spec fn carried_out(
    from: Seq<SetupStep>,
    to: Seq<SetupStep>,
    name: Seq<char>,
    plan: Seq<(SetupCall, Seq<char>)>,
    r: Result<(), AfXdpError>,
) -> bool {
    exists|replies: Seq<KernelReply>|
        to == from + #[trigger] steps_of(name, plan, replies) && replies.len() <= plan.len() && (
        forall|i: int| 0 <= i < replies.len() - 1 ==> (#[trigger] replies[i]).result == 0)
            && if replies.len() > 0 && replies.last().result != 0 {
            af_xdp::refused(
                r,
                AfXdpErrorText::Kernel(plan[replies.len() - 1].1, replies.last().errno),
            )
        } else {
            replies.len() == plan.len() && r is Ok
        }
}

fn carry_out<F: FnMut(SetupCall, &str) -> KernelReply>(
    kernel: &mut SetupKernel<F>,
    name: &str,
    steps: Vec<(SetupCall, &'static str)>,
) -> (r: Result<(), AfXdpError>)
    requires
        old(kernel).takes_all(),
    ensures
        final(kernel).takes_all(),
        carried_out(
            old(kernel).log(),
            final(kernel).log(),
            name@,
            step_views(steps@),
            r,
        ),
{
    let ghost plan = step_views(steps@);
    let ghost mut replies: Seq<KernelReply> = Seq::empty();
    let ghost from = kernel.log();
    let mut i: usize = 0;
    proof {
        assert(from + steps_of(name@, plan, replies) =~= from);
    }
    while i < steps.len()
        invariant
            i <= steps@.len(),
            plan == step_views(steps@),
            kernel.takes_all(),
            kernel.log() == from + steps_of(name@, plan, replies),
            from == old(kernel).log(),
            replies.len() == i,
            forall|k: int| 0 <= k < i ==> (#[trigger] replies[k]).result == 0,
        decreases steps@.len() - i,
    {
        let (call, operation) = steps[i];
        let reply = kernel.ask(call, name);
        proof {
            assert(plan[i as int] == (call, operation@));
            let longer = replies.push(reply);
            assert(from + steps_of(name@, plan, longer) =~= (from + steps_of(
                name@,
                plan,
                replies,
            )).push((call, name@, reply)));
            replies = longer;
        }
        if reply.result != 0 {
            return Err(AfXdpError::Kernel { operation, errno: reply.errno });
        }
        i += 1;
    }
    Ok(())
}

/// How a socket is configured and bound.
pub open spec fn configured(
    from: Seq<SetupStep>,
    to: Seq<SetupStep>,
    name: Seq<char>,
    fd: i32,
    config: AfXdpConfig,
    umem: UmemRegion,
    r: Result<(), AfXdpError>,
) -> bool {
    exists|reply: KernelReply|
        {
            let behind = #[trigger] from.push((SetupCall::FindInterface, name, reply));
            match index_of(reply) {
                Ok(index) => carried_out(
                    behind,
                    to,
                    name,
                    setup_plan(fd, index, config, umem),
                    r,
                ),
                Err(error) => af_xdp::refused(r, error) && to == behind,
            }
        }
}

fn configure<F: FnMut(SetupCall, &str) -> KernelReply>(
    kernel: &mut SetupKernel<F>,
    name: &str,
    fd: i32,
    config: AfXdpConfig,
    umem: &UmemRegion,
) -> (r: Result<(), AfXdpError>)
    requires
        old(kernel).takes_all(),
    ensures
        final(kernel).takes_all(),
        configured(old(kernel).log(), final(kernel).log(), name@, fd, config, *umem, r),
{
    let ghost from = kernel.log();
    let reply = kernel.ask(SetupCall::FindInterface, name);
    proof {
        assert(kernel.log() == from.push((SetupCall::FindInterface, name@, reply)));
    }
    match accept_interface_index(reply) {
        Ok(index) => carry_out(kernel, name, setup_steps(fd, index, config, umem)),
        Err(e) => Err(e),
    }
}

/// How a created socket is configured and bound. One that cannot be bound is closed, once; one
/// that can is not.
pub open spec fn bound_or_closed(
    from: Seq<SetupStep>,
    to: Seq<SetupStep>,
    name: Seq<char>,
    fd: i32,
    config: AfXdpConfig,
    umem: UmemRegion,
    r: Result<i32, AfXdpError>,
) -> bool {
    exists|middle: Seq<SetupStep>, done: Result<(), AfXdpError>| #[trigger]
        configured(from, middle, name, fd, config, umem, done) && match done {
            Ok(_) => r == Ok::<i32, AfXdpError>(fd) && to == middle,
            Err(e) => r == Err::<i32, AfXdpError>(e) && exists|reply: KernelReply|
                to == #[trigger] middle.push((SetupCall::Close { fd }, name, reply)),
        }
}

/// How a socket is created, configured and bound.
pub open spec fn opened(
    from: Seq<SetupStep>,
    to: Seq<SetupStep>,
    name: Seq<char>,
    config: AfXdpConfig,
    umem: UmemRegion,
    r: Result<i32, AfXdpError>,
) -> bool {
    exists|reply: KernelReply|
        {
            let behind = #[trigger] from.push((SetupCall::Open, name, reply));
            match socket::descriptor_of(reply, "socket"@, "socket fd exceeds c_int"@) {
                Ok(fd) => bound_or_closed(behind, to, name, fd, config, umem, r),
                Err(error) => af_xdp::refused(r, error) && to == behind,
            }
        }
}

/// Creates, configures and binds a socket and returns its file descriptor.
///
/// # Errors
///
/// Fails when the kernel fails. A socket that was created is then closed.
pub fn open_socket<F: FnMut(SetupCall, &str) -> KernelReply>(
    name: &str,
    config: AfXdpConfig,
    umem: &UmemRegion,
    kernel: &mut SetupKernel<F>,
) -> (r: Result<i32, AfXdpError>)
    requires
        old(kernel).takes_all(),
    ensures
        final(kernel).takes_all(),
        opened(old(kernel).log(), final(kernel).log(), name@, config, *umem, r),
{
    let ghost l0 = kernel.log();
    let reply = kernel.ask(SetupCall::Open, name);
    let ghost l1 = kernel.log();
    proof {
        assert(l1 == l0.push((SetupCall::Open, name@, reply)));
    }
    let fd: i32 = match accept_descriptor(reply, "socket", "socket fd exceeds c_int") {
        Ok(fd) => fd,
        Err(e) => {
            return Err(e);
        },
    };
    let done = configure(kernel, name, fd, config, umem);
    let ghost outcome = done;
    let ghost l2 = kernel.log();
    proof {
        assert(configured(l1, l2, name@, fd, config, *umem, outcome));
    }
    match done {
        Ok(_) => Ok(fd),
        Err(e) => {
            let closing = kernel.ask(SetupCall::Close { fd }, name);
            proof {
                assert(kernel.log() == l2.push((SetupCall::Close { fd }, name@, closing)));
            }
            Err(e)
        },
    }
}

// ------------------------------------------------------------------------ attaching a program

/// A program that is loaded and linked with an interface.
#[derive(Debug)]
pub struct XdpRedirectLink {
    /// The program.
    pub program_fd: i32,
    /// The link.
    pub link_fd: i32,
}

/// The number of the last error behind a call that failed and another one.
pub open spec fn last_error(failed: KernelReply, later: KernelReply) -> i32 {
    if later.result < 0 {
        later.errno
    } else {
        failed.errno
    }
}

/// How a loaded program is linked with an interface. One that the kernel does not link is
/// closed, and the number of the last error is read behind that.
pub open spec fn linked(
    from: Seq<SetupStep>,
    to: Seq<SetupStep>,
    name: Seq<char>,
    program_fd: i32,
    interface_index: u32,
    r: Result<XdpRedirectLink, AfXdpError>,
) -> bool {
    exists|reply: KernelReply|
        {
            let behind = #[trigger] from.push(
                (SetupCall::Link { program_fd, interface_index }, name, reply),
            );
            match socket::descriptor_of(
                reply,
                "bpf_link_create_xdp_redirect"@,
                "link fd exceeds c_int"@,
            ) {
                Ok(link_fd) => r == Ok::<XdpRedirectLink, AfXdpError>(
                    XdpRedirectLink { program_fd, link_fd },
                ) && to == behind,
                Err(AfXdpErrorText::Kernel(operation, _)) => exists|closed: KernelReply|
                    to == #[trigger] behind.push(
                        (SetupCall::Close { fd: program_fd }, name, closed),
                    ) && af_xdp::refused(
                        r,
                        AfXdpErrorText::Kernel(operation, last_error(reply, closed)),
                    ),
                Err(error) => af_xdp::refused(r, error) && to == behind,
            }
        }
}

/// How a program is loaded for an interface, and linked with it.
pub open spec fn loaded(
    from: Seq<SetupStep>,
    to: Seq<SetupStep>,
    name: Seq<char>,
    map_fd: i32,
    interface_index: u32,
    r: Result<XdpRedirectLink, AfXdpError>,
) -> bool {
    exists|reply: KernelReply|
        {
            let behind = #[trigger] from.push(
                (SetupCall::LoadProgram { map_fd, interface_index }, name, reply),
            );
            match socket::descriptor_of(
                reply,
                "bpf_prog_load_xdp_redirect"@,
                "program fd exceeds c_int"@,
            ) {
                Ok(program_fd) => linked(behind, to, name, program_fd, interface_index, r),
                Err(error) => af_xdp::refused(r, error) && to == behind,
            }
        }
}

/// How the interface is looked up, and a program loaded and linked with it.
pub open spec fn attached(
    from: Seq<SetupStep>,
    to: Seq<SetupStep>,
    name: Seq<char>,
    map_fd: i32,
    r: Result<XdpRedirectLink, AfXdpError>,
) -> bool {
    exists|found: KernelReply|
        {
            let behind = #[trigger] from.push((SetupCall::FindInterface, name, found));
            match index_of(found) {
                Ok(interface_index) => loaded(behind, to, name, map_fd, interface_index, r),
                Err(error) => af_xdp::refused(r, error) && to == behind,
            }
        }
}

/// Loads the program for a map and links it with an interface.
///
/// # Errors
///
/// Fails when there is no such interface and when the kernel fails. A program that the kernel
/// does not link is closed.
pub fn attach_program<F: FnMut(SetupCall, &str) -> KernelReply>(
    name: &str,
    map_fd: i32,
    kernel: &mut SetupKernel<F>,
) -> (r: Result<XdpRedirectLink, AfXdpError>)
    requires
        old(kernel).takes_all(),
    ensures
        final(kernel).takes_all(),
        attached(old(kernel).log(), final(kernel).log(), name@, map_fd, r),
{
    let ghost l0 = kernel.log();
    let found = kernel.ask(SetupCall::FindInterface, name);
    let ghost l1 = kernel.log();
    proof {
        assert(l1 == l0.push((SetupCall::FindInterface, name@, found)));
    }
    let interface_index: u32 = match accept_interface_index(found) {
        Ok(index) => index,
        Err(e) => {
            return Err(e);
        },
    };
    let load = SetupCall::LoadProgram { map_fd, interface_index };
    let answer = kernel.ask(load, name);
    let ghost l2 = kernel.log();
    proof {
        assert(l2 == l1.push((load, name@, answer)));
    }
    let program_fd: i32 = match accept_descriptor(
        answer,
        "bpf_prog_load_xdp_redirect",
        "program fd exceeds c_int",
    ) {
        Ok(fd) => fd,
        Err(e) => {
            proof {
                let r = Err::<XdpRedirectLink, AfXdpError>(e);
                assert(loaded(l1, l2, name@, map_fd, interface_index, r));
            }
            return Err(e);
        },
    };
    let r = link_program(name, program_fd, interface_index, kernel);
    proof {
        assert(linked(l2, kernel.log(), name@, program_fd, interface_index, r));
        assert(loaded(l1, kernel.log(), name@, map_fd, interface_index, r));
    }
    r
}

fn link_program<F: FnMut(SetupCall, &str) -> KernelReply>(
    name: &str,
    program_fd: i32,
    interface_index: u32,
    kernel: &mut SetupKernel<F>,
) -> (r: Result<XdpRedirectLink, AfXdpError>)
    requires
        old(kernel).takes_all(),
    ensures
        final(kernel).takes_all(),
        linked(old(kernel).log(), final(kernel).log(), name@, program_fd, interface_index, r),
{
    let ghost l0 = kernel.log();
    let link = SetupCall::Link { program_fd, interface_index };
    let reply = kernel.ask(link, name);
    let ghost l1 = kernel.log();
    proof {
        assert(l1 == l0.push((link, name@, reply)));
    }
    match accept_descriptor(reply, "bpf_link_create_xdp_redirect", "link fd exceeds c_int") {
        Ok(link_fd) => Ok(XdpRedirectLink { program_fd, link_fd }),
        Err(e) => {
            if let AfXdpError::Kernel { operation, .. } = e {
                let close = SetupCall::Close { fd: program_fd };
                let closed = kernel.ask(close, name);
                proof {
                    assert(kernel.log() == l1.push((close, name@, closed)));
                }
                let errno: i32 = if closed.result < 0 {
                    closed.errno
                } else {
                    reply.errno
                };
                return Err(AfXdpError::Kernel { operation, errno });
            }
            Err(e)
        },
    }
}

// ------------------------------------------------------------------------------ mapping rings

/// What is asked of the kernel to map a ring.
#[derive(Clone, Copy, Debug)]
pub struct RingRequest {
    /// How a failure is called.
    pub operation: &'static str,
    /// The entries of the ring.
    pub entries: u32,
    /// Where the parts of the ring are.
    pub offsets: XdpRingOffset,
    /// The bytes to map.
    pub length: usize,
    /// Where the ring is among what the kernel maps.
    pub page_offset: i64,
}

/// A call that maps or unmaps a ring.
#[derive(Clone, Copy, Debug)]
pub enum MapCall {
    /// Maps a ring of a socket; returns where, or nothing where the kernel fails.
    Share {
        /// The socket.
        fd: i32,
        /// The ring.
        request: RingRequest,
    },
    /// Unmaps a ring.
    Release {
        /// Where it is mapped.
        address: usize,
        /// Its bytes.
        length: usize,
    },
}

/// What the kernel answered to such a call.
#[derive(Clone, Copy, Debug, PartialEq, Eq, Structural)]
pub struct MapReply {
    /// Where the ring is mapped, if it is.
    pub address: Option<usize>,
    /// The number of the last error.
    pub errno: i32,
}

/// A ring that is mapped.
#[derive(Clone, Copy, Debug)]
pub struct MappedRing {
    /// Where.
    pub address: usize,
    /// How.
    pub request: RingRequest,
}

/// The rings of a socket, mapped.
#[derive(Clone, Copy, Debug)]
pub struct MappedRings {
    /// The ring of received packets.
    pub rx: MappedRing,
    /// The ring of packets to send.
    pub tx: MappedRing,
    /// The ring of free frames.
    pub fill: MappedRing,
    /// The ring of sent frames.
    pub completion: MappedRing,
}

impl MappedRings {
    /// The rings, in the order in which they are mapped.
    pub open spec fn all(self) -> Seq<MappedRing> {
        seq![self.rx, self.tx, self.fill, self.completion]
    }
}

/// A ring that is to be mapped: what its failure is called, its entries, where its parts are
/// and where it is among what the kernel maps.
pub type RingPlan = (Seq<char>, u32, XdpRingOffset, i64);

/// The rings that are to be mapped, in their order.
pub open spec fn ring_plans(config: AfXdpConfig, offsets: XdpMmapOffsets) -> Seq<RingPlan> {
    seq![
        ("mmap_rx_ring"@, config.rx_ring_size, offsets.rx, 0i64),
        ("mmap_tx_ring"@, config.tx_ring_size, offsets.tx, 0x8000_0000i64),
        ("mmap_fill_ring"@, config.fill_ring_size, offsets.fill, 0x1_0000_0000i64),
        (
            "mmap_completion_ring"@,
            config.completion_ring_size,
            offsets.completion,
            0x1_8000_0000i64,
        ),
    ]
}

/// Whether a request to map a ring is the planned one.
pub open spec fn is_ring_request(request: RingRequest, plan: RingPlan) -> bool {
    &&& request.operation@ == plan.0
    &&& request.entries == plan.1
    &&& request.offsets == plan.2
    &&& request.page_offset == plan.3
    &&& socket::mapping_length(plan.1, plan.2) == Ok::<int, Seq<char>>(request.length as int)
}

/// A call that maps or unmaps a ring, and the answer.
pub type MapStep = (MapCall, MapReply);

/// How a ring is mapped as planned: it is too long, or the kernel is asked once.
pub open spec fn mapped_by(
    from: Seq<MapStep>,
    to: Seq<MapStep>,
    fd: i32,
    plan: RingPlan,
    r: Result<MappedRing, AfXdpError>,
) -> bool {
    match socket::mapping_length(plan.1, plan.2) {
        Err(message) => af_xdp::refused(r, AfXdpErrorText::InvalidConfig(message)) && to == from,
        Ok(_) => exists|request: RingRequest, reply: MapReply|
            to == #[trigger] from.push((MapCall::Share { fd, request }, reply))
                && is_ring_request(request, plan) && match reply.address {
                None => af_xdp::refused(r, AfXdpErrorText::Kernel(plan.0, reply.errno)),
                Some(address) => if address == 0 {
                    af_xdp::refused(r, AfXdpErrorText::Kernel(plan.0, 0))
                } else {
                    r == Ok::<MappedRing, AfXdpError>(MappedRing { address, request })
                },
            },
    }
}

/// Whether rings were mapped as planned, one behind the other. The path gives the calls before
/// each of them and behind the last.
pub open spec fn mapped_along(
    path: Seq<Seq<MapStep>>,
    fd: i32,
    plans: Seq<RingPlan>,
    rings: Seq<MappedRing>,
) -> bool {
    &&& path.len() == rings.len() + 1
    &&& rings.len() <= plans.len()
    &&& forall|i: int|
        #![trigger rings[i]]
        0 <= i < rings.len() ==> mapped_by(
            path[i],
            path[i + 1],
            fd,
            plans[i],
            Ok::<MappedRing, AfXdpError>(rings[i]),
        )
}

/// The calls that unmap rings, with their answers.
pub open spec fn releases(rings: Seq<MappedRing>, replies: Seq<MapReply>) -> Seq<MapStep> {
    Seq::new(
        replies.len(),
        |i: int|
            (
                MapCall::Release { address: rings[i].address, length: rings[i].request.length },
                replies[i],
            ),
    )
}

/// How rings were mapped until one could not be. Those before it are unmapped, each once.
pub open spec fn mapping_undone(
    path: Seq<Seq<MapStep>>,
    to: Seq<MapStep>,
    fd: i32,
    plans: Seq<RingPlan>,
    rings: Seq<MappedRing>,
    e: AfXdpError,
) -> bool {
    &&& mapped_along(path, fd, plans, rings)
    &&& rings.len() < plans.len()
    &&& exists|failed: Seq<MapStep>, replies: Seq<MapReply>|
        mapped_by(
            path.last(),
            failed,
            fd,
            plans[rings.len() as int],
            Err::<MappedRing, AfXdpError>(e),
        ) && replies.len() == rings.len() && to == #[trigger] (failed + releases(rings, replies))
}

/// How rings are mapped, one behind the other. Where all could be mapped, none is unmapped.
pub open spec fn all_mapped(
    from: Seq<MapStep>,
    to: Seq<MapStep>,
    fd: i32,
    plans: Seq<RingPlan>,
    r: Result<MappedRings, AfXdpError>,
) -> bool {
    match r {
        Ok(rings) => exists|path: Seq<Seq<MapStep>>| #[trigger]
            mapped_along(path, fd, plans, rings.all()) && path[0] == from && path.last() == to,
        Err(e) => exists|path: Seq<Seq<MapStep>>, rings: Seq<MappedRing>| #[trigger]
            mapping_undone(path, to, fd, plans, rings, e) && path[0] == from,
    }
}

/// A ring that is to be mapped.
#[derive(Clone, Copy, Debug)]
struct RingWish {
    operation: &'static str,
    entries: u32,
    offsets: XdpRingOffset,
    page_offset: i64,
}

spec fn wish_view(wish: RingWish) -> RingPlan {
    (wish.operation@, wish.entries, wish.offsets, wish.page_offset)
}

fn map_one<F: FnMut(MapCall) -> MapReply>(
    kernel: &mut Recorder<F, MapCall, MapReply>,
    fd: i32,
    wish: RingWish,
) -> (r: Result<MappedRing, AfXdpError>)
    requires
        old(kernel).takes_all(),
    ensures
        final(kernel).takes_all(),
        mapped_by(old(kernel).log(), final(kernel).log(), fd, wish_view(wish), r),
{
    let ghost from = kernel.log();
    let length: usize = match ring_mapping_length(wish.entries, wish.offsets) {
        Ok(length) => length,
        Err(e) => {
            return Err(e);
        },
    };
    let request = RingRequest {
        operation: wish.operation,
        entries: wish.entries,
        offsets: wish.offsets,
        length,
        page_offset: wish.page_offset,
    };
    let reply = kernel.ask(MapCall::Share { fd, request });
    proof {
        assert(kernel.log() == from.push((MapCall::Share { fd, request }, reply)));
        assert(is_ring_request(request, wish_view(wish)));
    }
    match reply.address {
        None => Err(AfXdpError::Kernel { operation: wish.operation, errno: reply.errno }),
        Some(address) => if address == 0 {
            Err(AfXdpError::Kernel { operation: wish.operation, errno: 0 })
        } else {
            Ok(MappedRing { address, request })
        },
    }
}

fn unmap_all<F: FnMut(MapCall) -> MapReply>(
    kernel: &mut Recorder<F, MapCall, MapReply>,
    rings: &Vec<MappedRing>,
) -> (replies: Ghost<Seq<MapReply>>)
    requires
        old(kernel).takes_all(),
    ensures
        final(kernel).takes_all(),
        replies@.len() == rings@.len(),
        final(kernel).log() == old(kernel).log() + releases(rings@, replies@),
{
    let ghost from = kernel.log();
    let ghost mut replies: Seq<MapReply> = Seq::empty();
    let mut i: usize = 0;
    proof {
        assert(from + releases(rings@, replies) =~= from);
    }
    while i < rings.len()
        invariant
            i <= rings@.len(),
            kernel.takes_all(),
            from == old(kernel).log(),
            replies.len() == i,
            kernel.log() == from + releases(rings@, replies),
        decreases rings@.len() - i,
    {
        let ring = rings[i];
        let call = MapCall::Release { address: ring.address, length: ring.request.length };
        let reply = kernel.ask(call);
        proof {
            let longer = replies.push(reply);
            assert(from + releases(rings@, longer) =~= (from + releases(rings@, replies)).push(
                (call, reply),
            ));
            replies = longer;
        }
        i += 1;
    }
    Ghost(replies)
}

/// Maps the rings of a socket, in their order.
///
/// # Errors
///
/// Fails when a ring is too long and when the kernel fails. The rings that were mapped are
/// then unmapped.
pub fn map_all<F: FnMut(MapCall) -> MapReply>(
    fd: i32,
    config: AfXdpConfig,
    offsets: XdpMmapOffsets,
    kernel: &mut Recorder<F, MapCall, MapReply>,
) -> (r: Result<MappedRings, AfXdpError>)
    requires
        old(kernel).takes_all(),
    ensures
        final(kernel).takes_all(),
        all_mapped(
            old(kernel).log(),
            final(kernel).log(),
            fd,
            ring_plans(config, offsets),
            r,
        ),
{
    let wishes = [
        RingWish {
            operation: "mmap_rx_ring",
            entries: config.rx_ring_size,
            offsets: offsets.rx,
            page_offset: 0,
        },
        RingWish {
            operation: "mmap_tx_ring",
            entries: config.tx_ring_size,
            offsets: offsets.tx,
            page_offset: 0x8000_0000,
        },
        RingWish {
            operation: "mmap_fill_ring",
            entries: config.fill_ring_size,
            offsets: offsets.fill,
            page_offset: 0x1_0000_0000,
        },
        RingWish {
            operation: "mmap_completion_ring",
            entries: config.completion_ring_size,
            offsets: offsets.completion,
            page_offset: 0x1_8000_0000,
        },
    ];
    let ghost plans = ring_plans(config, offsets);
    let ghost mut path: Seq<Seq<MapStep>> = seq![kernel.log()];
    let mut rings: Vec<MappedRing> = Vec::new();
    let mut i: usize = 0;
    while i < 4
        invariant
            i <= 4,
            wishes@.len() == 4,
            plans.len() == 4,
            forall|k: int| 0 <= k < 4 ==> wish_view(#[trigger] wishes@[k]) == plans[k],
            kernel.takes_all(),
            rings@.len() == i,
            mapped_along(path, fd, plans, rings@),
            path[0] == old(kernel).log(),
            path.last() == kernel.log(),
            plans == ring_plans(config, offsets),
        decreases 4 - i,
    {
        match map_one(kernel, fd, wishes[i]) {
            Ok(ring) => {
                rings.push(ring);
                proof {
                    path = path.push(kernel.log());
                    assert(mapped_along(path, fd, plans, rings@));
                }
            },
            Err(e) => {
                let ghost failed = kernel.log();
                let replies = unmap_all(kernel, &rings);
                proof {
                    assert(kernel.log() == failed + releases(rings@, replies@));
                    assert(mapping_undone(path, kernel.log(), fd, plans, rings@, e));
                }
                return Err(e);
            },
        }
        i += 1;
    }
    let r = MappedRings { rx: rings[0], tx: rings[1], fill: rings[2], completion: rings[3] };
    proof {
        assert(rings@ =~= r.all());
        assert(mapped_along(path, fd, ring_plans(config, offsets), r.all()));
        let done = Ok::<MappedRings, AfXdpError>(r);
        assert(done->Ok_0 == r);
        assert(all_mapped(
            old(kernel).log(),
            kernel.log(),
            fd,
            ring_plans(config, offsets),
            done,
        ));
    }
    Ok(r)
}

} // verus!
