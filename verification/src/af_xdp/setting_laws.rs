//! What holds of the settings of sockets, of how they are set up and of what the kernel answers.

use crate::af_xdp;
use crate::af_xdp::mapping;
use crate::af_xdp::mapping::{XdpDescriptor, XdpMmapOffsets, XdpRingOffset};
use crate::af_xdp::setup;
use crate::af_xdp::setup::SetupCall;
use crate::af_xdp::socket;
use crate::af_xdp::socket::{KernelReply, PollReply};
use crate::af_xdp::worker;
use crate::af_xdp::worker::RingKind;
use crate::af_xdp::{AfXdpConfig, AfXdpErrorText, UmemRegion};
use crate::dpdk::executor::Duration;
use crate::text;
use vstd::arithmetic::power2::*;
use vstd::prelude::*;
use vstd::utf8::encode_utf8;

verus! {

/// Whether a number is one of the powers of two from 1 to 2 to the power of 20.
pub open spec fn ring_size(n: u32) -> bool {
    exists|k: nat| k <= 20 && n == #[trigger] pow2(k)
}

/// A ring has a size exactly where that is one of the powers of two up to 1,048,576.
pub proof fn law_ring_sizes(n: u32)
    ensures
        af_xdp::valid_size(n) <==> ring_size(n),
{
    lemma2_to64();
    if af_xdp::valid_size(n) {
        let k = choose|k: nat| n as nat == #[trigger] pow2(k);
        if k > 20 {
            lemma_pow2_strictly_increases(20, k);
        }
        assert(n == pow2(k));
    }
    if ring_size(n) {
        let k = choose|k: nat| k <= 20 && n == #[trigger] pow2(k);
        lemma_pow2_pos(k);
        if k < 20 {
            lemma_pow2_strictly_increases(k, 20);
        }
        assert(n as nat == pow2(k));
    }
}

/// A configuration is valid exactly where all four rings have a size that a ring can have.
pub proof fn law_configurations(config: AfXdpConfig)
    ensures
        af_xdp::config_fault(config) is None <==> ring_size(config.rx_ring_size) && ring_size(
            config.tx_ring_size,
        ) && ring_size(config.fill_ring_size) && ring_size(config.completion_ring_size),
{
    law_ring_sizes(config.rx_ring_size);
    law_ring_sizes(config.tx_ring_size);
    law_ring_sizes(config.fill_ring_size);
    law_ring_sizes(config.completion_ring_size);
}

proof fn lemma_sign(c: char)
    ensures
        c as u32 == 0x2d <==> c == '-',
        c as u32 == 0x2e <==> c == '.',
        c as u32 == 0x5f <==> c == '_',
{
}

/// The name of an interface is safe exactly where it has one to 15 bytes of letters, digits,
/// underscores, hyphens and dots.
pub proof fn law_interface_names(name: Seq<char>)
    ensures
        af_xdp::safe_interface_name(name) <==> {
            &&& 0 < name.len()
            &&& encode_utf8(name).len() <= 15
            &&& forall|i: int|
                0 <= i < name.len() ==> {
                    let c = (#[trigger] name[i]) as u32;
                    0x30 <= c <= 0x39 || 0x41 <= c <= 0x5a || 0x61 <= c <= 0x7a || c == 0x2d || c
                        == 0x2e || c == 0x5f
                }
        },
{
    reveal_strlit("_-.");
    assert("_-."@[0] == '_' && "_-."@[1] == '-' && "_-."@[2] == '.');
    assert forall|c: char| #[trigger] "_-."@.contains(c) <==> (c as u32 == 0x2d || c as u32 == 0x2e
        || c as u32 == 0x5f) by {
        lemma_sign(c);
    }
    assert forall|i: int| 0 <= i < name.len() implies (text::is_alphanumeric(#[trigger] name[i])
        <==> {
        let c = name[i] as u32;
        0x30 <= c <= 0x39 || 0x41 <= c <= 0x5a || 0x61 <= c <= 0x7a
    }) by {}
}

/// A socket can be bound exactly on Linux, to an interface with a safe name, with rings of sizes
/// that they can have. The configuration is looked at first, then the name, then the platform.
pub proof fn law_what_can_be_bound(name: Seq<char>, config: AfXdpConfig, linux: bool)
    ensures
        socket::bind_fault(name, config, linux) is None <==> linux && af_xdp::safe_interface_name(
            name,
        ) && af_xdp::config_fault(config) is None,
        af_xdp::config_fault(config) is Some ==> socket::bind_fault(
            name,
            config,
            linux,
        ) matches Some(AfXdpErrorText::InvalidConfig(_)),
        af_xdp::config_fault(config) is None && !af_xdp::safe_interface_name(name)
            ==> socket::bind_fault(name, config, linux) matches Some(
            AfXdpErrorText::InvalidInterface(_),
        ),
        af_xdp::config_fault(config) is None && af_xdp::safe_interface_name(name) && !linux
            ==> socket::bind_fault(name, config, linux) == Some(
            AfXdpErrorText::UnsupportedPlatform,
        ),
{
}

/// Shared memory is made of whole pages and whole frames. A frame has a power of two of bytes
/// between 2048 and 65536, and room behind what is kept in front.
pub proof fn law_shared_memory(length: int, chunk_size: u32, headroom: u32)
    ensures
        af_xdp::valid_region(length, chunk_size, headroom) <==> {
            &&& 0 < length
            &&& length % 4096 == 0
            &&& length % (chunk_size as int) == 0
            &&& headroom < chunk_size
            &&& chunk_size == 2048 || chunk_size == 4096 || chunk_size == 8192 || chunk_size
                == 16384 || chunk_size == 32768 || chunk_size == 65536
        },
{
    lemma2_to64();
    if af_xdp::valid_region(length, chunk_size, headroom) {
        let k = choose|k: nat| chunk_size as nat == #[trigger] pow2(k);
        if k < 11 {
            lemma_pow2_strictly_increases(k, 11);
        }
        if k > 16 {
            lemma_pow2_strictly_increases(16, k);
        }
        assert(k == 11 || k == 12 || k == 13 || k == 14 || k == 15 || k == 16);
    }
    assert(pow2(11) == 2048 && pow2(12) == 4096 && pow2(13) == 8192 && pow2(14) == 16384 && pow2(15)
        == 32768 && pow2(16) == 65536);
}

// -------------------------------------------------------------------------------- the setup

/// How a socket is set up: the memory is registered as it is laid out, then the four rings get
/// the sizes of the configuration, and last the socket is bound to its queue, without copies
/// where they are ruled out.
pub proof fn law_setup_follows_the_configuration(
    fd: i32,
    interface_index: u32,
    config: AfXdpConfig,
    umem: UmemRegion,
)
    ensures
        ({
            let plan = setup::setup_plan(fd, interface_index, config, umem);
            &&& plan.len() == 6
            &&& plan[0].0 == SetupCall::RegisterMemory {
                fd,
                length: umem.bytes(),
                chunk_size: umem.chunk(),
                headroom: umem.room(),
            }
            &&& plan[0].1 == "setsockopt_umem"@
            &&& plan[1].0 == SetupCall::SetRing {
                fd,
                kind: RingKind::Rx,
                entries: config.rx_ring_size,
            }
            &&& plan[2].0 == SetupCall::SetRing {
                fd,
                kind: RingKind::Tx,
                entries: config.tx_ring_size,
            }
            &&& plan[3].0 == SetupCall::SetRing {
                fd,
                kind: RingKind::Fill,
                entries: config.fill_ring_size,
            }
            &&& plan[4].0 == SetupCall::SetRing {
                fd,
                kind: RingKind::Completion,
                entries: config.completion_ring_size,
            }
            &&& forall|i: int| 1 <= i <= 4 ==> (#[trigger] plan[i]).1 == "setsockopt_ring"@
            &&& config.require_zero_copy ==> plan[5] == (
                SetupCall::Bind { fd, interface_index, queue_id: config.queue_id, flags: 4 },
                "bind_zero_copy"@,
            )
            &&& !config.require_zero_copy ==> plan[5] == (
                SetupCall::Bind { fd, interface_index, queue_id: config.queue_id, flags: 0 },
                "bind"@,
            )
        }),
{
}

/// Which rings are mapped: those of received packets, of packets to send, of free and of sent
/// frames, each with its own size, parts and place.
pub proof fn law_rings_that_are_mapped(config: AfXdpConfig, offsets: XdpMmapOffsets)
    ensures
        setup::ring_plans(config, offsets) == seq![
            ("mmap_rx_ring"@, config.rx_ring_size, offsets.rx, 0i64),
            ("mmap_tx_ring"@, config.tx_ring_size, offsets.tx, 0x8000_0000i64),
            ("mmap_fill_ring"@, config.fill_ring_size, offsets.fill, 0x1_0000_0000i64),
            (
                "mmap_completion_ring"@,
                config.completion_ring_size,
                offsets.completion,
                0x1_8000_0000i64,
            ),
        ],
{
}

/// The memory of a ring is made of whole pages, holds sixteen bytes for every entry behind the
/// last part of the ring, and no page more than that needs.
pub proof fn law_memory_of_rings(entries: u32, offsets: XdpRingOffset)
    ensures
        socket::mapping_length(entries, offsets) matches Ok(n) ==> {
            &&& n % 4096 == 0
            &&& n >= offsets.producer + 16 * entries && n >= offsets.producer + 4
            &&& n >= offsets.consumer + 16 * entries && n >= offsets.consumer + 4
            &&& n >= offsets.descriptor + 16 * entries && n >= offsets.descriptor + 4
            &&& n >= offsets.flags + 16 * entries && n >= offsets.flags + 4
            &&& {
                ||| n < offsets.producer + 4096 + 16 * entries
                ||| n < offsets.consumer + 4096 + 16 * entries
                ||| n < offsets.descriptor + 4096 + 16 * entries
                ||| n < offsets.flags + 4096 + 16 * entries
                ||| entries == 0
            }
        },
{
}

/// Where the kernel looks an interface up, a positive number is its index; anything else means
/// that there is none.
pub proof fn law_interfaces_that_are_found(reply: KernelReply)
    ensures
        setup::index_of(reply) is Ok <==> 0 < reply.result <= 0xffff_ffff,
        setup::index_of(reply) matches Ok(index) ==> index == reply.result,
        setup::index_of(reply) is Err ==> setup::index_of(reply) == Err::<u32, AfXdpErrorText>(
            AfXdpErrorText::Kernel("if_nametoindex"@, reply.errno),
        ),
{
}

/// A descriptor that the kernel gave is not negative; a negative number is its failure.
pub proof fn law_descriptors_of_files(
    reply: KernelReply,
    operation: Seq<char>,
    too_large: Seq<char>,
)
    ensures
        socket::descriptor_of(reply, operation, too_large) is Ok <==> 0 <= reply.result
            <= 0x7fff_ffff,
        socket::descriptor_of(reply, operation, too_large) matches Ok(fd) ==> fd == reply.result,
        -0x8000_0000 <= reply.result < 0 ==> socket::descriptor_of(reply, operation, too_large)
            == Err::<i32, AfXdpErrorText>(AfXdpErrorText::Kernel(operation, reply.errno)),
{
}

// --------------------------------------------------------------------------------- the kernel

/// Time is rounded down to milliseconds and stops at the most that the kernel takes.
pub proof fn law_waiting_times(timeout: Duration)
    ensures
        ({
            let n = socket::milliseconds(timeout);
            let nanoseconds = timeout.seconds * 1_000_000_000 + timeout.nanoseconds;
            &&& 0 <= n <= 0x7fff_ffff
            &&& n * 1_000_000 <= nanoseconds
            &&& n < 0x7fff_ffff ==> nanoseconds < (n + 1) * 1_000_000
        }),
{
}

/// What waiting came to: it failed where the kernel says so or the socket has an error; packets
/// wait where the kernel says that there is something to read.
pub proof fn law_outcomes_of_waiting(reply: PollReply)
    ensures
        reply.result < 0 ==> socket::poll_outcome(reply) == Err::<bool, AfXdpErrorText>(
            AfXdpErrorText::Kernel("poll"@, reply.errno),
        ),
        reply.result == 0 ==> socket::poll_outcome(reply) == Ok::<bool, AfXdpErrorText>(false),
        reply.result > 0 && reply.events & 0x18 != 0 ==> socket::poll_outcome(reply) == Err::<
            bool,
            AfXdpErrorText,
        >(AfXdpErrorText::Kernel("poll_error"@, reply.errno)),
        reply.result > 0 && reply.events & 0x18 == 0 ==> socket::poll_outcome(reply) == Ok::<
            bool,
            AfXdpErrorText,
        >(reply.events & 0x01 != 0),
{
}

/// The program that hands packets over: it loads the queue of the packet, the map, and lets the
/// kernel hand the packet to the socket of that queue.
pub proof fn law_redirect_program(map_fd: i32)
    ensures
        ({
            let p = socket::redirect_program(map_fd);
            &&& p.len() == 5
            &&& p[0].code == 0x61 && p[0].regs == 0x12 && p[0].off == 16 && p[0].imm == 0
            &&& p[1].code == 0x18 && p[1].regs == 0x11 && p[1].off == 0 && p[1].imm == map_fd
            &&& p[2].code == 0 && p[2].regs == 0 && p[2].off == 0 && p[2].imm == 0
            &&& p[3].code == 0x85 && p[3].regs == 0 && p[3].off == 0 && p[3].imm == 51
            &&& p[4].code == 0x95 && p[4].regs == 0 && p[4].off == 0 && p[4].imm == 0
        }),
{
}

/// A descriptor is handed over only where all its bytes lie in the shared memory and fit a
/// frame.
pub proof fn law_descriptors_lie_in_memory(umem: UmemRegion, d: XdpDescriptor)
    ensures
        mapping::bounds_fault(Some(umem), d) is None <==> d.address + d.length <= umem.bytes()
            && d.length <= umem.chunk(),
{
}

/// Each free frame is described by where it begins, which is behind the one before it.
pub proof fn law_free_frames(umem: UmemRegion, indices: Seq<u64>, i: int)
    requires
        0 <= i < indices.len(),
    ensures
        worker::frames_of(umem, indices).len() == indices.len(),
        worker::frames_of(umem, indices)[i] is Ok <==> indices[i] < umem.bytes() as int
            / umem.chunk() as int,
        worker::frames_of(umem, indices)[i] matches Ok(d) ==> d.length == 0 && d.options == 0
            && d.address == (indices[i] * umem.chunk()) as u64,
{
}

/// All frames are given to the kernel, each once and from the first on.
pub proof fn law_all_frames(n: nat)
    requires
        n <= 0xffff_ffff,
    ensures
        socket::all_frames(n).len() == n,
        forall|i: int| 0 <= i < n ==> #[trigger] socket::all_frames(n)[i] == i,
{
}

/// A ring that was mapped was asked for once, with its entries, parts and place, and lies where
/// the kernel said, which is not at zero.
pub proof fn law_mapped_rings(
    from: Seq<setup::MapStep>,
    to: Seq<setup::MapStep>,
    fd: i32,
    plan: setup::RingPlan,
    ring: setup::MappedRing,
)
    requires
        setup::mapped_by(from, to, fd, plan, Ok(ring)),
    ensures
        to.len() == from.len() + 1,
        to.take(from.len() as int) == from,
        to.last().0 == (setup::MapCall::Share { fd, request: ring.request }),
        to.last().1.address == Some(ring.address),
        ring.address != 0,
        ring.request.operation@ == plan.0,
        ring.request.entries == plan.1,
        ring.request.offsets == plan.2,
        ring.request.page_offset == plan.3,
{
    assert(to.take(from.len() as int) =~= from);
}

/// Where a ring cannot be mapped, those before it are unmapped: each once, where it lies and as
/// long as it is.
pub proof fn law_undone_mappings(
    path: Seq<Seq<setup::MapStep>>,
    to: Seq<setup::MapStep>,
    fd: i32,
    plans: Seq<setup::RingPlan>,
    rings: Seq<setup::MappedRing>,
    e: af_xdp::AfXdpError,
    i: int,
)
    requires
        setup::mapping_undone(path, to, fd, plans, rings, e),
        0 <= i < rings.len(),
    ensures
        rings.len() < plans.len(),
        path.last().len() + rings.len() <= to.len() <= path.last().len() + rings.len() + 1,
        to[to.len() - rings.len() + i].0 == (setup::MapCall::Release {
            address: rings[i].address,
            length: rings[i].request.length,
        }),
{
    let (failed, replies) = choose|
        failed: Seq<setup::MapStep>,
        replies: Seq<setup::MapReply>,
    |
        setup::mapped_by(
            path.last(),
            failed,
            fd,
            plans[rings.len() as int],
            Err::<setup::MappedRing, af_xdp::AfXdpError>(e),
        ) && replies.len() == rings.len() && to == #[trigger] (failed + setup::releases(
            rings,
            replies,
        ));
    assert(to == failed + setup::releases(rings, replies));
    assert(to[to.len() - rings.len() + i] == setup::releases(rings, replies)[i]);
}

} // verus!
