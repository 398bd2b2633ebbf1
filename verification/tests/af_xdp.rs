use nettool::af_xdp::kernel::{SetupKernel, TxKick, TxKicker};
use nettool::af_xdp::mapping::{XdpDescriptor, XdpMmapOffsets, XdpRingMapping, XdpRingOffset};
use nettool::af_xdp::setup::{
    accept_interface_index, MapCall, MapReply, MappedRings, SetupCall, XdpRedirectLink,
};
use nettool::af_xdp::socket::{
    accept_descriptor, poll_timeout, redirect_instructions, ring_mapping_length, AfXdpSocket,
    KernelReply, OffsetsReply, PollReply, XskMap, XDP_ZEROCOPY,
};
use nettool::af_xdp::worker::{AfXdpWorker, RingKind, XdpRingMappings};
use nettool::af_xdp::{
    is_backend_built, validate_interface_name, AfXdpConfig, AfXdpError, FrameDescriptor,
    FrameRing, UmemRegion,
};
use nettool::dpdk::executor::Duration;
use nettool::record::Recorder;

#[test]
fn validates_ring_sizes_and_interface_names() {
    assert!(AfXdpConfig {
        rx_ring_size: 1000,
        ..AfXdpConfig::default()
    }
    .validate()
    .is_err());
    assert!(validate_interface_name("eth0;id").is_err());
    assert!(validate_interface_name("eth0").is_ok());
    let umem = UmemRegion::new(2 * 1024 * 1024, 2048, 256).expect("UMEM");
    assert_eq!(umem.length(), 2 * 1024 * 1024);
    assert!(UmemRegion::new(1024, 2048, 0).is_err());
    assert_eq!(
        umem.frame_descriptor(3, 1500).expect("frame").offset,
        3 * 2048 + 256
    );
    assert!(umem.frame_descriptor(1024, 64).is_err());
    let mut ring = FrameRing::new(2).expect("ring");
    let first = umem.frame_descriptor(0, 64).expect("frame");
    let second = umem.frame_descriptor(1, 64).expect("frame");
    assert!(ring.try_push(first));
    assert!(ring.try_push(second));
    assert!(!ring.try_push(first));
    assert_eq!(ring.len(), 2);
    assert_eq!(ring.try_pop(), Some(first));
    assert_eq!(ring.try_pop(), Some(second));
    assert!(ring.is_empty());
}

#[test]
fn redirect_program_uses_queue_key_and_redirect_helper() {
    let instructions = redirect_instructions(42);
    assert_eq!(instructions.len(), 5);
    assert_eq!(instructions[0].code, 0x61);
    assert_eq!(instructions[0].off, 16);
    assert_eq!(instructions[1].code, 0x18);
    assert_eq!(instructions[1].imm, 42);
    assert_eq!(instructions[3].code, 0x85);
    assert_eq!(instructions[3].imm, 51);
    assert_eq!(instructions[4].code, 0x95);
}

#[test]
fn non_linux_bind_is_explicitly_unsupported() {
    assert_eq!(
        AfXdpSocket::bind(
            "eth0",
            AfXdpConfig::default(),
            &UmemRegion::new(2 * 1024 * 1024, 2048, 256).expect("UMEM"),
            false,
            &mut SetupKernel::new(|_, _: &str| panic!("a call")),
        )
        .unwrap_err(),
        AfXdpError::UnsupportedPlatform
    );
}

#[test]
fn config_errors_name_the_ring() {
    let config = AfXdpConfig {
        tx_ring_size: 2_097_152,
        ..AfXdpConfig::default()
    };
    assert_eq!(
        config.validate().unwrap_err().to_text(),
        "AF_XDP.INVALID_CONFIG: tx_ring_size must be a power-of-two between 1 and 1048576"
    );
    assert_eq!(
        AfXdpError::Kernel {
            operation: "bind",
            errno: -22
        }
        .to_text(),
        "AF_XDP.bind_FAILED: errno=-22"
    );
    assert_eq!(
        AfXdpError::UnsupportedPlatform.to_text(),
        "AF_XDP.UNSUPPORTED_PLATFORM"
    );
    assert_eq!(
        validate_interface_name("").unwrap_err().to_text(),
        "AF_XDP.INVALID_INTERFACE: interface name contains unsupported characters"
    );
    assert!(validate_interface_name("a23456789012345").is_ok());
    assert!(validate_interface_name("a234567890123456").is_err());
    assert!(is_backend_built(true));
    assert!(!is_backend_built(false));
}

fn reply(result: i64) -> KernelReply {
    KernelReply { result, errno: 0 }
}

fn failure(errno: i32) -> KernelReply {
    KernelReply { result: -1, errno }
}

/// Binds a socket with file descriptor 9 to interface 2; `failing` fails.
fn bind(
    config: AfXdpConfig,
    failing: Option<SetupCall>,
) -> (Result<i32, AfXdpError>, Vec<SetupCall>) {
    let umem = UmemRegion::new(2 * 1024 * 1024, 2048, 256).expect("UMEM");
    let mut calls = Vec::new();
    let mut kernel = SetupKernel::new(|call, name: &str| {
        assert_eq!(name, "eth0");
        calls.push(call);
        if failing == Some(call) {
            return match call {
                SetupCall::FindInterface => KernelReply {
                    result: 0,
                    errno: 19,
                },
                _ => failure(22),
            };
        }
        match call {
            SetupCall::Open => reply(9),
            SetupCall::FindInterface => reply(2),
            _ => reply(0),
        }
    });
    let result = AfXdpSocket::bind("eth0", config, &umem, true, &mut kernel)
        .map(|socket| socket.raw_fd());
    (result, calls)
}

#[test]
fn bind_hands_the_kernel_what_was_configured() {
    let (result, calls) = bind(AfXdpConfig::default(), None);
    assert_eq!(result, Ok(9));
    let ring = |kind, entries| SetupCall::SetRing {
        fd: 9,
        kind,
        entries,
    };
    let default = AfXdpConfig::default();
    assert_eq!(
        calls,
        vec![
            SetupCall::Open,
            SetupCall::FindInterface,
            SetupCall::RegisterMemory {
                fd: 9,
                length: 2 * 1024 * 1024,
                chunk_size: 2048,
                headroom: 256
            },
            ring(RingKind::Rx, default.rx_ring_size),
            ring(RingKind::Tx, default.tx_ring_size),
            ring(RingKind::Fill, 2048),
            ring(RingKind::Completion, default.completion_ring_size),
            SetupCall::Bind {
                fd: 9,
                interface_index: 2,
                queue_id: default.queue_id,
                flags: XDP_ZEROCOPY
            },
        ]
    );
}

#[test]
fn sockets_that_cannot_be_bound_are_closed() {
    let copying = AfXdpConfig {
        require_zero_copy: false,
        ..AfXdpConfig::default()
    };
    let binding = |flags| SetupCall::Bind {
        fd: 9,
        interface_index: 2,
        queue_id: 0,
        flags,
    };
    let filling = SetupCall::SetRing {
        fd: 9,
        kind: RingKind::Fill,
        entries: 2048,
    };
    for (config, call, operation, errno, count) in [
        (copying, binding(0), "bind", 22, 8),
        (
            AfXdpConfig::default(),
            binding(XDP_ZEROCOPY),
            "bind_zero_copy",
            22,
            8,
        ),
        (AfXdpConfig::default(), filling, "setsockopt_ring", 22, 6),
        (
            AfXdpConfig::default(),
            SetupCall::FindInterface,
            "if_nametoindex",
            19,
            2,
        ),
    ] {
        let (result, calls) = bind(config, Some(call));
        assert_eq!(result, Err(AfXdpError::Kernel { operation, errno }));
        assert_eq!(calls.len(), count + 1);
        assert_eq!(calls.last(), Some(&SetupCall::Close { fd: 9 }));
    }
    let (result, calls) = bind(AfXdpConfig::default(), Some(SetupCall::Open));
    assert_eq!(
        result,
        Err(AfXdpError::Kernel {
            operation: "socket",
            errno: 22
        })
    );
    assert_eq!(calls, vec![SetupCall::Open]);
}

#[test]
fn frame_rings_keep_their_order_around_the_end() {
    let mut ring = FrameRing::new(4).expect("ring");
    let mut expected = 0_u64;
    for n in 0..20_u64 {
        assert!(ring.try_push(FrameDescriptor {
            offset: n,
            length: 1
        }));
        if n % 4 == 3 {
            while let Some(d) = ring.try_pop() {
                assert_eq!(d.offset, expected);
                expected += 1;
            }
        }
    }
    assert_eq!(expected, 20);
    assert_eq!(ring.try_pop(), None);
    assert!(FrameRing::new(3).is_err());
    assert!(FrameRing::new(0).is_err());
}

const OFFSETS: XdpRingOffset = XdpRingOffset {
    producer: 0,
    consumer: 64,
    descriptor: 128,
    flags: 192,
};

fn ring(entries: u32) -> XdpRingMapping {
    XdpRingMapping::new(vec![0; 4096], OFFSETS, entries)
}

fn worker() -> AfXdpWorker {
    let umem = UmemRegion::new(16384, 2048, 256).expect("UMEM");
    AfXdpWorker::new(
        XdpRingMappings {
            rx: ring(4),
            tx: ring(4),
            fill: ring(4),
            completion: ring(4),
        },
        umem,
    )
    .expect("worker")
}

fn descriptor(address: u64, options: u32) -> XdpDescriptor {
    XdpDescriptor {
        address,
        length: 64,
        options,
    }
}

#[test]
fn descriptors_and_counters_read_back() {
    let mut mapping = ring(4);
    mapping.publish_producer(7).expect("producer");
    mapping.publish_consumer(5).expect("consumer");
    assert_eq!(mapping.producer_index(), Ok(7));
    assert_eq!(mapping.consumer_index(), Ok(5));
    let d = XdpDescriptor {
        address: 0x0102_0304_0506_0708,
        length: 0x0a0b_0c0d,
        options: 2,
    };
    mapping.write_descriptor(3, d).expect("write");
    assert_eq!(mapping.read_descriptor(3), Ok(d));
    assert_eq!(&mapping.bytes()[176..180], &[0x08, 0x07, 0x06, 0x05]);
    assert_eq!(
        mapping.read_descriptor(4).unwrap_err(),
        AfXdpError::InvalidConfig("descriptor slot exceeds ring capacity".to_owned())
    );
    let short = XdpRingMapping::new(vec![0; 130], OFFSETS, 4);
    assert_eq!(
        short.read_descriptor(0).unwrap_err(),
        AfXdpError::InvalidConfig("descriptor exceeds mapping".to_owned())
    );
    let tiny = XdpRingMapping::new(vec![0; 66], OFFSETS, 4);
    assert_eq!(
        tiny.consumer_index().unwrap_err(),
        AfXdpError::InvalidConfig("ring index offset exceeds mapping".to_owned())
    );
}

struct Kicks(Vec<u32>);

impl TxKick for Kicks {
    fn kick(&mut self, ring: &XdpRingMapping) -> Result<(), AfXdpError> {
        self.0.push(ring.producer_index()?);
        Ok(())
    }
}

#[test]
fn what_is_submitted_is_what_the_other_side_reads() {
    let mut worker = worker();
    let packets = [
        descriptor(256, 0),
        descriptor(2304, 0),
        descriptor(4352, 0),
        descriptor(6400, 0),
        descriptor(8448, 0),
    ];
    assert_eq!(worker.submit_tx(&packets), Ok(4));
    assert_eq!(worker.submit_tx(&packets), Ok(0));
    let other_side = XdpRingMapping::new(worker.bytes(RingKind::Tx).to_vec(), OFFSETS, 4);
    assert_eq!(other_side.producer_index(), Ok(4));
    for slot in 0..4 {
        assert_eq!(other_side.read_descriptor(slot), Ok(packets[slot as usize]));
    }
    // The other side takes two of them; then there is room for two more.
    let mut bytes = worker.bytes(RingKind::Tx).to_vec();
    bytes[64] = 2;
    worker.refresh(RingKind::Tx, bytes);
    let mut kicker = TxKicker::new(Kicks(Vec::new()));
    let count = worker.submit_tx_and_kick(&mut kicker, &packets);
    assert_eq!(count, Ok(2));
    // The kernel is told once, when the counter stands behind the new packets.
    assert_eq!(kicker.inner().0, [6]);
    assert_eq!(worker.submit_tx_and_kick(&mut kicker, &packets), Ok(0));
    assert_eq!(kicker.inner().0, [6]);
    let outside = [descriptor(u64::MAX, 0)];
    let mut bytes = worker.bytes(RingKind::Tx).to_vec();
    bytes[64] = 6;
    worker.refresh(RingKind::Tx, bytes);
    assert!(worker.submit_tx_and_kick(&mut kicker, &outside).is_err());
    assert_eq!(kicker.inner().0, [6]);
}

#[test]
fn packets_outside_the_memory_are_refused() {
    let mut worker = worker();
    assert_eq!(
        worker.submit_tx(&[descriptor(16384, 0)]).unwrap_err(),
        AfXdpError::InvalidConfig("descriptor exceeds UMEM bounds".to_owned())
    );
    assert_eq!(
        worker.submit_tx(&[descriptor(u64::MAX, 0)]).unwrap_err(),
        AfXdpError::InvalidConfig("descriptor address overflows".to_owned())
    );
    assert_eq!(
        worker.refill_fill(&[8]).unwrap_err(),
        AfXdpError::InvalidConfig("UMEM frame index exceeds region bounds".to_owned())
    );
    assert_eq!(worker.refill_fill(&[0, 1, 7]), Ok(3));
    let fill = XdpRingMapping::new(worker.bytes(RingKind::Fill).to_vec(), OFFSETS, 4);
    assert_eq!(fill.read_descriptor(2).expect("frame").address, 7 * 2048);
}

fn received(descriptors: &[XdpDescriptor], first: u32) -> Vec<u8> {
    let mut mapping = ring(4);
    let mut slot = first;
    for d in descriptors {
        mapping.write_descriptor(slot % 4, *d).expect("write");
        slot = slot.wrapping_add(1);
    }
    mapping.publish_consumer(first).expect("consumer");
    mapping.publish_producer(slot).expect("producer");
    mapping.bytes().to_vec()
}

#[test]
fn received_packets_are_taken_in_order_and_once() {
    let mut worker = worker();
    let packets = [descriptor(0, 0), descriptor(2048, 0), descriptor(4096, 0)];
    worker.refresh(RingKind::Rx, received(&packets, u32::MAX - 1));
    let mut output = [descriptor(1, 9); 2];
    assert_eq!(worker.receive_into(&mut output), Ok(2));
    assert_eq!(output, [packets[0], packets[1]]);
    assert_eq!(worker.receive_once(|| Ok(true), &mut output), Ok(1));
    assert_eq!(output, [packets[2], packets[1]]);
    assert_eq!(worker.receive_into(&mut output), Ok(0));
    assert_eq!(worker.receive_once(|| Ok(false), &mut output), Ok(0));
    assert_eq!(
        worker.receive_once(|| Err(AfXdpError::UnsupportedPlatform), &mut output),
        Err(AfXdpError::UnsupportedPlatform)
    );
}

#[test]
fn jumbo_packets_are_taken_as_a_whole_or_not_at_all() {
    let mut worker = worker();
    let parts = [descriptor(0, 2), descriptor(2048, 2), descriptor(4096, 0)];
    worker.refresh(RingKind::Rx, received(&parts[..2], 3));
    let mut output = [descriptor(1, 9); 3];
    assert_eq!(worker.receive_packet_into(&mut output), Ok(0));
    worker.refresh(RingKind::Rx, received(&parts, 3));
    let mut small = [descriptor(1, 9); 2];
    assert_eq!(
        worker.receive_packet_into(&mut small).unwrap_err(),
        AfXdpError::InvalidConfig("RX output buffer is smaller than multi-buffer packet".to_owned())
    );
    assert_eq!(worker.receive_packet_into(&mut output), Ok(3));
    assert_eq!(output, parts);
    assert_eq!(worker.receive_packet_into(&mut output), Ok(0));
}

#[test]
fn sent_frames_come_back() {
    let mut worker = worker();
    worker.refresh(
        RingKind::Completion,
        received(&[descriptor(u64::MAX, 0), descriptor(5, 0)], 0),
    );
    let mut output = [descriptor(1, 9); 4];
    assert_eq!(worker.recycle_completions(&mut output), Ok(2));
    assert_eq!(output[0], descriptor(u64::MAX, 0));
    assert_eq!(output[2], descriptor(1, 9));
}

#[test]
fn workers_refuse_rings_that_cannot_wrap() {
    let umem = UmemRegion::new(16384, 2048, 256).expect("UMEM");
    let refused = AfXdpWorker::new(
        XdpRingMappings {
            rx: ring(4),
            tx: ring(3),
            fill: ring(4),
            completion: ring(4),
        },
        umem,
    );
    assert_eq!(
        refused.unwrap_err(),
        AfXdpError::InvalidConfig(
            "AF_XDP worker ring capacity must be a non-zero power-of-two".to_owned()
        )
    );
}

fn socket() -> AfXdpSocket {
    let umem = UmemRegion::new(2 * 1024 * 1024, 2048, 256).expect("UMEM");
    let mut kernel = SetupKernel::new(|call, _: &str| match call {
        SetupCall::Open => reply(5),
        SetupCall::FindInterface => reply(2),
        _ => reply(0),
    });
    AfXdpSocket::bind("eth0", AfXdpConfig::default(), &umem, true, &mut kernel).expect("socket")
}

#[test]
fn fill_rings_are_filled_with_every_frame_once() {
    let umem = UmemRegion::new(8192, 2048, 0).expect("UMEM");
    let mut mappings = XdpRingMappings {
        rx: ring(4),
        tx: ring(4),
        fill: ring(4),
        completion: ring(4),
    };
    assert_eq!(socket().initialize_fill_ring(&mut mappings, &umem), Ok(4));
    for slot in 0..4_u32 {
        let frame = mappings.fill.read_descriptor(slot).expect("frame");
        assert_eq!(frame.address, u64::from(slot) * 2048);
    }
    assert_eq!(mappings.fill.producer_index(), Ok(4));
    assert_eq!(
        socket().initialize_fill_ring(&mut mappings, &umem),
        Err(AfXdpError::Kernel {
            operation: "fill_ring_not_empty",
            errno: 0
        })
    );
    mappings.fill = ring(2);
    assert_eq!(
        socket().initialize_fill_ring(&mut mappings, &umem),
        Err(AfXdpError::InvalidConfig(
            "FILL ring capacity is smaller than UMEM frame count".to_owned()
        ))
    );
}

#[test]
fn ring_mappings_are_whole_pages_that_hold_every_part() {
    assert_eq!(ring_mapping_length(4, OFFSETS), Ok(4096));
    assert_eq!(ring_mapping_length(1024, OFFSETS), Ok(20480));
    let far = XdpRingOffset {
        producer: u64::MAX,
        ..OFFSETS
    };
    assert!(ring_mapping_length(4, far).is_err());
    let (rings, released) = map_rings(|_| true);
    let rings = rings.expect("rings");
    assert_eq!(rings.rx.request.operation, "mmap_rx_ring");
    assert_eq!(rings.rx.request.length, 20480);
    assert_eq!(rings.fill.request.length, 36864);
    assert_eq!(rings.completion.request.page_offset, 0x1_8000_0000);
    assert_eq!(rings.completion.address, 0x1000 + 0x1_8000_0000);
    assert!(released.is_empty());
}

/// Maps rings at the places that the kernel names them by; those that do not pass fail.
fn map_rings<F: Fn(&str) -> bool>(passes: F) -> (Result<MappedRings, AfXdpError>, Vec<usize>) {
    let offsets = XdpMmapOffsets {
        rx: OFFSETS,
        tx: OFFSETS,
        fill: OFFSETS,
        completion: OFFSETS,
    };
    let mut released = Vec::new();
    let mut memory = Recorder::new(|call| match call {
        MapCall::Share { fd, request } => {
            assert_eq!(fd, 5);
            MapReply {
                address: if passes(request.operation) {
                    Some(0x1000 + request.page_offset as usize)
                } else {
                    None
                },
                errno: 12,
            }
        }
        MapCall::Release { address, .. } => {
            released.push(address);
            MapReply {
                address: None,
                errno: 0,
            }
        }
    });
    let result = socket().map_rings(AfXdpConfig::default(), offsets, &mut memory);
    (result, released)
}

#[test]
fn rings_that_were_mapped_are_released_where_one_fails() {
    let (result, released) = map_rings(|operation| operation != "mmap_fill_ring");
    assert_eq!(
        result.map(|rings| rings.rx.address),
        Err(AfXdpError::Kernel {
            operation: "mmap_fill_ring",
            errno: 12
        })
    );
    assert_eq!(released, vec![0x1000, 0x8000_1000]);
}

#[test]
fn kernel_answers_become_results() {
    let socket = socket();
    let offsets = XdpMmapOffsets {
        rx: OFFSETS,
        tx: OFFSETS,
        fill: OFFSETS,
        completion: OFFSETS,
    };
    let answer = OffsetsReply {
        status: 0,
        errno: 0,
        length: 128,
        offsets,
    };
    assert_eq!(socket.ring_offsets(|_| answer), Ok(offsets));
    let short = OffsetsReply {
        length: 127,
        ..answer
    };
    assert_eq!(
        socket.ring_offsets(|_| short),
        Err(AfXdpError::Kernel {
            operation: "getsockopt_mmap_offsets_short",
            errno: 0
        })
    );
    let failed = OffsetsReply {
        status: -1,
        errno: 95,
        ..answer
    };
    assert!(socket.ring_offsets(|_| failed).is_err());
    let half = Duration {
        seconds: 1,
        nanoseconds: 500_000_000,
    };
    assert_eq!(poll_timeout(half), 1500);
    assert_eq!(
        poll_timeout(Duration {
            seconds: u64::MAX,
            nanoseconds: 0
        }),
        i32::MAX
    );
    let reply = |result: i32, events: u16| PollReply {
        result,
        events,
        errno: 4,
    };
    assert_eq!(socket.wait_for_io(half, |_, _| reply(1, 1)), Ok(true));
    assert_eq!(socket.wait_for_io(half, |_, _| reply(0, 0)), Ok(false));
    assert!(socket.wait_for_io(half, |_, _| reply(1, 8)).is_err());
    assert!(socket.wait_for_io(half, |_, _| reply(-1, 0)).is_err());
    assert_eq!(
        socket.kick_tx(|_| KernelReply {
            result: 0,
            errno: 0
        }),
        Ok(())
    );
    assert!(socket
        .kick_tx(|_| KernelReply {
            result: -1,
            errno: 11
        })
        .is_err());
}

#[test]
fn socket_maps_are_bounded() {
    let created = KernelReply {
        result: 7,
        errno: 0,
    };
    let map = AfXdpSocket::create_xsk_map(4, &mut Recorder::new(|_| created)).expect("map");
    assert_eq!(map.raw_fd(), 7);
    assert!(AfXdpSocket::create_xsk_map(5, &mut Recorder::new(|_| panic!("a call"))).is_err());
    let socket = socket();
    assert_eq!(
        map.insert(3, &socket, &mut Recorder::new(|call| {
            assert_eq!(call, (7, 3, 5));
            created
        })),
        Ok(())
    );
    assert_eq!(
        map.insert(4, &socket, &mut Recorder::new(|_| panic!("a call")))
            .unwrap_err(),
        AfXdpError::InvalidConfig("XSKMAP queue id exceeds map capacity".to_owned())
    );
    assert_eq!(accept_interface_index(reply(2)), Ok(2));
    assert!(accept_interface_index(reply(0)).is_err());
    assert_eq!(
        accept_descriptor(
            KernelReply {
                result: 1 << 40,
                errno: 0
            },
            "x",
            "too large"
        ),
        Err(AfXdpError::InvalidConfig("too large".to_owned()))
    );
}

#[test]
fn frames_begin_at_multiples_of_their_size() {
    let umem = UmemRegion::new(2 * 1024 * 1024, 2048, 256).expect("UMEM");
    assert_eq!(umem.frame_offset(3).expect("frame"), 3 * 2048);
    assert!(umem.frame_offset(1024).is_err());
}

fn attach(
    map: &XskMap,
    name: &str,
    link: KernelReply,
    close: KernelReply,
) -> (Result<XdpRedirectLink, AfXdpError>, Vec<SetupCall>) {
    let mut calls = Vec::new();
    let mut kernel = SetupKernel::new(|call, _: &str| {
        calls.push(call);
        match call {
            SetupCall::FindInterface => reply(2),
            SetupCall::LoadProgram { .. } => reply(8),
            SetupCall::Link { .. } => link,
            SetupCall::Close { .. } => close,
            _ => reply(0),
        }
    });
    let result = map.attach_redirect(name, &mut kernel);
    (result, calls)
}

#[test]
fn programs_that_are_not_linked_are_closed() {
    let map = AfXdpSocket::create_xsk_map(4, &mut Recorder::new(|_| reply(7))).expect("map");
    let (result, calls) = attach(&map, "eth0", reply(10), reply(0));
    let link = result.expect("link");
    assert_eq!((link.program_fd, link.link_fd), (8, 10));
    let mut steps = vec![
        SetupCall::FindInterface,
        SetupCall::LoadProgram {
            map_fd: 7,
            interface_index: 2,
        },
        SetupCall::Link {
            program_fd: 8,
            interface_index: 2,
        },
    ];
    assert_eq!(calls, steps);
    let (result, calls) = attach(&map, "eth0", failure(16), reply(0));
    assert_eq!(
        result.unwrap_err(),
        AfXdpError::Kernel {
            operation: "bpf_link_create_xdp_redirect",
            errno: 16
        }
    );
    steps.push(SetupCall::Close { fd: 8 });
    assert_eq!(calls, steps);
    // The number of the last error is read behind the closing.
    let (result, calls) = attach(&map, "eth0", failure(16), failure(9));
    assert_eq!(
        result.unwrap_err(),
        AfXdpError::Kernel {
            operation: "bpf_link_create_xdp_redirect",
            errno: 9
        }
    );
    assert_eq!(calls, steps);
    let (result, calls) = attach(&map, "eth\0", reply(10), reply(0));
    assert_eq!(
        result.unwrap_err(),
        AfXdpError::InvalidInterface("interface name contains NUL".to_owned())
    );
    assert!(calls.is_empty());
}

#[test]
fn two_recyclings_hand_out_each_completion_once_and_in_order() {
    let mut completion = ring(4);
    let sent: Vec<XdpDescriptor> = (0..3).map(|i| descriptor(i * 2048, 0)).collect();
    // The counters stand just before they wrap.
    completion.publish_consumer(u32::MAX).expect("consumer");
    completion.publish_producer(2).expect("producer");
    for (slot, d) in [3, 0, 1].into_iter().zip(&sent) {
        completion.write_descriptor(slot, *d).expect("descriptor");
    }
    let mut worker = worker();
    worker.refresh(RingKind::Completion, completion.bytes().to_vec());
    let empty = descriptor(9, 9);
    let mut first = [empty; 2];
    let mut second = [empty; 2];
    assert_eq!(worker.recycle_completions(&mut first), Ok(2));
    assert_eq!(worker.recycle_completions(&mut second), Ok(1));
    assert_eq!(first[..], sent[..2]);
    assert_eq!(second, [sent[2], empty]);
    assert_eq!(worker.recycle_completions(&mut first), Ok(0));
    let after = XdpRingMapping::new(worker.bytes(RingKind::Completion).to_vec(), OFFSETS, 4);
    assert_eq!(after.consumer_index(), Ok(2));
}
