use nettool::error::{ErrorCode, NetToolError};
use nettool::pcap::feed::{CaptureReader, Feed, PacketConsumer, Receiver};
use nettool::pcap::{
    read_error, timestamp_to_nanoseconds, CaptureFileSource, PacketView, TimestampResolution,
};

/// Hands out the pieces of a file that is held in memory.
struct Memory {
    bytes: Vec<u8>,
    at: usize,
}

impl Memory {
    fn new(bytes: Vec<u8>) -> Feed<Self> {
        Feed::new(Self { bytes, at: 0 })
    }
}

/// Calls a function with each packet.
struct Calls<F>(F);

impl<F: FnMut(PacketView<'_>)> PacketConsumer for Calls<F> {
    fn consume(&mut self, packet: PacketView<'_>) {
        (self.0)(packet);
    }
}

impl CaptureReader for Memory {
    fn read(&mut self, wanted: usize) -> Result<Vec<u8>, NetToolError> {
        let end = (self.at + wanted).min(self.bytes.len());
        let piece = self.bytes[self.at..end].to_vec();
        self.at = end;
        Ok(piece)
    }
}

fn pcap_header(snaplen: u32) -> Vec<u8> {
    let mut bytes = Vec::new();
    bytes.extend_from_slice(&0xa1b2_3c4d_u32.to_le_bytes());
    bytes.extend_from_slice(&2_u16.to_le_bytes());
    bytes.extend_from_slice(&4_u16.to_le_bytes());
    bytes.extend_from_slice(&0_i32.to_le_bytes());
    bytes.extend_from_slice(&0_u32.to_le_bytes());
    bytes.extend_from_slice(&snaplen.to_le_bytes());
    bytes.extend_from_slice(&1_u32.to_le_bytes());
    bytes
}

fn open(memory: &mut Feed<Memory>) -> Result<CaptureFileSource, NetToolError> {
    CaptureFileSource::open(memory)
}

fn burst(
    source: &mut CaptureFileSource,
    memory: &mut Feed<Memory>,
    consumer: impl FnMut(PacketView<'_>),
) -> Result<usize, NetToolError> {
    source.receive_burst(memory, &mut Receiver::new(Calls(consumer)))
}

#[test]
fn streams_little_endian_nanosecond_pcap() {
    let mut bytes = pcap_header(65_535);
    bytes.extend_from_slice(&1_u32.to_le_bytes());
    bytes.extend_from_slice(&5_u32.to_le_bytes());
    bytes.extend_from_slice(&3_u32.to_le_bytes());
    bytes.extend_from_slice(&3_u32.to_le_bytes());
    bytes.extend_from_slice(&[1, 2, 3]);
    let mut memory = Memory::new(bytes);
    let mut source = open(&mut memory).expect("source");
    let mut packets = Vec::new();
    assert_eq!(
        burst(&mut source, &mut memory, |packet: PacketView<'_>| packets
            .push((packet.timestamp_nanoseconds, packet.bytes.to_vec())))
        .expect("burst"),
        1
    );
    assert_eq!(packets, [(1_000_000_005, vec![1, 2, 3])]);
    assert!(source.is_exhausted());
}

#[test]
fn rejects_record_larger_than_wire_length() {
    let mut bytes = pcap_header(65_535);
    bytes.extend_from_slice(&0_u32.to_le_bytes());
    bytes.extend_from_slice(&0_u32.to_le_bytes());
    bytes.extend_from_slice(&4_u32.to_le_bytes());
    bytes.extend_from_slice(&3_u32.to_le_bytes());
    bytes.extend_from_slice(&[0; 4]);
    let mut memory = Memory::new(bytes);
    let mut source = open(&mut memory).expect("header");
    assert!(burst(&mut source, &mut memory, |_| {}).is_err());
}

#[test]
fn rejects_record_larger_than_declared_snaplen() {
    let mut bytes = pcap_header(2);
    bytes.extend_from_slice(&0_u32.to_le_bytes());
    bytes.extend_from_slice(&0_u32.to_le_bytes());
    bytes.extend_from_slice(&3_u32.to_le_bytes());
    bytes.extend_from_slice(&3_u32.to_le_bytes());
    bytes.extend_from_slice(&[1, 2, 3]);
    let mut memory = Memory::new(bytes);
    let mut source = open(&mut memory).expect("header");
    assert!(burst(&mut source, &mut memory, |_| {}).is_err());
}

fn block(kind: u32, body: &[u8]) -> Vec<u8> {
    let length = body.len() as u32 + 12;
    let mut bytes = Vec::new();
    bytes.extend_from_slice(&kind.to_le_bytes());
    bytes.extend_from_slice(&length.to_le_bytes());
    bytes.extend_from_slice(body);
    bytes.extend_from_slice(&length.to_le_bytes());
    bytes
}

fn option(code: u16, value: &[u8]) -> Vec<u8> {
    let mut bytes = Vec::new();
    bytes.extend_from_slice(&code.to_le_bytes());
    bytes.extend_from_slice(&(value.len() as u16).to_le_bytes());
    bytes.extend_from_slice(value);
    while bytes.len() % 4 != 0 {
        bytes.push(0);
    }
    bytes
}

fn section() -> Vec<u8> {
    let mut body = Vec::new();
    body.extend_from_slice(&0x1a2b_3c4d_u32.to_le_bytes());
    body.extend_from_slice(&1_u16.to_le_bytes());
    body.extend_from_slice(&0_u16.to_le_bytes());
    body.extend_from_slice(&u64::MAX.to_le_bytes());
    block(0x0a0d_0d0a, &body)
}

fn interface(resolution: Option<u8>) -> Vec<u8> {
    let mut body = Vec::new();
    body.extend_from_slice(&1_u16.to_le_bytes());
    body.extend_from_slice(&0_u16.to_le_bytes());
    body.extend_from_slice(&0_u32.to_le_bytes());
    if let Some(value) = resolution {
        body.extend(option(9, &[value]));
        body.extend(option(0, &[]));
    }
    block(1, &body)
}

fn packet(interface: u32, timestamp: u64, bytes: &[u8], wire: u32, comment: Option<&str>) -> Vec<u8> {
    let mut body = Vec::new();
    body.extend_from_slice(&interface.to_le_bytes());
    body.extend_from_slice(&((timestamp >> 32) as u32).to_le_bytes());
    body.extend_from_slice(&(timestamp as u32).to_le_bytes());
    body.extend_from_slice(&(bytes.len() as u32).to_le_bytes());
    body.extend_from_slice(&wire.to_le_bytes());
    body.extend_from_slice(bytes);
    while body.len() % 4 != 0 {
        body.push(0);
    }
    if let Some(comment) = comment {
        body.extend(option(1, comment.as_bytes()));
        body.extend(option(0, &[]));
    }
    block(6, &body)
}

#[test]
fn reads_pcapng_emitted_by_capture_writer_with_queue_metadata() {
    let mut bytes = section();
    bytes.extend(interface(Some(9)));
    bytes.extend(packet(0, 42, &[1, 2, 3], 3, Some("queue_id=7")));
    let mut memory = Memory::new(bytes);
    let mut source = open(&mut memory).expect("source");
    let mut result = None;
    assert_eq!(
        burst(&mut source, &mut memory, |packet| {
            result = Some((
                packet.timestamp_nanoseconds,
                packet.queue_id,
                packet.bytes.to_vec(),
            ));
        })
        .expect("burst"),
        1
    );
    assert_eq!(result, Some((42, 7, vec![1, 2, 3])));
}

fn refused(bytes: Vec<u8>) -> (ErrorCode, String) {
    let mut memory = Memory::new(bytes);
    let error = match open(&mut memory) {
        Err(error) => error,
        Ok(mut source) => burst(&mut source, &mut memory, |_| {}).expect_err("refused"),
    };
    (error.code, error.message)
}

fn format_error(bytes: Vec<u8>, message: &str) {
    assert_eq!(
        refused(bytes),
        (ErrorCode::CaptureFormatInvalid, message.to_owned())
    );
}

#[test]
fn broken_headers_are_refused() {
    format_error(vec![1, 2, 3, 4], "capture file magic is unsupported");
    let mut version = pcap_header(100);
    version[4] = 3;
    format_error(version, "PCAP version must be 2.4");
    format_error(pcap_header(0), "PCAP snaplen is invalid");
    format_error(pcap_header(16 * 1024 * 1024 + 1), "PCAP snaplen is invalid");
    let mut link = pcap_header(100);
    link[20] = 101;
    format_error(link, "only Ethernet PCAP link type is supported");
    let mut order = section();
    order[8] = 0;
    format_error(order, "PCAPNG byte-order magic is invalid");
    let mut length = section();
    length[4] = 24;
    format_error(length, "PCAPNG section header length is invalid");
    let mut major = section();
    major[12] = 2;
    format_error(major, "unsupported PCAPNG major version");
    let mut trailer = section();
    let last = trailer.len() - 4;
    trailer[last] = 32;
    format_error(trailer, "PCAPNG section trailing length mismatch");
    assert_eq!(
        refused(vec![0xd4, 0xc3]),
        (
            ErrorCode::CaptureReadFailed,
            "capture file read failed: failed to fill whole buffer".to_owned()
        )
    );
}

#[test]
fn broken_records_are_refused() {
    let mut truncated = pcap_header(100);
    truncated.push(1);
    format_error(truncated, "capture record is truncated");
    let mut fraction = pcap_header(100);
    fraction.extend_from_slice(&0_u32.to_le_bytes());
    fraction.extend_from_slice(&1_000_000_000_u32.to_le_bytes());
    fraction.extend_from_slice(&0_u32.to_le_bytes());
    fraction.extend_from_slice(&0_u32.to_le_bytes());
    format_error(fraction, "PCAP timestamp fraction is invalid");
    let mut missing = pcap_header(100);
    missing.extend_from_slice(&0_u32.to_le_bytes());
    missing.extend_from_slice(&0_u32.to_le_bytes());
    missing.extend_from_slice(&4_u32.to_le_bytes());
    missing.extend_from_slice(&4_u32.to_le_bytes());
    missing.push(0);
    assert_eq!(refused(missing).0, ErrorCode::CaptureReadFailed);
}

#[test]
fn broken_blocks_are_refused() {
    let with = |tail: Vec<u8>| {
        let mut bytes = section();
        bytes.extend(tail);
        bytes
    };
    format_error(
        with(vec![1, 0, 0, 0, 10, 0, 0, 0]),
        "PCAPNG block length is invalid",
    );
    let mut trailing = block(5, &[0; 4]);
    let last = trailing.len() - 4;
    trailing[last] = 1;
    format_error(with(trailing), "PCAPNG trailing block length mismatch");
    format_error(
        with(block(1, &[1, 0, 0, 0])),
        "PCAPNG interface block is truncated",
    );
    format_error(
        with(block(1, &[2, 0, 0, 0, 0, 0, 0, 0])),
        "only Ethernet PCAPNG interfaces are supported",
    );
    format_error(
        with(block(6, &[0; 16])),
        "PCAPNG enhanced packet is truncated",
    );
    format_error(
        with(packet(0, 0, &[1], 1, None)),
        "PCAPNG packet references unknown interface",
    );
    format_error(
        with(section()),
        "multiple PCAPNG sections are not supported by this backend",
    );
    let known = |tail: Vec<u8>| {
        let mut bytes = interface(None);
        bytes.extend(tail);
        with(bytes)
    };
    format_error(
        known(packet(0, 0, &[1, 2], 1, None)),
        "PCAPNG packet length is invalid",
    );
    let mut short = vec![0; 20];
    short[12] = 8;
    short[16] = 8;
    format_error(known(block(6, &short)), "PCAPNG packet data is truncated");
    format_error(
        known(packet(0, 0, &[1], 1, Some("queue_id=70000"))),
        "PCAPNG queue comment is invalid",
    );
    let mut odd = vec![0; 20];
    odd.extend([1, 0, 8, 0]);
    format_error(known(block(6, &odd)), "PCAPNG option is truncated");
    let mut end = vec![0; 20];
    end.extend([0, 0, 4, 0, 0, 0, 0, 0]);
    format_error(
        known(block(6, &end)),
        "PCAPNG end option has non-zero length",
    );
    let mut resolution = interface(Some(20));
    resolution.extend(packet(0, 0, &[1], 1, None));
    format_error(
        with(resolution),
        "PCAPNG timestamp resolution is unsupported",
    );
}

#[test]
fn packets_of_unknown_blocks_and_queues_pass() {
    let mut bytes = section();
    bytes.extend(block(5, &[0; 8]));
    bytes.extend(interface(None));
    bytes.extend(interface(Some(0x80 + 10)));
    bytes.extend(packet(1, 1024, &[9; 5], 60, Some("a comment")));
    let mut memory = Memory::new(bytes);
    let mut source = open(&mut memory).expect("source");
    let mut seen = Vec::new();
    let count = burst(&mut source, &mut memory, |packet| {
        seen.push((
            packet.timestamp_nanoseconds,
            packet.wire_length,
            packet.queue_id,
            packet.bytes.len(),
        ));
    });
    assert_eq!(count.expect("burst"), 1);
    assert_eq!(seen, [(1_000_000_000, 60, 1, 5)]);
    assert_eq!(burst(&mut source, &mut memory, |_| {}).expect("end"), 0);
}

#[test]
fn bursts_are_bounded() {
    let mut bytes = pcap_header(100);
    for n in 0..3_u8 {
        bytes.extend_from_slice(&0_u32.to_le_bytes());
        bytes.extend_from_slice(&0_u32.to_le_bytes());
        bytes.extend_from_slice(&1_u32.to_le_bytes());
        bytes.extend_from_slice(&1_u32.to_le_bytes());
        bytes.push(n);
    }
    let mut memory = Memory::new(bytes);
    let mut source = open(&mut memory).expect("source");
    assert!(source.set_burst_size(0).is_err());
    assert!(source.set_burst_size(4097).is_err());
    source.set_burst_size(2).expect("size");
    assert_eq!(burst(&mut source, &mut memory, |_| {}).expect("first"), 2);
    assert!(!source.is_exhausted());
    assert_eq!(burst(&mut source, &mut memory, |_| {}).expect("second"), 1);
    assert!(source.is_exhausted());
}

#[test]
fn time_stamps_are_converted() {
    let convert = |timestamp: u64, resolution: TimestampResolution| {
        timestamp_to_nanoseconds(timestamp, resolution).expect("supported")
    };
    assert_eq!(convert(5, TimestampResolution::Decimal(6)), 5000);
    assert_eq!(convert(5, TimestampResolution::Decimal(0)), 5_000_000_000);
    assert_eq!(convert(12345, TimestampResolution::Decimal(12)), 12);
    assert_eq!(convert(u64::MAX, TimestampResolution::Decimal(0)), u64::MAX);
    assert_eq!(convert(3, TimestampResolution::Binary(1)), 1_500_000_000);
    assert!(timestamp_to_nanoseconds(1, TimestampResolution::Binary(64)).is_err());
    let error = read_error("gone", true);
    assert_eq!(error.message, "capture file read failed: gone");
    assert!(error.retryable);
}

#[test]
fn packets_are_handed_over_once_and_in_order() {
    let mut bytes = pcap_header(65_535);
    for value in 1_u8..=5 {
        bytes.extend_from_slice(&u32::from(value).to_le_bytes());
        bytes.extend_from_slice(&0_u32.to_le_bytes());
        bytes.extend_from_slice(&1_u32.to_le_bytes());
        bytes.extend_from_slice(&1_u32.to_le_bytes());
        bytes.push(value);
    }
    let mut memory = Memory::new(bytes);
    let mut source = open(&mut memory).expect("source");
    source.set_burst_size(2).expect("size");
    let mut seen = Vec::new();
    while !source.is_exhausted() {
        burst(&mut source, &mut memory, |packet: PacketView<'_>| {
            seen.push(packet.bytes[0]);
        })
        .expect("burst");
    }
    assert_eq!(seen, [1, 2, 3, 4, 5]);
    assert_eq!(burst(&mut source, &mut memory, |_| panic!("a packet")), Ok(0));
}
