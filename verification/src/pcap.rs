//! Reading capture files, PCAP and PCAPNG, piece by piece and within bounds.

pub mod capture_laws;
pub mod feed;
pub mod source_laws;

use crate::error::{ErrorCode, NetToolError};
use crate::octets;
use crate::octets::{read_be16, read_be32, read_le16, read_le32};
use crate::pcap::feed::{CaptureReader, Feed, FeedStep, PacketConsumer, Receiver};
use crate::protobuf::text_from_utf8;
use crate::text;
use crate::text::{parse_unsigned, strip_prefix};
use vstd::arithmetic::power::*;
use vstd::arithmetic::power2::*;
use vstd::prelude::*;
use vstd::utf8::*;

verus! {

/// The longest block, record and snapshot.
pub const MAX_CAPTURE_BLOCK_LENGTH: usize = 16777216;

/// The packets of a burst, unless another number is set.
pub const DEFAULT_BURST_SIZE: usize = 64;

/// The order of the bytes of a number.
#[derive(Clone, Copy, Debug, PartialEq, Eq, Structural)]
pub enum Endian {
    /// The lowest first.
    Little,
    /// The highest first.
    Big,
}

/// What a fraction of a second counts.
#[derive(Clone, Copy, Debug, PartialEq, Eq, Structural)]
pub enum TimestampUnit {
    /// Microseconds.
    Microseconds,
    /// Nanoseconds.
    Nanoseconds,
}

/// What a time stamp counts.
#[derive(Clone, Copy, Debug, PartialEq, Eq, Structural)]
pub enum TimestampResolution {
    /// A power of one tenth of a second.
    Decimal(u8),
    /// A power of one half of a second.
    Binary(u8),
}

/// An interface that packets were captured on.
#[derive(Clone, Copy, Debug, PartialEq, Eq, Structural)]
pub struct InterfaceDescription {
    /// The type of the link.
    pub link_type: u16,
    /// The most bytes that are kept of a packet; zero for no limit.
    pub snaplen: u32,
    /// What time stamps count.
    pub timestamp_resolution: TimestampResolution,
}

/// What is known of a captured packet.
#[derive(Clone, Copy, Debug, PartialEq, Eq, Structural)]
pub struct RecordMetadata {
    /// When, in nanoseconds.
    pub timestamp_nanoseconds: u64,
    /// Its length on the wire.
    pub wire_length: u32,
    /// The queue that it came through.
    pub queue_id: u16,
}

/// A packet, for as long as its bytes are borrowed.
#[derive(Clone, Copy, Debug)]
pub struct PacketView<'a> {
    /// The bytes that were kept.
    pub bytes: &'a [u8],
    /// When, in nanoseconds.
    pub timestamp_nanoseconds: u64,
    /// Its length on the wire.
    pub wire_length: u32,
    /// The queue that it came through.
    pub queue_id: u16,
}

/// What the decoder waits for.
#[derive(Clone, Copy, Debug, PartialEq, Eq, Structural)]
pub enum Stage {
    /// The first four bytes.
    Magic,
    /// The rest of a PCAP header.
    PcapHeader {
        /// The order of bytes.
        endian: Endian,
        /// What fractions count.
        unit: TimestampUnit,
    },
    /// The start of a PCAPNG section header.
    SectionPrefix,
    /// The rest of a PCAPNG section header.
    SectionRest {
        /// The order of bytes.
        endian: Endian,
        /// The length of the header.
        length: u32,
    },
    /// The header of a PCAP record.
    RecordHeader {
        /// The order of bytes.
        endian: Endian,
        /// What fractions count.
        unit: TimestampUnit,
        /// The most bytes of a packet.
        snaplen: u32,
    },
    /// The bytes of a PCAP record.
    RecordBody {
        /// The order of bytes.
        endian: Endian,
        /// What fractions count.
        unit: TimestampUnit,
        /// The most bytes of a packet.
        snaplen: u32,
        /// What is known of the packet.
        metadata: RecordMetadata,
        /// The bytes that were kept.
        captured: u32,
    },
    /// The header of a PCAPNG block.
    BlockHeader {
        /// The order of bytes.
        endian: Endian,
    },
    /// The rest of a PCAPNG block.
    BlockBody {
        /// The order of bytes.
        endian: Endian,
        /// The type of the block.
        block_type: u32,
        /// The length of the block.
        length: u32,
    },
}

impl Stage {
    /// Whether the lengths in the stage are within their bounds.
    pub open spec fn valid(self) -> bool {
        match self {
            Stage::SectionRest { endian, length } => 28 <= length <= MAX_CAPTURE_BLOCK_LENGTH,
            Stage::RecordBody { endian, unit, snaplen, metadata, captured } => captured
                <= MAX_CAPTURE_BLOCK_LENGTH && captured <= metadata.wire_length,
            Stage::BlockBody { endian, block_type, length } => 12 <= length
                <= MAX_CAPTURE_BLOCK_LENGTH,
            _ => true,
        }
    }

    /// The number of bytes that the stage waits for.
    pub open spec fn wanted(self) -> int {
        match self {
            Stage::Magic => 4,
            Stage::PcapHeader { .. } => 20,
            Stage::SectionPrefix => 8,
            Stage::SectionRest { endian, length } => length - 12,
            Stage::RecordHeader { .. } => 16,
            Stage::RecordBody { endian, unit, snaplen, metadata, captured } => captured as int,
            Stage::BlockHeader { .. } => 8,
            Stage::BlockBody { endian, block_type, length } => length - 8,
        }
    }

    /// Whether a file may end here.
    pub open spec fn may_end(self) -> bool {
        self is RecordHeader || self is BlockHeader
    }
}

// --------------------------------------------------------------------------------- numbers

/// The number of 16 bits at a place.
pub open spec fn u16_at(b: Seq<u8>, at: int, endian: Endian) -> nat {
    match endian {
        Endian::Little => octets::le_value(b.subrange(at, at + 2)),
        Endian::Big => octets::be_value(b.subrange(at, at + 2)),
    }
}

/// The number of 32 bits at a place.
pub open spec fn u32_at(b: Seq<u8>, at: int, endian: Endian) -> nat {
    match endian {
        Endian::Little => octets::le_value(b.subrange(at, at + 4)),
        Endian::Big => octets::be_value(b.subrange(at, at + 4)),
    }
}

fn read_u16(b: &[u8], at: usize, endian: Endian) -> (r: u16)
    requires
        at + 2 <= b@.len(),
    ensures
        r == u16_at(b@, at as int, endian),
{
    match endian {
        Endian::Little => read_le16(b, at),
        Endian::Big => read_be16(b, at),
    }
}

fn read_u32(b: &[u8], at: usize, endian: Endian) -> (r: u32)
    requires
        at + 4 <= b@.len(),
    ensures
        r == u32_at(b@, at as int, endian),
{
    match endian {
        Endian::Little => read_le32(b, at),
        Endian::Big => read_be32(b, at),
    }
}

/// A length rounded up to a multiple of four.
pub open spec fn padded(n: int) -> int {
    (n + 3) / 4 * 4
}

fn pad(n: usize) -> (r: usize)
    requires
        n <= MAX_CAPTURE_BLOCK_LENGTH,
    ensures
        r == padded(n as int),
        n <= r <= n + 3,
{
    (n + 3) / 4 * 4
}

// ---------------------------------------------------------------------------------- options

/// The next option of a block: its code, its value and what is behind it; nothing at the end.
pub open spec fn next_option(b: Seq<u8>, endian: Endian) -> Result<
    Option<(nat, Seq<u8>, Seq<u8>)>,
    Seq<char>,
> {
    if b.len() == 0 {
        Ok(None)
    } else if b.len() < 4 {
        Err("PCAPNG option header is truncated"@)
    } else {
        let code = u16_at(b, 0, endian);
        let length = u16_at(b, 2, endian) as int;
        if code == 0 {
            if length != 0 {
                Err("PCAPNG end option has non-zero length"@)
            } else {
                Ok(None)
            }
        } else if padded(length) > b.len() - 4 {
            Err("PCAPNG option is truncated"@)
        } else {
            Ok(Some((code, b.subrange(4, 4 + length), b.skip(4 + padded(length)))))
        }
    }
}

/// What an option says of the resolution of time stamps.
pub open spec fn option_resolution(
    code: nat,
    value: Seq<u8>,
    current: TimestampResolution,
) -> TimestampResolution {
    if code == 9 && value.len() == 1 {
        if value[0] < 128 {
            TimestampResolution::Decimal(value[0])
        } else {
            TimestampResolution::Binary((value[0] - 128) as u8)
        }
    } else {
        current
    }
}

/// The resolution of time stamps after all options.
pub open spec fn resolution_from(
    b: Seq<u8>,
    endian: Endian,
    current: TimestampResolution,
) -> Result<TimestampResolution, Seq<char>>
    decreases b.len(),
{
    match next_option(b, endian) {
        Err(message) => Err(message),
        Ok(None) => Ok(current),
        Ok(Some((code, value, rest))) => if rest.len() < b.len() {
            resolution_from(rest, endian, option_resolution(code, value, current))
        } else {
            Ok(current)
        },
    }
}

/// What an option says of the queue: a comment may name it.
pub open spec fn option_queue(code: nat, value: Seq<u8>, current: u16) -> Result<u16, Seq<char>> {
    if code == 1 && valid_utf8(value) && text::has_prefix(decode_utf8(value), "queue_id="@) {
        let raw = decode_utf8(value).skip("queue_id="@.len() as int);
        match text::unsigned_value(raw, u16::MAX as nat) {
            Some(n) => Ok(n as u16),
            None => Err("PCAPNG queue comment is invalid"@),
        }
    } else {
        Ok(current)
    }
}

/// The queue after all options.
pub open spec fn queue_from(b: Seq<u8>, endian: Endian, current: u16) -> Result<u16, Seq<char>>
    decreases b.len(),
{
    match next_option(b, endian) {
        Err(message) => Err(message),
        Ok(None) => Ok(current),
        Ok(Some((code, value, rest))) => if rest.len() < b.len() {
            match option_queue(code, value, current) {
                Err(message) => Err(message),
                Ok(queue) => queue_from(rest, endian, queue),
            }
        } else {
            Ok(current)
        },
    }
}

/// An option: its code, where its value ends and where the next one begins.
struct OptionPlace {
    code: u16,
    value_end: usize,
    next: usize,
}

fn find_option(b: &[u8], endian: Endian) -> (r: Result<Option<OptionPlace>, NetToolError>)
    requires
        b@.len() <= MAX_CAPTURE_BLOCK_LENGTH,
    ensures
        match r {
            Ok(None) => next_option(b@, endian) == Ok::<
                Option<(nat, Seq<u8>, Seq<u8>)>,
                Seq<char>,
            >(None),
            Ok(Some(place)) => {
                &&& 4 <= place.value_end <= place.next <= b@.len()
                &&& next_option(b@, endian) == Ok::<Option<(nat, Seq<u8>, Seq<u8>)>, Seq<char>>(
                    Some(
                        (
                            place.code as nat,
                            b@.subrange(4, place.value_end as int),
                            b@.skip(place.next as int),
                        ),
                    ),
                )
            },
            Err(e) => next_option(b@, endian) matches Err(message) && e.is(
                ErrorCode::CaptureFormatInvalid,
                message,
                false,
            ),
        },
{
    if b.len() == 0 {
        return Ok(None);
    }
    if b.len() < 4 {
        return Err(format_error("PCAPNG option header is truncated"));
    }
    let code: u16 = read_u16(b, 0, endian);
    let length: usize = read_u16(b, 2, endian) as usize;
    if code == 0 {
        if length != 0 {
            return Err(format_error("PCAPNG end option has non-zero length"));
        }
        return Ok(None);
    }
    let room: usize = pad(length);
    if room > b.len() - 4 {
        return Err(format_error("PCAPNG option is truncated"));
    }
    Ok(Some(OptionPlace { code, value_end: 4 + length, next: 4 + room }))
}

fn find_resolution(b: &[u8], endian: Endian) -> (r: Result<TimestampResolution, NetToolError>)
    requires
        b@.len() <= MAX_CAPTURE_BLOCK_LENGTH,
    ensures
        match r {
            Ok(resolution) => resolution_from(b@, endian, TimestampResolution::Decimal(6)) == Ok::<
                TimestampResolution,
                Seq<char>,
            >(resolution),
            Err(e) => resolution_from(b@, endian, TimestampResolution::Decimal(6)) matches Err(
                message,
            ) && e.is(ErrorCode::CaptureFormatInvalid, message, false),
        },
{
    let ghost all = b@;
    let mut rest: &[u8] = b;
    let mut current = TimestampResolution::Decimal(6);
    let mut left: usize = b.len();
    loop
        invariant
            left == rest@.len(),
            rest@.len() <= MAX_CAPTURE_BLOCK_LENGTH,
            all == b@,
            resolution_from(all, endian, TimestampResolution::Decimal(6)) == resolution_from(
                rest@,
                endian,
                current,
            ),
        decreases left,
    {
        match find_option(rest, endian) {
            Err(e) => {
                return Err(e);
            },
            Ok(None) => {
                return Ok(current);
            },
            Ok(Some(place)) => {
                let ghost value = rest@.subrange(4, place.value_end as int);
                if place.code == 9 && place.value_end == 5 {
                    let v: u8 = rest[4];
                    proof {
                        assert(value[0] == v);
                    }
                    current = if v < 128 {
                        TimestampResolution::Decimal(v)
                    } else {
                        TimestampResolution::Binary(v - 128)
                    };
                }
                let behind = vstd::slice::slice_subrange(rest, place.next, rest.len());
                proof {
                    assert(behind@ =~= rest@.skip(place.next as int));
                }
                rest = behind;
                left = rest.len();
            },
        }
    }
}

fn read_queue_comment(value: &[u8], current: u16) -> (r: Result<u16, NetToolError>)
    ensures
        match r {
            Ok(queue) => option_queue(1, value@, current) == Ok::<u16, Seq<char>>(queue),
            Err(e) => option_queue(1, value@, current) matches Err(message) && e.is(
                ErrorCode::CaptureFormatInvalid,
                message,
                false,
            ),
        },
{
    match text_from_utf8(vstd::slice::slice_to_vec(value)) {
        None => Ok(current),
        Some(comment) => {
            proof {
                encode_utf8_decode_utf8(comment@);
            }
            match strip_prefix(comment.as_str(), "queue_id=") {
                None => Ok(current),
                Some(raw) => match parse_unsigned(raw.as_str(), 0xffff) {
                    Some(n) => Ok(n as u16),
                    None => Err(format_error("PCAPNG queue comment is invalid")),
                },
            }
        },
    }
}

fn find_queue(b: &[u8], endian: Endian, first: u16) -> (r: Result<u16, NetToolError>)
    requires
        b@.len() <= MAX_CAPTURE_BLOCK_LENGTH,
    ensures
        match r {
            Ok(queue) => queue_from(b@, endian, first) == Ok::<u16, Seq<char>>(queue),
            Err(e) => queue_from(b@, endian, first) matches Err(message) && e.is(
                ErrorCode::CaptureFormatInvalid,
                message,
                false,
            ),
        },
{
    let ghost all = b@;
    let mut rest: &[u8] = b;
    let mut current: u16 = first;
    let mut left: usize = b.len();
    loop
        invariant
            left == rest@.len(),
            rest@.len() <= MAX_CAPTURE_BLOCK_LENGTH,
            all == b@,
            queue_from(all, endian, first) == queue_from(rest@, endian, current),
        decreases left,
    {
        match find_option(rest, endian) {
            Err(e) => {
                return Err(e);
            },
            Ok(None) => {
                return Ok(current);
            },
            Ok(Some(place)) => {
                if place.code == 1 {
                    let value = vstd::slice::slice_subrange(rest, 4, place.value_end);
                    match read_queue_comment(value, current) {
                        Ok(queue) => {
                            current = queue;
                        },
                        Err(e) => {
                            return Err(e);
                        },
                    }
                }
                let behind = vstd::slice::slice_subrange(rest, place.next, rest.len());
                proof {
                    assert(behind@ =~= rest@.skip(place.next as int));
                }
                rest = behind;
                left = rest.len();
            },
        }
    }
}

// ------------------------------------------------------------------------------ time stamps

/// A number, or the largest one of 64 bits where it is larger.
pub open spec fn capped(n: nat) -> nat {
    if n > u64::MAX {
        u64::MAX as nat
    } else {
        n
    }
}

/// A time stamp in nanoseconds, if its resolution is supported.
pub open spec fn nanoseconds(timestamp: u64, resolution: TimestampResolution) -> Option<nat> {
    match resolution {
        TimestampResolution::Decimal(power) => if power <= 9 {
            Some(capped((timestamp * pow(10, (9 - power) as nat)) as nat))
        } else if power <= 19 {
            Some((timestamp as int / pow(10, (power - 9) as nat)) as nat)
        } else {
            None
        },
        TimestampResolution::Binary(power) => if power <= 63 {
            Some(capped(((timestamp * 1000000000) / pow2(power as nat) as int) as nat))
        } else {
            None
        },
    }
}

fn power_of_ten(n: u8) -> (r: u64)
    requires
        n <= 10,
    ensures
        r == pow(10, n as nat),
        1 <= r <= 10000000000,
{
    let mut r: u64 = 1;
    let mut i: u8 = 0;
    proof {
        lemma_pow0(10);
    }
    while i < n
        invariant
            i <= n <= 10,
            r == pow(10, i as nat),
            1 <= r,
            i == 0 ==> r == 1,
            i == 1 ==> r == 10,
            i == 2 ==> r == 100,
            i == 3 ==> r == 1000,
            i == 4 ==> r == 10000,
            i == 5 ==> r == 100000,
            i == 6 ==> r == 1000000,
            i == 7 ==> r == 10000000,
            i == 8 ==> r == 100000000,
            i == 9 ==> r == 1000000000,
            i == 10 ==> r == 10000000000,
        decreases n - i,
    {
        proof {
            lemma_pow_adds(10, 1, i as nat);
            lemma_pow1(10);
        }
        r = 10 * r;
        i += 1;
    }
    r
}

fn power_of_two(n: u8) -> (r: u128)
    requires
        n <= 63,
    ensures
        r == pow2(n as nat),
        r >= 1,
{
    let mut r: u128 = 1;
    let mut i: u8 = 0;
    proof {
        lemma2_to64();
    }
    while i < n
        invariant
            i <= n <= 63,
            r == pow2(i as nat),
            1 <= r,
            r <= 0x8000_0000_0000_0000,
        decreases n - i,
    {
        proof {
            lemma_pow2_unfold((i + 1) as nat);
            lemma2_to64();
            lemma2_to64_rest();
            if i + 1 < 63 {
                lemma_pow2_strictly_increases((i + 1) as nat, 63);
            }
        }
        r = 2 * r;
        i += 1;
    }
    r
}

/// Converts a time stamp to nanoseconds.
///
/// # Errors
///
/// Fails when the resolution is not supported.
pub fn timestamp_to_nanoseconds(timestamp: u64, resolution: TimestampResolution) -> (r: Result<
    u64,
    NetToolError,
>)
    ensures
        match r {
            Ok(n) => nanoseconds(timestamp, resolution) == Some(n as nat),
            Err(e) => nanoseconds(timestamp, resolution) is None && e.is(
                ErrorCode::CaptureFormatInvalid,
                "PCAPNG timestamp resolution is unsupported"@,
                false,
            ),
        },
{
    match resolution {
        TimestampResolution::Decimal(power) => {
            if power <= 9 {
                let factor: u64 = power_of_ten(9 - power);
                proof {
                    assert(timestamp * factor <= u64::MAX * 10000000000) by (nonlinear_arith)
                        requires
                            timestamp <= u64::MAX,
                            0 <= factor <= 10000000000,
                    ;
                    assert(timestamp * factor >= 0) by (nonlinear_arith);
                }
                let product: u128 = timestamp as u128 * factor as u128;
                Ok(cap(product))
            } else if power <= 19 {
                let divisor: u64 = power_of_ten(power - 9);
                proof {
                    assert(0 <= timestamp as int / divisor as int <= timestamp)
                        by (nonlinear_arith)
                        requires
                            divisor >= 1,
                            timestamp >= 0,
                    ;
                }
                Ok(timestamp / divisor)
            } else {
                Err(format_error("PCAPNG timestamp resolution is unsupported"))
            }
        },
        TimestampResolution::Binary(power) => {
            if power <= 63 {
                let divisor: u128 = power_of_two(power);
                let numerator: u128 = timestamp as u128 * 1000000000;
                Ok(cap(numerator / divisor))
            } else {
                Err(format_error("PCAPNG timestamp resolution is unsupported"))
            }
        },
    }
}

fn cap(n: u128) -> (r: u64)
    ensures
        r == capped(n as nat),
{
    if n > 0xffff_ffff_ffff_ffff {
        0xffff_ffff_ffff_ffff
    } else {
        n as u64
    }
}

// ------------------------------------------------------------------------------- the pieces

/// What the first four bytes say.
pub open spec fn after_magic(b: Seq<u8>) -> Result<Stage, Seq<char>> {
    if b == seq![0xd4u8, 0xc3, 0xb2, 0xa1] {
        Ok(Stage::PcapHeader { endian: Endian::Little, unit: TimestampUnit::Microseconds })
    } else if b == seq![0xa1u8, 0xb2, 0xc3, 0xd4] {
        Ok(Stage::PcapHeader { endian: Endian::Big, unit: TimestampUnit::Microseconds })
    } else if b == seq![0x4du8, 0x3c, 0xb2, 0xa1] {
        Ok(Stage::PcapHeader { endian: Endian::Little, unit: TimestampUnit::Nanoseconds })
    } else if b == seq![0xa1u8, 0xb2, 0x3c, 0x4d] {
        Ok(Stage::PcapHeader { endian: Endian::Big, unit: TimestampUnit::Nanoseconds })
    } else if b == seq![0x0au8, 0x0d, 0x0d, 0x0a] {
        Ok(Stage::SectionPrefix)
    } else {
        Err("capture file magic is unsupported"@)
    }
}

/// What the rest of a PCAP header says.
pub open spec fn after_pcap_header(b: Seq<u8>, endian: Endian, unit: TimestampUnit) -> Result<
    Stage,
    Seq<char>,
> {
    let snaplen = u32_at(b, 12, endian);
    if u16_at(b, 0, endian) != 2 || u16_at(b, 2, endian) != 4 {
        Err("PCAP version must be 2.4"@)
    } else if snaplen == 0 || snaplen > MAX_CAPTURE_BLOCK_LENGTH {
        Err("PCAP snaplen is invalid"@)
    } else if u32_at(b, 16, endian) != 1 {
        Err("only Ethernet PCAP link type is supported"@)
    } else {
        Ok(Stage::RecordHeader { endian, unit, snaplen: snaplen as u32 })
    }
}

/// The order of bytes that a PCAPNG section header announces.
pub open spec fn announced_order(b: Seq<u8>) -> Option<Endian> {
    if b == seq![0x4du8, 0x3c, 0x2b, 0x1a] {
        Some(Endian::Little)
    } else if b == seq![0x1au8, 0x2b, 0x3c, 0x4d] {
        Some(Endian::Big)
    } else {
        None
    }
}

/// What the start of a PCAPNG section header says.
pub open spec fn after_section_prefix(b: Seq<u8>) -> Result<Stage, Seq<char>> {
    match announced_order(b.subrange(4, 8)) {
        None => Err("PCAPNG byte-order magic is invalid"@),
        Some(endian) => {
            let length = u32_at(b, 0, endian);
            if length < 28 || length > MAX_CAPTURE_BLOCK_LENGTH || length % 4 != 0 {
                Err("PCAPNG section header length is invalid"@)
            } else {
                Ok(Stage::SectionRest { endian, length: length as u32 })
            }
        },
    }
}

/// What the rest of a PCAPNG section header says.
pub open spec fn after_section_rest(b: Seq<u8>, endian: Endian, length: u32) -> Result<
    Stage,
    Seq<char>,
> {
    if u16_at(b, 0, endian) != 1 {
        Err("unsupported PCAPNG major version"@)
    } else if u32_at(b, b.len() - 4, endian) != length {
        Err("PCAPNG section trailing length mismatch"@)
    } else {
        Ok(Stage::BlockHeader { endian })
    }
}

/// The nanoseconds in a fraction of a second, if it is less than one second.
pub open spec fn fraction_nanoseconds(fraction: nat, unit: TimestampUnit) -> Option<nat> {
    match unit {
        TimestampUnit::Microseconds => if fraction < 1000000 {
            Some(fraction * 1000)
        } else {
            None
        },
        TimestampUnit::Nanoseconds => if fraction < 1000000000 {
            Some(fraction)
        } else {
            None
        },
    }
}

/// What the header of a PCAP record says.
pub open spec fn after_record_header(
    b: Seq<u8>,
    endian: Endian,
    unit: TimestampUnit,
    snaplen: u32,
) -> Result<Stage, Seq<char>> {
    let captured = u32_at(b, 8, endian);
    let wire_length = u32_at(b, 12, endian);
    if captured > MAX_CAPTURE_BLOCK_LENGTH || captured > snaplen || captured > wire_length {
        Err("PCAP record length is invalid"@)
    } else {
        match fraction_nanoseconds(u32_at(b, 4, endian), unit) {
            None => Err("PCAP timestamp fraction is invalid"@),
            Some(fraction) => Ok(
                Stage::RecordBody {
                    endian,
                    unit,
                    snaplen,
                    metadata: RecordMetadata {
                        timestamp_nanoseconds: (u32_at(b, 0, endian) * 1000000000
                            + fraction) as u64,
                        wire_length: wire_length as u32,
                        queue_id: 0,
                    },
                    captured: captured as u32,
                },
            ),
        }
    }
}

/// What the header of a PCAPNG block says.
pub open spec fn after_block_header(b: Seq<u8>, endian: Endian) -> Result<Stage, Seq<char>> {
    let length = u32_at(b, 4, endian);
    if length < 12 || length > MAX_CAPTURE_BLOCK_LENGTH || length % 4 != 0 {
        Err("PCAPNG block length is invalid"@)
    } else {
        Ok(
            Stage::BlockBody {
                endian,
                block_type: u32_at(b, 0, endian) as u32,
                length: length as u32,
            },
        )
    }
}

/// What a PCAPNG interface block says.
pub open spec fn interface_of(body: Seq<u8>, endian: Endian) -> Result<
    InterfaceDescription,
    Seq<char>,
> {
    if body.len() < 8 {
        Err("PCAPNG interface block is truncated"@)
    } else if u16_at(body, 0, endian) != 1 {
        Err("only Ethernet PCAPNG interfaces are supported"@)
    } else {
        match resolution_from(body.skip(8), endian, TimestampResolution::Decimal(6)) {
            Err(message) => Err(message),
            Ok(timestamp_resolution) => Ok(
                InterfaceDescription {
                    link_type: 1,
                    snaplen: u32_at(body, 4, endian) as u32,
                    timestamp_resolution,
                },
            ),
        }
    }
}

/// The least of a number and the largest one of 16 bits.
pub open spec fn queue_of_interface(id: nat) -> u16 {
    if id > u16::MAX {
        u16::MAX
    } else {
        id as u16
    }
}

/// What a PCAPNG packet block says of its packet: what is known of it and its length.
pub open spec fn packet_of(
    body: Seq<u8>,
    endian: Endian,
    interfaces: Seq<InterfaceDescription>,
) -> Result<(RecordMetadata, int), Seq<char>> {
    let id = u32_at(body, 0, endian);
    let captured = u32_at(body, 12, endian) as int;
    let wire_length = u32_at(body, 16, endian);
    if body.len() < 20 {
        Err("PCAPNG enhanced packet is truncated"@)
    } else if id >= interfaces.len() {
        Err("PCAPNG packet references unknown interface"@)
    } else if interfaces[id as int].link_type != 1 {
        Err("PCAPNG packet interface is not Ethernet"@)
    } else if captured > MAX_CAPTURE_BLOCK_LENGTH || (interfaces[id as int].snaplen != 0
        && captured > interfaces[id as int].snaplen) || captured > wire_length {
        Err("PCAPNG packet length is invalid"@)
    } else if 20 + padded(captured) > body.len() {
        Err("PCAPNG packet data is truncated"@)
    } else {
        match queue_from(body.skip(20 + padded(captured)), endian, queue_of_interface(id)) {
            Err(message) => Err(message),
            Ok(queue_id) => {
                let timestamp = u32_at(body, 4, endian) * 0x1_0000_0000 + u32_at(body, 8, endian);
                match nanoseconds(timestamp as u64, interfaces[id as int].timestamp_resolution) {
                    None => Err("PCAPNG timestamp resolution is unsupported"@),
                    Some(n) => Ok(
                        (
                            RecordMetadata {
                                timestamp_nanoseconds: n as u64,
                                wire_length: wire_length as u32,
                                queue_id,
                            },
                            captured,
                        ),
                    ),
                }
            },
        }
    }
}

/// What a piece of a file gives.
pub enum Given {
    /// Nothing yet.
    Nothing,
    /// A packet.
    Packet(RecordMetadata, Seq<u8>),
    /// The end of the file.
    End,
}

/// What becomes of a piece: the next stage, the known interfaces and what it gives.
pub type Progress = (Stage, Seq<InterfaceDescription>, Given);

/// What a PCAPNG block says.
pub open spec fn after_block(
    b: Seq<u8>,
    endian: Endian,
    block_type: u32,
    length: u32,
    interfaces: Seq<InterfaceDescription>,
) -> Result<Progress, Seq<char>> {
    let body = b.take(b.len() - 4);
    let next = Stage::BlockHeader { endian };
    if u32_at(b, b.len() - 4, endian) != length {
        Err("PCAPNG trailing block length mismatch"@)
    } else if block_type == 1 {
        match interface_of(body, endian) {
            Err(message) => Err(message),
            Ok(interface) => Ok((next, interfaces.push(interface), Given::Nothing)),
        }
    } else if block_type == 6 {
        match packet_of(body, endian, interfaces) {
            Err(message) => Err(message),
            Ok((metadata, captured)) => Ok(
                (next, interfaces, Given::Packet(metadata, body.subrange(20, 20 + captured))),
            ),
        }
    } else if block_type == 0x0a0d0d0a {
        Err("multiple PCAPNG sections are not supported by this backend"@)
    } else {
        Ok((next, interfaces, Given::Nothing))
    }
}

/// A stage that gives nothing yet, or why a file is refused.
pub open spec fn onward(r: Result<Stage, Seq<char>>, interfaces: Seq<InterfaceDescription>) -> Result<
    Progress,
    Seq<char>,
> {
    match r {
        Ok(stage) => Ok((stage, interfaces, Given::Nothing)),
        Err(message) => Err(message),
    }
}

/// What becomes of a piece of the length that the stage waits for.
#[verifier::opaque]
pub open spec fn after_piece(
    stage: Stage,
    interfaces: Seq<InterfaceDescription>,
    b: Seq<u8>,
) -> Result<Progress, Seq<char>> {
    match stage {
        Stage::Magic => onward(after_magic(b), interfaces),
        Stage::PcapHeader { endian, unit } => onward(
            after_pcap_header(b, endian, unit),
            interfaces,
        ),
        Stage::SectionPrefix => onward(after_section_prefix(b), interfaces),
        Stage::SectionRest { endian, length } => onward(
            after_section_rest(b, endian, length),
            interfaces,
        ),
        Stage::RecordHeader { endian, unit, snaplen } => onward(
            after_record_header(b, endian, unit, snaplen),
            interfaces,
        ),
        Stage::RecordBody { endian, unit, snaplen, metadata, captured } => Ok(
            (
                Stage::RecordHeader { endian, unit, snaplen },
                interfaces,
                Given::Packet(metadata, b),
            ),
        ),
        Stage::BlockHeader { endian } => onward(after_block_header(b, endian), interfaces),
        Stage::BlockBody { endian, block_type, length } => after_block(
            b,
            endian,
            block_type,
            length,
            interfaces,
        ),
    }
}

/// What becomes of a piece; one that is shorter than what the stage waits for is the last of
/// the file. A failure is a broken format, or a file that ends too early.
pub open spec fn progress(
    stage: Stage,
    interfaces: Seq<InterfaceDescription>,
    b: Seq<u8>,
) -> Result<Progress, (ErrorCode, Seq<char>)> {
    if b.len() < stage.wanted() {
        if stage.may_end() {
            if b.len() == 0 {
                Ok((stage, interfaces, Given::End))
            } else {
                Err((ErrorCode::CaptureFormatInvalid, "capture record is truncated"@))
            }
        } else {
            Err(
                (
                    ErrorCode::CaptureReadFailed,
                    "capture file read failed: failed to fill whole buffer"@,
                ),
            )
        }
    } else {
        match after_piece(stage, interfaces, b) {
            Ok(p) => Ok(p),
            Err(message) => Err((ErrorCode::CaptureFormatInvalid, message)),
        }
    }
}

// -------------------------------------------------------------------------------- decoding

fn equals4(b: &[u8], a: u8, c: u8, d: u8, e: u8) -> (r: bool)
    requires
        b@.len() == 4,
    ensures
        r == (b@ == seq![a, c, d, e]),
{
    let r: bool = b[0] == a && b[1] == c && b[2] == d && b[3] == e;
    proof {
        let s = seq![a, c, d, e];
        if r {
            assert(b@ =~= s);
        } else {
            assert(b@[0] != s[0] || b@[1] != s[1] || b@[2] != s[2] || b@[3] != s[3]);
        }
    }
    r
}

fn accept_magic(b: &[u8]) -> (r: Result<Stage, NetToolError>)
    requires
        b@.len() == 4,
    ensures
        is_stage(r, after_magic(b@)),
{
    if equals4(b, 0xd4, 0xc3, 0xb2, 0xa1) {
        return Ok(
            Stage::PcapHeader { endian: Endian::Little, unit: TimestampUnit::Microseconds },
        );
    }
    if equals4(b, 0xa1, 0xb2, 0xc3, 0xd4) {
        return Ok(Stage::PcapHeader { endian: Endian::Big, unit: TimestampUnit::Microseconds });
    }
    if equals4(b, 0x4d, 0x3c, 0xb2, 0xa1) {
        return Ok(Stage::PcapHeader { endian: Endian::Little, unit: TimestampUnit::Nanoseconds });
    }
    if equals4(b, 0xa1, 0xb2, 0x3c, 0x4d) {
        return Ok(Stage::PcapHeader { endian: Endian::Big, unit: TimestampUnit::Nanoseconds });
    }
    if equals4(b, 0x0a, 0x0d, 0x0d, 0x0a) {
        return Ok(Stage::SectionPrefix);
    }
    Err(format_error("capture file magic is unsupported"))
}

/// Whether a result is a stage, or why a file is refused.
pub open spec fn is_stage(r: Result<Stage, NetToolError>, expected: Result<Stage, Seq<char>>) -> bool {
    match r {
        Ok(stage) => expected == Ok::<Stage, Seq<char>>(stage) && stage.valid(),
        Err(e) => expected matches Err(message) && e.is(
            ErrorCode::CaptureFormatInvalid,
            message,
            false,
        ),
    }
}

fn parse_pcap_header(b: &[u8], endian: Endian, unit: TimestampUnit) -> (r: Result<
    Stage,
    NetToolError,
>)
    requires
        b@.len() == 20,
    ensures
        is_stage(r, after_pcap_header(b@, endian, unit)),
{
    if read_u16(b, 0, endian) != 2 || read_u16(b, 2, endian) != 4 {
        return Err(format_error("PCAP version must be 2.4"));
    }
    let snaplen: u32 = read_u32(b, 12, endian);
    if snaplen == 0 || snaplen as usize > MAX_CAPTURE_BLOCK_LENGTH {
        return Err(format_error("PCAP snaplen is invalid"));
    }
    if read_u32(b, 16, endian) != 1 {
        return Err(format_error("only Ethernet PCAP link type is supported"));
    }
    Ok(Stage::RecordHeader { endian, unit, snaplen })
}

fn parse_section_prefix(b: &[u8]) -> (r: Result<Stage, NetToolError>)
    requires
        b@.len() == 8,
    ensures
        is_stage(r, after_section_prefix(b@)),
{
    let order = vstd::slice::slice_subrange(b, 4, 8);
    let endian = if equals4(order, 0x4d, 0x3c, 0x2b, 0x1a) {
        Endian::Little
    } else if equals4(order, 0x1a, 0x2b, 0x3c, 0x4d) {
        Endian::Big
    } else {
        return Err(format_error("PCAPNG byte-order magic is invalid"));
    };
    let length: u32 = read_u32(b, 0, endian);
    if length < 28 || length as usize > MAX_CAPTURE_BLOCK_LENGTH || length % 4 != 0 {
        return Err(format_error("PCAPNG section header length is invalid"));
    }
    Ok(Stage::SectionRest { endian, length })
}

fn parse_section_rest(b: &[u8], endian: Endian, length: u32) -> (r: Result<Stage, NetToolError>)
    requires
        28 <= length <= MAX_CAPTURE_BLOCK_LENGTH,
        b@.len() == length - 12,
    ensures
        is_stage(r, after_section_rest(b@, endian, length)),
{
    if read_u16(b, 0, endian) != 1 {
        return Err(format_error("unsupported PCAPNG major version"));
    }
    if read_u32(b, b.len() - 4, endian) != length {
        return Err(format_error("PCAPNG section trailing length mismatch"));
    }
    Ok(Stage::BlockHeader { endian })
}

fn parse_record_header(
    b: &[u8],
    endian: Endian,
    unit: TimestampUnit,
    snaplen: u32,
) -> (r: Result<Stage, NetToolError>)
    requires
        b@.len() == 16,
    ensures
        is_stage(r, after_record_header(b@, endian, unit, snaplen)),
{
    let seconds: u64 = read_u32(b, 0, endian) as u64;
    let fraction: u64 = read_u32(b, 4, endian) as u64;
    let captured: u32 = read_u32(b, 8, endian);
    let wire_length: u32 = read_u32(b, 12, endian);
    if captured as usize > MAX_CAPTURE_BLOCK_LENGTH || captured > snaplen || captured
        > wire_length {
        return Err(format_error("PCAP record length is invalid"));
    }
    let nanoseconds: u64 = match unit {
        TimestampUnit::Microseconds => if fraction < 1000000 {
            fraction * 1000
        } else {
            return Err(format_error("PCAP timestamp fraction is invalid"));
        },
        TimestampUnit::Nanoseconds => if fraction < 1000000000 {
            fraction
        } else {
            return Err(format_error("PCAP timestamp fraction is invalid"));
        },
    };
    Ok(
        Stage::RecordBody {
            endian,
            unit,
            snaplen,
            metadata: RecordMetadata {
                timestamp_nanoseconds: seconds * 1000000000 + nanoseconds,
                wire_length,
                queue_id: 0,
            },
            captured,
        },
    )
}

fn parse_block_header(b: &[u8], endian: Endian) -> (r: Result<Stage, NetToolError>)
    requires
        b@.len() == 8,
    ensures
        is_stage(r, after_block_header(b@, endian)),
{
    let length: u32 = read_u32(b, 4, endian);
    if length < 12 || length as usize > MAX_CAPTURE_BLOCK_LENGTH || length % 4 != 0 {
        return Err(format_error("PCAPNG block length is invalid"));
    }
    Ok(Stage::BlockBody { endian, block_type: read_u32(b, 0, endian), length })
}

/// Reads a PCAPNG interface block.
///
/// # Errors
///
/// Fails when the block is too short, the link is not Ethernet or an option is broken.
pub fn parse_interface_description(body: &[u8], endian: Endian) -> (r: Result<
    InterfaceDescription,
    NetToolError,
>)
    requires
        body@.len() <= MAX_CAPTURE_BLOCK_LENGTH,
    ensures
        match r {
            Ok(interface) => interface_of(body@, endian) == Ok::<InterfaceDescription, Seq<char>>(
                interface,
            ),
            Err(e) => interface_of(body@, endian) matches Err(message) && e.is(
                ErrorCode::CaptureFormatInvalid,
                message,
                false,
            ),
        },
{
    if body.len() < 8 {
        return Err(format_error("PCAPNG interface block is truncated"));
    }
    if read_u16(body, 0, endian) != 1 {
        return Err(format_error("only Ethernet PCAPNG interfaces are supported"));
    }
    let snaplen: u32 = read_u32(body, 4, endian);
    let options = vstd::slice::slice_subrange(body, 8, body.len());
    proof {
        assert(options@ =~= body@.skip(8));
    }
    match find_resolution(options, endian) {
        Ok(timestamp_resolution) => Ok(
            InterfaceDescription { link_type: 1, snaplen, timestamp_resolution },
        ),
        Err(e) => Err(e),
    }
}

/// Reads a PCAPNG packet block: what is known of the packet, and its length. The packet
/// begins at the twentieth byte of the block.
///
/// # Errors
///
/// Fails when the block is too short, names an unknown interface, has wrong lengths or a
/// broken option, and when the resolution of time stamps is not supported.
pub fn parse_enhanced_packet(
    body: &[u8],
    endian: Endian,
    interfaces: &[InterfaceDescription],
) -> (r: Result<(RecordMetadata, usize), NetToolError>)
    requires
        body@.len() <= MAX_CAPTURE_BLOCK_LENGTH,
    ensures
        match r {
            Ok((metadata, captured)) => {
                &&& packet_of(body@, endian, interfaces@) == Ok::<
                    (RecordMetadata, int),
                    Seq<char>,
                >((metadata, captured as int))
                &&& 20 + captured <= body@.len()
            },
            Err(e) => packet_of(body@, endian, interfaces@) matches Err(message) && e.is(
                ErrorCode::CaptureFormatInvalid,
                message,
                false,
            ),
        },
{
    if body.len() < 20 {
        return Err(format_error("PCAPNG enhanced packet is truncated"));
    }
    let interface_id: u32 = read_u32(body, 0, endian);
    if interface_id as usize >= interfaces.len() {
        return Err(format_error("PCAPNG packet references unknown interface"));
    }
    let interface = interfaces[interface_id as usize];
    if interface.link_type != 1 {
        return Err(format_error("PCAPNG packet interface is not Ethernet"));
    }
    let high: u64 = read_u32(body, 4, endian) as u64;
    let low: u64 = read_u32(body, 8, endian) as u64;
    let timestamp: u64 = high * 0x1_0000_0000 + low;
    let captured: u32 = read_u32(body, 12, endian);
    let wire_length: u32 = read_u32(body, 16, endian);
    if captured as usize > MAX_CAPTURE_BLOCK_LENGTH || (interface.snaplen != 0 && captured
        > interface.snaplen) || captured > wire_length {
        return Err(format_error("PCAPNG packet length is invalid"));
    }
    let room: usize = pad(captured as usize);
    if 20 + room > body.len() {
        return Err(format_error("PCAPNG packet data is truncated"));
    }
    let first: u16 = if interface_id > 0xffff {
        0xffff
    } else {
        interface_id as u16
    };
    let options = vstd::slice::slice_subrange(body, 20 + room, body.len());
    proof {
        assert(options@ =~= body@.skip(20 + padded(captured as int)));
    }
    let queue_id: u16 = match find_queue(options, endian, first) {
        Ok(queue) => queue,
        Err(e) => {
            return Err(e);
        },
    };
    match timestamp_to_nanoseconds(timestamp, interface.timestamp_resolution) {
        Ok(timestamp_nanoseconds) => Ok(
            (
                RecordMetadata { timestamp_nanoseconds, wire_length, queue_id },
                captured as usize,
            ),
        ),
        Err(e) => Err(e),
    }
}

/// What a piece of a file gave.
#[derive(Clone, Debug)]
pub enum DecodeOutcome {
    /// Nothing yet.
    Nothing,
    /// A packet.
    Packet(RecordMetadata, Vec<u8>),
    /// The end of the file.
    End,
}

impl DecodeOutcome {
    /// What it is.
    pub open spec fn given(self) -> Given {
        match self {
            DecodeOutcome::Nothing => Given::Nothing,
            DecodeOutcome::Packet(metadata, bytes) => Given::Packet(metadata, bytes@),
            DecodeOutcome::End => Given::End,
        }
    }
}

/// Decodes a capture file that is handed over piece by piece.
pub struct CaptureDecoder {
    stage: Stage,
    interfaces: Vec<InterfaceDescription>,
}

impl CaptureDecoder {
    /// What the decoder waits for.
    pub closed spec fn stage(self) -> Stage {
        self.stage
    }

    /// The interfaces that are known.
    pub closed spec fn interfaces(self) -> Seq<InterfaceDescription> {
        self.interfaces@
    }

    /// Whether the lengths that the decoder waits for are within their bounds.
    #[verifier::type_invariant]
    spec fn valid(self) -> bool {
        self.stage.valid()
    }

    /// Starts at the beginning of a file.
    pub fn new() -> (r: Self)
        ensures
            r.stage() == Stage::Magic,
            r.interfaces() == Seq::<InterfaceDescription>::empty(),
    {
        CaptureDecoder { stage: Stage::Magic, interfaces: Vec::new() }
    }

    /// The number of bytes of the next piece: never more than the largest block.
    pub fn wanted(&self) -> (r: usize)
        ensures
            r == self.stage().wanted(),
            r <= MAX_CAPTURE_BLOCK_LENGTH,
    {
        proof {
            use_type_invariant(self);
        }
        match self.stage {
            Stage::Magic => 4,
            Stage::PcapHeader { .. } => 20,
            Stage::SectionPrefix => 8,
            Stage::SectionRest { endian: _, length } => length as usize - 12,
            Stage::RecordHeader { .. } => 16,
            Stage::RecordBody { endian: _, unit: _, snaplen: _, metadata: _, captured } => {
                captured as usize
            },
            Stage::BlockHeader { .. } => 8,
            Stage::BlockBody { endian: _, block_type: _, length } => length as usize - 8,
        }
    }

    /// Whether the decoder is past the header of the file.
    pub fn is_open(&self) -> (r: bool)
        ensures
            r == self.stage().may_end(),
    {
        matches!(self.stage, Stage::RecordHeader { .. }) || matches!(
            self.stage,
            Stage::BlockHeader { .. }
        )
    }

    /// Takes the next piece. One that is shorter than what the decoder waits for is the last
    /// of the file.
    ///
    /// # Errors
    ///
    /// Fails when the format is broken or the file ends too early.
    pub fn accept(&mut self, piece: &[u8]) -> (r: Result<DecodeOutcome, NetToolError>)
        requires
            piece@.len() <= old(self).stage().wanted(),
        ensures
            match progress(old(self).stage(), old(self).interfaces(), piece@) {
                Ok((stage, interfaces, given)) => {
                    &&& r matches Ok(outcome) && outcome.given() == given
                    &&& final(self).stage() == stage
                    &&& final(self).interfaces() == interfaces
                },
                Err((code, message)) => {
                    &&& r matches Err(e) && e.is(code, message, false)
                    &&& final(self).stage() == old(self).stage()
                    &&& final(self).interfaces() == old(self).interfaces()
                },
            },
    {
        proof {
            use_type_invariant(&*self);
            reveal(after_piece);
        }
        if piece.len() < self.wanted() {
            if self.is_open() {
                if piece.len() == 0 {
                    return Ok(DecodeOutcome::End);
                }
                return Err(format_error("capture record is truncated"));
            }
            return Err(
                NetToolError::new(
                    ErrorCode::CaptureReadFailed,
                    "capture file read failed: failed to fill whole buffer",
                    false,
                ),
            );
        }
        let next = match self.stage {
            Stage::Magic => accept_magic(piece),
            Stage::PcapHeader { endian, unit } => parse_pcap_header(piece, endian, unit),
            Stage::SectionPrefix => parse_section_prefix(piece),
            Stage::SectionRest { endian, length } => parse_section_rest(piece, endian, length),
            Stage::RecordHeader { endian, unit, snaplen } => parse_record_header(
                piece,
                endian,
                unit,
                snaplen,
            ),
            Stage::BlockHeader { endian } => parse_block_header(piece, endian),
            Stage::RecordBody { endian, unit, snaplen, metadata, captured: _ } => {
                self.stage = Stage::RecordHeader { endian, unit, snaplen };
                return Ok(
                    DecodeOutcome::Packet(metadata, vstd::slice::slice_to_vec(piece)),
                );
            },
            Stage::BlockBody { endian, block_type, length } => {
                return self.accept_block(piece, endian, block_type, length);
            },
        };
        match next {
            Ok(stage) => {
                self.stage = stage;
                Ok(DecodeOutcome::Nothing)
            },
            Err(e) => Err(e),
        }
    }

    fn accept_block(&mut self, piece: &[u8], endian: Endian, block_type: u32, length: u32) -> (r:
        Result<DecodeOutcome, NetToolError>)
        requires
            12 <= length <= MAX_CAPTURE_BLOCK_LENGTH,
            piece@.len() == length - 8,
        ensures
            match after_block(piece@, endian, block_type, length, old(self).interfaces()) {
                Ok((stage, interfaces, given)) => {
                    &&& r matches Ok(outcome) && outcome.given() == given
                    &&& final(self).stage() == stage
                    &&& final(self).interfaces() == interfaces
                },
                Err(message) => {
                    &&& r matches Err(e) && e.is(ErrorCode::CaptureFormatInvalid, message, false)
                    &&& final(self).stage() == old(self).stage()
                    &&& final(self).interfaces() == old(self).interfaces()
                },
            },
    {
        if read_u32(piece, piece.len() - 4, endian) != length {
            return Err(format_error("PCAPNG trailing block length mismatch"));
        }
        let body = vstd::slice::slice_subrange(piece, 0, piece.len() - 4);
        proof {
            assert(body@ =~= piece@.take(piece@.len() - 4));
        }
        if block_type == 1 {
            match parse_interface_description(body, endian) {
                Ok(interface) => {
                    self.stage = Stage::BlockHeader { endian };
                    let mut interfaces: Vec<InterfaceDescription> = Vec::new();
                    std::mem::swap(&mut interfaces, &mut self.interfaces);
                    interfaces.push(interface);
                    self.interfaces = interfaces;
                    Ok(DecodeOutcome::Nothing)
                },
                Err(e) => Err(e),
            }
        } else if block_type == 6 {
            match parse_enhanced_packet(body, endian, self.interfaces.as_slice()) {
                Ok((metadata, captured)) => {
                    self.stage = Stage::BlockHeader { endian };
                    let bytes = vstd::slice::slice_subrange(body, 20, 20 + captured);
                    Ok(DecodeOutcome::Packet(metadata, vstd::slice::slice_to_vec(bytes)))
                },
                Err(e) => Err(e),
            }
        } else if block_type == 0x0a0d0d0a {
            Err(format_error("multiple PCAPNG sections are not supported by this backend"))
        } else {
            self.stage = Stage::BlockHeader { endian };
            Ok(DecodeOutcome::Nothing)
        }
    }
}

/// A packet that a file gives never has more bytes than it had on the wire, and never more
/// than the largest block.
pub proof fn law_packets_stay_within_bounds(
    stage: Stage,
    interfaces: Seq<InterfaceDescription>,
    b: Seq<u8>,
    metadata: RecordMetadata,
    bytes: Seq<u8>,
)
    requires
        b.len() == stage.wanted(),
        stage.valid(),
        progress(stage, interfaces, b) matches Ok((next, known, Given::Packet(m, p))) && m
            == metadata && p == bytes,
    ensures
        bytes.len() <= metadata.wire_length,
        bytes.len() <= MAX_CAPTURE_BLOCK_LENGTH,
{
    reveal(after_piece);
    if let Stage::BlockBody { endian, block_type, length } = stage {
        let body = b.take(b.len() - 4);
        lemma_u32_small(body, 16, endian);
    }
}

/// Only an end where a file may end is one.
proof fn lemma_end(stage: Stage, interfaces: Seq<InterfaceDescription>, b: Seq<u8>)
    ensures
        progress(stage, interfaces, b) matches Ok((next, known, Given::End)) ==> next == stage
            && known == interfaces,
{
    reveal(after_piece);
}

/// The pieces of a header follow each other and give no packet.
proof fn lemma_header_stages(stage: Stage, interfaces: Seq<InterfaceDescription>, b: Seq<u8>)
    requires
        !stage.may_end(),
        !(stage is RecordBody),
        !(stage is BlockBody),
        progress(stage, interfaces, b) is Ok,
    ensures
        progress(stage, interfaces, b) matches Ok((next, known, given)) && known == interfaces
            && given is Nothing && match stage {
            Stage::Magic => next is PcapHeader || next is SectionPrefix,
            Stage::PcapHeader { .. } => next is RecordHeader,
            Stage::SectionPrefix => next is SectionRest,
            _ => next is BlockHeader,
        },
{
    reveal(after_piece);
}

proof fn lemma_u32_small(b: Seq<u8>, at: int, endian: Endian)
    requires
        0 <= at,
    ensures
        at + 4 <= b.len() ==> u32_at(b, at, endian) <= u32::MAX,
{
    if at + 4 <= b.len() {
        octets::lemma_be_value_4(b.subrange(at, at + 4));
        octets::lemma_le_value_4(b.subrange(at, at + 4));
    }
}

// ---------------------------------------------------------------------------------- a source

/// A packet: what is known of it, and its bytes.
pub type PacketSeq = Seq<(RecordMetadata, Seq<u8>)>;

/// A piece, cut to the length that was asked for.
pub open spec fn cut(piece: Seq<u8>, wanted: int) -> Seq<u8> {
    if piece.len() > wanted {
        piece.take(wanted)
    } else {
        piece
    }
}

/// What pieces of a file lead to, one after the other: the stage, the known interfaces and the
/// packets. Nothing where the file ends or a piece is refused.
pub open spec fn fed(
    stage: Stage,
    interfaces: Seq<InterfaceDescription>,
    pieces: Seq<Vec<u8>>,
) -> Option<(Stage, Seq<InterfaceDescription>, PacketSeq)>
    decreases pieces.len(),
{
    if pieces.len() == 0 {
        Some((stage, interfaces, Seq::empty()))
    } else {
        match fed(stage, interfaces, pieces.drop_last()) {
            None => None,
            Some((s, known, packets)) => match progress(
                s,
                known,
                cut(pieces.last()@, s.wanted()),
            ) {
                Ok((next, all, Given::Nothing)) => Some((next, all, packets)),
                Ok((next, all, Given::Packet(metadata, bytes))) => Some(
                    (next, all, packets.push((metadata, bytes))),
                ),
                _ => None,
            },
        }
    }
}

/// The calls when pieces were read, each one of the length that was wanted when it was asked
/// for, and each packet that a piece gives handed over behind that.
pub open spec fn steps_of(
    stage: Stage,
    interfaces: Seq<InterfaceDescription>,
    pieces: Seq<Vec<u8>>,
) -> Seq<FeedStep>
    decreases pieces.len(),
{
    if pieces.len() == 0 {
        Seq::empty()
    } else {
        match fed(stage, interfaces, pieces.drop_last()) {
            None => Seq::empty(),
            Some((s, known, packets)) => {
                let before = steps_of(stage, interfaces, pieces.drop_last()).push(
                    FeedStep::Read(s.wanted() as usize, Ok(pieces.last())),
                );
                match progress(s, known, cut(pieces.last()@, s.wanted())) {
                    Ok((next, all, Given::Packet(metadata, bytes))) => before.push(
                        FeedStep::Hand(metadata, bytes),
                    ),
                    _ => before,
                }
            },
        }
    }
}

/// The packets that were handed over, in their order.
pub open spec fn handed_in(steps: Seq<FeedStep>) -> PacketSeq
    decreases steps.len(),
{
    if steps.len() == 0 {
        Seq::empty()
    } else {
        let before = handed_in(steps.drop_last());
        match steps.last() {
            FeedStep::Hand(metadata, bytes) => before.push((metadata, bytes)),
            FeedStep::Read(_, _) => before,
        }
    }
}

/// The packets of a file are handed over once each and in the order of the file.
pub proof fn law_packets_are_handed_over_once_in_order(
    stage: Stage,
    interfaces: Seq<InterfaceDescription>,
    pieces: Seq<Vec<u8>>,
)
    ensures
        fed(stage, interfaces, pieces) matches Some((next, known, packets)) ==> handed_in(
            steps_of(stage, interfaces, pieces),
        ) == packets,
    decreases pieces.len(),
{
    if pieces.len() > 0 {
        law_packets_are_handed_over_once_in_order(stage, interfaces, pieces.drop_last());
        match fed(stage, interfaces, pieces.drop_last()) {
            None => {},
            Some((s, known, packets)) => {
                let start = steps_of(stage, interfaces, pieces.drop_last());
                let read = FeedStep::Read(s.wanted() as usize, Ok(pieces.last()));
                let before = start.push(read);
                assert(before.drop_last() =~= start);
                assert(handed_in(before) == handed_in(start));
                match progress(s, known, cut(pieces.last()@, s.wanted())) {
                    Ok((next, all, Given::Packet(metadata, bytes))) => {
                        let after = before.push(FeedStep::Hand(metadata, bytes));
                        assert(after.drop_last() =~= before);
                        assert(handed_in(after) == handed_in(before).push((metadata, bytes)));
                    },
                    _ => {},
                }
            },
        }
    }
}

/// Whether a step fails: because reading fails, or because of what was read.
pub open spec fn step_fails(
    from: Seq<FeedStep>,
    to: Seq<FeedStep>,
    stage: Stage,
    interfaces: Seq<InterfaceDescription>,
    e: NetToolError,
) -> bool {
    exists|read: Result<Vec<u8>, NetToolError>|
        to == #[trigger] from.push(FeedStep::Read(stage.wanted() as usize, read)) && match read {
            Err(fault) => e == fault,
            Ok(piece) => progress(stage, interfaces, cut(piece@, stage.wanted())) matches Err(
                (code, message),
            ) && e.is(code, message, false),
        }
}

/// Whether the file ends at a step.
pub open spec fn step_ends(
    from: Seq<FeedStep>,
    to: Seq<FeedStep>,
    stage: Stage,
    interfaces: Seq<InterfaceDescription>,
) -> bool {
    exists|piece: Vec<u8>|
        to == #[trigger] from.push(FeedStep::Read(stage.wanted() as usize, Ok(piece)))
            && progress(stage, interfaces, cut(piece@, stage.wanted())) == Ok::<
            Progress,
            (ErrorCode, Seq<char>),
        >((stage, interfaces, Given::End))
}

/// The most pieces that are read for a burst.
pub const MAX_PIECES: u64 = 0xffff_ffff_ffff_ffff;

/// Whether the header of a file was read as it should be, in pieces.
pub open spec fn header_read(
    from: Seq<FeedStep>,
    to: Seq<FeedStep>,
    r: Result<CaptureFileSource, NetToolError>,
    pieces: Seq<Vec<u8>>,
) -> bool {
    let behind = from + steps_of(Stage::Magic, Seq::empty(), pieces);
    &&& fed(Stage::Magic, Seq::empty(), pieces) matches Some((stage, known, packets))
    &&& match r {
        Ok(source) => {
            &&& to == behind
            &&& stage.may_end()
            &&& source.stage() == stage
            &&& source.interfaces() == known
            &&& source.burst_size() == DEFAULT_BURST_SIZE
            &&& !source.exhausted()
        },
        Err(e) => !stage.may_end() && step_fails(behind, to, stage, known, e),
    }
}

/// Whether a burst was received as it should be, out of pieces that were read.
pub open spec fn burst_received(
    from: Seq<FeedStep>,
    to: Seq<FeedStep>,
    before: CaptureFileSource,
    after: CaptureFileSource,
    r: Result<usize, NetToolError>,
    pieces: Seq<Vec<u8>>,
) -> bool {
    let behind = from + steps_of(before.stage(), before.interfaces(), pieces);
    &&& fed(before.stage(), before.interfaces(), pieces) matches Some((stage, known, packets))
    &&& after.stage() == stage
    &&& after.interfaces() == known
    &&& packets.len() <= before.burst_size()
    &&& match r {
        Ok(n) => {
            &&& n == packets.len()
            &&& if n < before.burst_size() {
                after.exhausted() && step_ends(behind, to, stage, known)
            } else {
                !after.exhausted() && to == behind
            }
        },
        Err(e) => {
            &&& !after.exhausted()
            &&& packets.len() < before.burst_size()
            &&& if pieces.len() < MAX_PIECES {
                step_fails(behind, to, stage, known, e)
            } else {
                to == behind && e.is(
                    ErrorCode::CaptureFormatInvalid,
                    "capture file has too many blocks"@,
                    false,
                )
            }
        },
    }
}

/// A capture file as a source of bursts.
pub struct CaptureFileSource {
    decoder: CaptureDecoder,
    burst_size: usize,
    exhausted: bool,
}

impl CaptureFileSource {
    /// What the source waits for.
    pub closed spec fn stage(self) -> Stage {
        self.decoder.stage()
    }

    /// The interfaces that are known.
    pub closed spec fn interfaces(self) -> Seq<InterfaceDescription> {
        self.decoder.interfaces()
    }

    /// The packets of a burst.
    pub closed spec fn burst_size(self) -> usize {
        self.burst_size
    }

    /// Whether the end of the file was reached.
    pub closed spec fn exhausted(self) -> bool {
        self.exhausted
    }

    /// Opens a file: reads and checks its header.
    ///
    /// # Errors
    ///
    /// Fails with what reading fails with, and when the header is not one.
    pub fn open<F: CaptureReader>(feed: &mut Feed<F>) -> (r: Result<Self, NetToolError>)
        ensures
            exists|pieces: Seq<Vec<u8>>| #[trigger]
                header_read(old(feed).log(), final(feed).log(), r, pieces),
    {
        let mut decoder = CaptureDecoder::new();
        let ghost from = feed.log();
        let ghost mut pieces: Seq<Vec<u8>> = Seq::empty();
        let mut count: u8 = 0;
        proof {
            assert(feed.log() =~= from + steps_of(Stage::Magic, Seq::empty(), pieces));
        }
        while count < 3 && !decoder.is_open()
            invariant
                count <= 3,
                from == old(feed).log(),
                feed.log() == from + steps_of(Stage::Magic, Seq::empty(), pieces),
                fed(Stage::Magic, Seq::empty(), pieces) == Some(
                    (decoder.stage(), decoder.interfaces(), Seq::<(RecordMetadata, Seq<u8>)>::empty()),
                ),
                count == 0 ==> decoder.stage() is Magic,
                count == 1 ==> decoder.stage() is PcapHeader || decoder.stage() is SectionPrefix,
                count == 2 ==> decoder.stage() is RecordHeader || decoder.stage() is SectionRest,
                count == 3 ==> decoder.stage() is BlockHeader,
            decreases 3 - count,
        {
            let wanted: usize = decoder.wanted();
            let ghost s = decoder.stage();
            let ghost known = decoder.interfaces();
            let ghost behind = feed.log();
            let read = feed.read(wanted);
            let piece = match read {
                Ok(piece) => piece,
                Err(e) => {
                    proof {
                        assert(step_fails(behind, feed.log(), s, known, e));
                        let r = Err::<Self, NetToolError>(e);
                        assert(header_read(from, feed.log(), r, pieces));
                    }
                    return Err(e);
                },
            };
            proof {
                assert(feed.log() == behind.push(FeedStep::Read(s.wanted() as usize, Ok(piece))));
                assert(pieces.push(piece).drop_last() =~= pieces);
            }
            match decode_piece(&mut decoder, &piece) {
                Ok(_) => {
                    proof {
                        lemma_header_stages(s, known, cut(piece@, s.wanted()));
                    }
                },
                Err(e) => {
                    proof {
                        assert(step_fails(behind, feed.log(), s, known, e));
                        let r = Err::<Self, NetToolError>(e);
                        assert(header_read(from, feed.log(), r, pieces));
                    }
                    return Err(e);
                },
            }
            count += 1;
            proof {
                pieces = pieces.push(piece);
                assert(feed.log() =~= from + steps_of(Stage::Magic, Seq::empty(), pieces));
            }
        }
        let source = CaptureFileSource {
            decoder,
            burst_size: DEFAULT_BURST_SIZE,
            exhausted: false,
        };
        proof {
            let r = Ok::<Self, NetToolError>(source);
            assert(header_read(from, feed.log(), r, pieces));
        }
        Ok(source)
    }

    /// Sets the packets of a burst.
    ///
    /// # Errors
    ///
    /// Fails when the number is not between 1 and 4096.
    pub fn set_burst_size(&mut self, burst_size: usize) -> (r: Result<(), NetToolError>)
        ensures
            final(self).stage() == old(self).stage(),
            final(self).interfaces() == old(self).interfaces(),
            final(self).exhausted() == old(self).exhausted(),
            match r {
                Ok(_) => 1 <= burst_size <= 4096 && final(self).burst_size() == burst_size,
                Err(e) => {
                    &&& !(1 <= burst_size <= 4096)
                    &&& final(self).burst_size() == old(self).burst_size()
                    &&& e.is(
                        ErrorCode::InvalidArgument,
                        "offline capture burst size must be between 1 and 4096"@,
                        false,
                    )
                },
            },
    {
        if burst_size < 1 || burst_size > 4096 {
            return Err(
                NetToolError::new(
                    ErrorCode::InvalidArgument,
                    "offline capture burst size must be between 1 and 4096",
                    false,
                ),
            );
        }
        self.burst_size = burst_size;
        Ok(())
    }

    /// Whether the end of the file was reached.
    pub fn is_exhausted(&self) -> (r: bool)
        ensures
            r == self.exhausted(),
    {
        self.exhausted
    }

    /// Hands the next packets over, up to a burst, and returns how many there were. Behind
    /// the end of the file there are none, and nothing is read.
    ///
    /// # Errors
    ///
    /// Fails with what reading fails with, and when the format is broken.
    pub fn receive_burst<F: CaptureReader, C: PacketConsumer>(
        &mut self,
        feed: &mut Feed<F>,
        receiver: &mut Receiver<C>,
    ) -> (r: Result<usize, NetToolError>)
        ensures
            final(self).burst_size() == old(self).burst_size(),
            old(self).exhausted() ==> {
                &&& r == Ok::<usize, NetToolError>(0)
                &&& *final(self) == *old(self)
                &&& *final(feed) == *old(feed)
                &&& *final(receiver) == *old(receiver)
            },
            !old(self).exhausted() ==> exists|pieces: Seq<Vec<u8>>| #[trigger]
                burst_received(
                    old(feed).log(),
                    final(feed).log(),
                    *old(self),
                    *final(self),
                    r,
                    pieces,
                ),
    {
        if self.exhausted {
            return Ok(0);
        }
        let ghost from = feed.log();
        let ghost first = self.stage();
        let ghost met = self.interfaces();
        let ghost mut pieces: Seq<Vec<u8>> = Seq::empty();
        let ghost mut packets: PacketSeq = Seq::empty();
        let mut received: usize = 0;
        let mut left: u64 = MAX_PIECES;
        proof {
            assert(feed.log() =~= from + steps_of(first, met, pieces));
        }
        while received < self.burst_size
            invariant
                received <= self.burst_size(),
                self.burst_size() == old(self).burst_size(),
                !self.exhausted(),
                !old(self).exhausted(),
                from == old(feed).log(),
                feed.log() == from + steps_of(first, met, pieces),
                first == old(self).stage(),
                met == old(self).interfaces(),
                left == MAX_PIECES - pieces.len(),
                received == packets.len(),
                fed(first, met, pieces) == Some((self.stage(), self.interfaces(), packets)),
            decreases left,
        {
            if left == 0 {
                let e = format_error("capture file has too many blocks");
                proof {
                    let r = Err::<usize, NetToolError>(e);
                    assert(burst_received(from, feed.log(), *old(self), *self, r, pieces));
                }
                return Err(e);
            }
            let wanted: usize = self.decoder.wanted();
            let ghost s = self.stage();
            let ghost known = self.interfaces();
            let ghost behind = feed.log();
            let piece = match feed.read(wanted) {
                Ok(piece) => piece,
                Err(e) => {
                    proof {
                        let r = Err::<usize, NetToolError>(e);
                        assert(step_fails(behind, feed.log(), s, known, e));
                        assert(burst_received(from, feed.log(), *old(self), *self, r, pieces));
                    }
                    return Err(e);
                },
            };
            proof {
                assert(feed.log() == behind.push(FeedStep::Read(s.wanted() as usize, Ok(piece))));
                assert(pieces.push(piece).drop_last() =~= pieces);
            }
            match decode_piece(&mut self.decoder, &piece) {
                Ok(DecodeOutcome::Packet(metadata, bytes)) => {
                    feed.hand(receiver, metadata, bytes.as_slice());
                    proof {
                        packets = packets.push((metadata, bytes@));
                    }
                    received += 1;
                },
                Ok(DecodeOutcome::End) => {
                    self.exhausted = true;
                    proof {
                        let r = Ok::<usize, NetToolError>(received);
                        lemma_end(s, known, cut(piece@, s.wanted()));
                        assert(step_ends(behind, feed.log(), s, known));
                        assert(burst_received(from, feed.log(), *old(self), *self, r, pieces));
                    }
                    return Ok(received);
                },
                Ok(DecodeOutcome::Nothing) => {},
                Err(e) => {
                    proof {
                        let r = Err::<usize, NetToolError>(e);
                        assert(step_fails(behind, feed.log(), s, known, e));
                        assert(burst_received(from, feed.log(), *old(self), *self, r, pieces));
                    }
                    return Err(e);
                },
            }
            left -= 1;
            proof {
                pieces = pieces.push(piece);
                assert(feed.log() =~= from + steps_of(first, met, pieces));
            }
        }
        proof {
            let r = Ok::<usize, NetToolError>(received);
            assert(burst_received(from, feed.log(), *old(self), *self, r, pieces));
        }
        Ok(received)
    }
}

/// Takes a piece that something else has read; one that is too long is cut.
fn decode_piece(decoder: &mut CaptureDecoder, piece: &Vec<u8>) -> (r: Result<
    DecodeOutcome,
    NetToolError,
>)
    ensures
        match progress(
            old(decoder).stage(),
            old(decoder).interfaces(),
            cut(piece@, old(decoder).stage().wanted()),
        ) {
            Ok((stage, interfaces, given)) => {
                &&& r matches Ok(outcome) && outcome.given() == given
                &&& final(decoder).stage() == stage
                &&& final(decoder).interfaces() == interfaces
            },
            Err((code, message)) => {
                &&& r matches Err(e) && e.is(code, message, false)
                &&& final(decoder).stage() == old(decoder).stage()
                &&& final(decoder).interfaces() == old(decoder).interfaces()
            },
        },
{
    let wanted: usize = decoder.wanted();
    if piece.len() > wanted {
        return decoder.accept(vstd::slice::slice_subrange(piece.as_slice(), 0, wanted));
    }
    decoder.accept(piece.as_slice())
}

fn format_error(message: &str) -> (r: NetToolError)
    ensures
        r.is(ErrorCode::CaptureFormatInvalid, message@, false),
{
    NetToolError::new(ErrorCode::CaptureFormatInvalid, message, false)
}

/// The error of a file that cannot be read; it can be repeated where the system was
/// interrupted.
pub fn read_error(detail: &str, interrupted: bool) -> (r: NetToolError)
    ensures
        r.is(
            ErrorCode::CaptureReadFailed,
            "capture file read failed: "@ + detail@,
            interrupted,
        ),
{
    NetToolError::new(
        ErrorCode::CaptureReadFailed,
        crate::text::concat("capture file read failed: ", detail).as_str(),
        interrupted,
    )
}

} // verus!
