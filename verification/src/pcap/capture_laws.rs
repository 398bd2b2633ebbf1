//! What the decoder makes of files that were written for it: numbers, times and packets come
//! back as they were put in.

use crate::error::ErrorCode;
use crate::octets;
use crate::pcap;
use crate::pcap::{
    Endian, Given, InterfaceDescription, Progress, RecordMetadata, Stage, TimestampResolution,
    TimestampUnit, MAX_CAPTURE_BLOCK_LENGTH,
};
use crate::text;
use vstd::arithmetic::mul::*;
use vstd::arithmetic::power::*;
use vstd::arithmetic::power2::*;
use vstd::prelude::*;
use vstd::utf8::*;

verus! {

// ---------------------------------------------------------------------------------- numbers

/// The four bytes of a number, in one order or the other.
#[verifier::opaque]
pub open spec fn number(n: u32, endian: Endian) -> Seq<u8> {
    let a = (n / 0x100_0000) as u8;
    let b = (n / 0x1_0000 % 0x100) as u8;
    let c = (n / 0x100 % 0x100) as u8;
    let d = (n % 0x100) as u8;
    match endian {
        Endian::Big => seq![a, b, c, d],
        Endian::Little => seq![d, c, b, a],
    }
}

/// The two bytes of a number, in one order or the other.
#[verifier::opaque]
pub open spec fn short_number(n: u16, endian: Endian) -> Seq<u8> {
    match endian {
        Endian::Big => seq![(n / 0x100) as u8, (n % 0x100) as u8],
        Endian::Little => seq![(n % 0x100) as u8, (n / 0x100) as u8],
    }
}

broadcast proof fn lemma_number_length(n: u32, endian: Endian)
    ensures
        #[trigger] number(n, endian).len() == 4,
{
    reveal(number);
}

broadcast proof fn lemma_short_number_length(n: u16, endian: Endian)
    ensures
        #[trigger] short_number(n, endian).len() == 2,
{
    reveal(short_number);
}

/// A number is read back as it was written, wherever it stands.
pub proof fn law_numbers_read_back(b: Seq<u8>, at: int, n: u32, endian: Endian)
    requires
        0 <= at,
        at + 4 <= b.len(),
        b.subrange(at, at + 4) == number(n, endian),
    ensures
        pcap::u32_at(b, at, endian) == n,
{
    reveal(number);
    let s = b.subrange(at, at + 4);
    match endian {
        Endian::Little => octets::lemma_le_value_4(s),
        Endian::Big => octets::lemma_be_value_4(s),
    }
}

/// A short number is read back as it was written, wherever it stands.
pub proof fn law_short_numbers_read_back(b: Seq<u8>, at: int, n: u16, endian: Endian)
    requires
        0 <= at,
        at + 2 <= b.len(),
        b.subrange(at, at + 2) == short_number(n, endian),
    ensures
        pcap::u16_at(b, at, endian) == n,
{
    reveal(short_number);
    let s = b.subrange(at, at + 2);
    match endian {
        Endian::Little => octets::lemma_le_value_2(s),
        Endian::Big => octets::lemma_be_value_2(s),
    }
}

// ------------------------------------------------------------------------------------ times

/// A time stamp in nanoseconds is the time that it counts, rounded down: as many powers of one
/// tenth, or of one half, of a second as it says. A time that does not fit into 64 bits is the
/// largest that does.
pub proof fn law_times_are_rounded_down(timestamp: u64, power: u8)
    ensures
        power <= 19 <==> pcap::nanoseconds(timestamp, TimestampResolution::Decimal(power)) is Some,
        pcap::nanoseconds(timestamp, TimestampResolution::Decimal(power)) matches Some(n) ==> n
            <= u64::MAX && n * pow(10, power as nat) <= timestamp * 1_000_000_000 && (n
            < u64::MAX ==> timestamp * 1_000_000_000 < (n + 1) * pow(10, power as nat)),
        power <= 63 <==> pcap::nanoseconds(timestamp, TimestampResolution::Binary(power)) is Some,
        pcap::nanoseconds(timestamp, TimestampResolution::Binary(power)) matches Some(n) ==> n
            <= u64::MAX && n * pow2(power as nat) <= timestamp * 1_000_000_000 && (n < u64::MAX
            ==> timestamp * 1_000_000_000 < (n + 1) * pow2(power as nat)),
{
    let t = timestamp as int;
    lemma_nine_zeros();
    lemma_pow_positive(10, power as nat);
    lemma_pow2_pos(power as nat);
    if power <= 9 {
        let p = pow(10, power as nat);
        let q = pow(10, (9 - power) as nat);
        lemma_pow_adds(10, power as nat, (9 - power) as nat);
        lemma_pow_positive(10, (9 - power) as nat);
        assert(p * q == 1_000_000_000);
        assert(t * q * p == t * 1_000_000_000) by (nonlinear_arith)
            requires
                p * q == 1_000_000_000,
        ;
        assert(t * q >= 0) by (nonlinear_arith)
            requires
                t >= 0,
                q > 0,
        ;
        let n = pcap::nanoseconds(timestamp, TimestampResolution::Decimal(power))->0;
        assert(n * p <= t * q * p) by (nonlinear_arith)
            requires
                n <= t * q,
                p > 0,
        ;
        assert((n + 1) * p == n * p + p) by (nonlinear_arith);
    } else if power <= 19 {
        let p = pow(10, power as nat);
        let q = pow(10, (power - 9) as nat);
        lemma_pow_adds(10, 9, (power - 9) as nat);
        lemma_pow_positive(10, (power - 9) as nat);
        assert(p == 1_000_000_000 * q);
        lemma_rounded(t, q);
        let n = t / q;
        assert(n * p == n * q * 1_000_000_000) by (nonlinear_arith)
            requires
                p == 1_000_000_000 * q,
        ;
        assert((n + 1) * p == (n + 1) * q * 1_000_000_000) by (nonlinear_arith)
            requires
                p == 1_000_000_000 * q,
        ;
        assert(0 <= n <= t) by (nonlinear_arith)
            requires
                n * q <= t,
                q >= 1,
                t >= 0,
                t < (n + 1) * q,
        ;
    }
    if power <= 63 {
        let p = pow2(power as nat) as int;
        let whole = t * 1_000_000_000;
        lemma_rounded(whole, p);
        let m = whole / p;
        assert(m >= 0) by (nonlinear_arith)
            requires
                whole >= 0,
                p > 0,
                whole < (m + 1) * p,
        ;
        let n = pcap::nanoseconds(timestamp, TimestampResolution::Binary(power))->0 as int;
        assert(n * p <= m * p) by (nonlinear_arith)
            requires
                n <= m,
                p > 0,
        ;
    }
}

proof fn lemma_rounded(a: int, b: int)
    requires
        b > 0,
    ensures
        a / b * b <= a < (a / b + 1) * b,
{
    vstd::arithmetic::div_mod::lemma_fundamental_div_mod(a, b);
    vstd::arithmetic::div_mod::lemma_mod_bound(a, b);
    assert(a / b * b == b * (a / b)) by (nonlinear_arith);
    assert((a / b + 1) * b == b * (a / b) + b) by (nonlinear_arith);
}

proof fn lemma_nine_zeros()
    ensures
        pow(10, 9) == 1_000_000_000,
{
    reveal_with_fuel(pow, 10);
}

/// Later stamps are never earlier times.
pub proof fn law_times_keep_their_order(a: u64, b: u64, resolution: TimestampResolution)
    requires
        a <= b,
    ensures
        pcap::nanoseconds(a, resolution) matches Some(x) ==> (pcap::nanoseconds(
            b,
            resolution,
        ) matches Some(y) && x <= y),
{
    match resolution {
        TimestampResolution::Decimal(power) => {
            law_times_are_rounded_down(a, power);
            law_times_are_rounded_down(b, power);
            if power <= 19 {
                let p = pow(10, power as nat);
                let x = pcap::nanoseconds(a, resolution)->0;
                let y = pcap::nanoseconds(b, resolution)->0;
                lemma_pow_positive(10, power as nat);
                if x > y {
                    assert(x * p >= (y + 1) * p) by (nonlinear_arith)
                        requires
                            x >= y + 1,
                            p > 0,
                    ;
                }
            }
        },
        TimestampResolution::Binary(power) => {
            law_times_are_rounded_down(a, power);
            law_times_are_rounded_down(b, power);
            if power <= 63 {
                let p = pow2(power as nat) as int;
                let x = pcap::nanoseconds(a, resolution)->0;
                let y = pcap::nanoseconds(b, resolution)->0;
                lemma_pow2_pos(power as nat);
                if x > y {
                    assert(x * p >= (y + 1) * p) by (nonlinear_arith)
                        requires
                            x >= y + 1,
                            p > 0,
                    ;
                }
            }
        },
    }
}

// ------------------------------------------------------------------------------------- PCAP

/// The first number of a PCAP file says in which order its bytes are, and what its fractions
/// count.
pub proof fn law_magic_numbers_read_back(
    endian: Endian,
    unit: TimestampUnit,
    known: Seq<InterfaceDescription>,
)
    ensures
        ({
            let magic = number(
                if unit is Microseconds {
                    0xa1b2c3d4
                } else {
                    0xa1b23c4d
                },
                endian,
            );
            &&& Stage::Magic.wanted() == magic.len()
            &&& pcap::progress(Stage::Magic, known, magic) == Ok::<
                Progress,
                (ErrorCode, Seq<char>),
            >((Stage::PcapHeader { endian, unit }, known, Given::Nothing))
        }),
{
    reveal(pcap::after_piece);
    let b = number(
        if unit is Microseconds {
            0xa1b2c3d4
        } else {
            0xa1b23c4d
        },
        endian,
    );
    reveal(number);
    let m1 = seq![0xd4u8, 0xc3, 0xb2, 0xa1];
    let m2 = seq![0xa1u8, 0xb2, 0xc3, 0xd4];
    let m3 = seq![0x4du8, 0x3c, 0xb2, 0xa1];
    let m4 = seq![0xa1u8, 0xb2, 0x3c, 0x4d];
    assert(m1[0] == 0xd4 && m2[0] == 0xa1 && m3[0] == 0x4d && m4[0] == 0xa1);
    assert(m2[2] == 0xc3 && m4[2] == 0x3c);
    match (endian, unit) {
        (Endian::Little, TimestampUnit::Microseconds) => assert(b =~= m1),
        (Endian::Big, TimestampUnit::Microseconds) => assert(b =~= m2),
        (Endian::Little, TimestampUnit::Nanoseconds) => assert(b =~= m3),
        (Endian::Big, TimestampUnit::Nanoseconds) => assert(b =~= m4),
    }
}

/// A file that begins with anything else is refused.
pub proof fn law_other_files_are_refused(first: Seq<u8>, known: Seq<InterfaceDescription>)
    requires
        first.len() == 4,
        first != seq![0x0au8, 0x0d, 0x0d, 0x0a],
        forall|endian: Endian|
            first != #[trigger] number(0xa1b2c3d4, endian) && first != number(0xa1b23c4d, endian),
    ensures
        pcap::progress(Stage::Magic, known, first) is Err,
{
    reveal(pcap::after_piece);
    reveal(number);
    assert(number(0xa1b2c3d4, Endian::Little) =~= seq![0xd4u8, 0xc3, 0xb2, 0xa1]);
    assert(number(0xa1b2c3d4, Endian::Big) =~= seq![0xa1u8, 0xb2, 0xc3, 0xd4]);
    assert(number(0xa1b23c4d, Endian::Little) =~= seq![0x4du8, 0x3c, 0xb2, 0xa1]);
    assert(number(0xa1b23c4d, Endian::Big) =~= seq![0xa1u8, 0xb2, 0x3c, 0x4d]);
}

/// The header of a PCAP file says how long its packets are at most. Only version 2.4, Ethernet and lengths within the bounds
/// are taken.
pub proof fn law_pcap_headers_read_back(
    endian: Endian,
    unit: TimestampUnit,
    major: u16,
    minor: u16,
    between: Seq<u8>,
    snaplen: u32,
    link_type: u32,
    known: Seq<InterfaceDescription>,
)
    requires
        between.len() == 8,
    ensures
        ({
            let header = short_number(major, endian) + short_number(minor, endian) + between
                + number(snaplen, endian) + number(link_type, endian);
            let stage = Stage::PcapHeader { endian, unit };
            &&& stage.wanted() == header.len()
            &&& if major == 2 && minor == 4 && 0 < snaplen <= 16_777_216 && link_type == 1 {
                pcap::progress(stage, known, header) == Ok::<Progress, (ErrorCode, Seq<char>)>(
                    (Stage::RecordHeader { endian, unit, snaplen }, known, Given::Nothing),
                )
            } else {
                pcap::progress(stage, known, header) is Err
            }
        }),
{
    broadcast use {lemma_number_length, lemma_short_number_length};

    reveal(pcap::after_piece);
    let header = short_number(major, endian) + short_number(minor, endian) + between + number(
        snaplen,
        endian,
    ) + number(link_type, endian);
    assert(header.subrange(0, 2) =~= short_number(major, endian));
    assert(header.subrange(2, 4) =~= short_number(minor, endian));
    assert(header.subrange(12, 16) =~= number(snaplen, endian));
    assert(header.subrange(16, 20) =~= number(link_type, endian));
    law_short_numbers_read_back(header, 0, major, endian);
    law_short_numbers_read_back(header, 2, minor, endian);
    law_numbers_read_back(header, 12, snaplen, endian);
    law_numbers_read_back(header, 16, link_type, endian);
}

/// A packet of a PCAP file comes back with its bytes, its length on the wire and its time: the
/// seconds and the fraction that were written. Records whose lengths contradict each other or
/// the header are refused, and so is a fraction of a second or more.
pub proof fn law_pcap_packets_read_back(
    endian: Endian,
    unit: TimestampUnit,
    snaplen: u32,
    seconds: u32,
    fraction: u32,
    wire_length: u32,
    captured: u32,
    data: Seq<u8>,
    known: Seq<InterfaceDescription>,
)
    requires
        data.len() == captured,
    ensures
        ({
            let stage = Stage::RecordHeader { endian, unit, snaplen };
            let header = number(seconds, endian) + number(fraction, endian) + number(
                captured,
                endian,
            ) + number(wire_length, endian);
            let a_second: int = if unit is Microseconds {
                1_000_000
            } else {
                1_000_000_000
            };
            &&& stage.wanted() == header.len()
            &&& if captured <= 16_777_216 && captured <= snaplen && captured <= wire_length
                && fraction < a_second {
                pcap::progress(stage, known, header) matches Ok((body, then, given)) && {
                    &&& given is Nothing
                    &&& then == known
                    &&& body.wanted() == data.len()
                    &&& pcap::progress(body, known, data) matches Ok((next, last, given)) && {
                        &&& next == stage
                        &&& last == known
                        &&& given matches Given::Packet(metadata, bytes) && {
                            &&& bytes == data
                            &&& metadata.wire_length == wire_length
                            &&& metadata.queue_id == 0
                            &&& metadata.timestamp_nanoseconds * a_second == (seconds * a_second
                                + fraction) * 1_000_000_000
                        }
                    }
                }
            } else {
                pcap::progress(stage, known, header) is Err
            }
        }),
{
    broadcast use {lemma_number_length, lemma_short_number_length};

    reveal(pcap::after_piece);
    let header = number(seconds, endian) + number(fraction, endian) + number(captured, endian)
        + number(wire_length, endian);
    assert(header.subrange(0, 4) =~= number(seconds, endian));
    assert(header.subrange(4, 8) =~= number(fraction, endian));
    assert(header.subrange(8, 12) =~= number(captured, endian));
    assert(header.subrange(12, 16) =~= number(wire_length, endian));
    law_numbers_read_back(header, 0, seconds, endian);
    law_numbers_read_back(header, 4, fraction, endian);
    law_numbers_read_back(header, 8, captured, endian);
    law_numbers_read_back(header, 12, wire_length, endian);
}

// ----------------------------------------------------------------------------------- PCAPNG

/// The section header of a PCAPNG file says in which order its bytes are. It has to be of the
/// first major version, and to give its length, a multiple of four, at both ends.
pub proof fn law_section_headers_read_back(
    endian: Endian,
    length: u32,
    again: u32,
    major: u16,
    rest: Seq<u8>,
    known: Seq<InterfaceDescription>,
)
    requires
        28 <= length <= MAX_CAPTURE_BLOCK_LENGTH,
        length % 4 == 0,
        rest.len() == length - 18,
    ensures
        ({
            let prefix = number(length, endian) + number(0x1a2b3c4d, endian);
            let stage = Stage::SectionRest { endian, length };
            let body = short_number(major, endian) + rest + number(again, endian);
            &&& pcap::progress(Stage::Magic, known, seq![0x0au8, 0x0d, 0x0d, 0x0a]) == Ok::<Progress, (ErrorCode, Seq<char>)>((Stage::SectionPrefix, known, Given::Nothing))
            &&& Stage::SectionPrefix.wanted() == prefix.len()
            &&& pcap::progress(Stage::SectionPrefix, known, prefix) == Ok::<Progress, (ErrorCode, Seq<char>)>(
                (stage, known, Given::Nothing),
            )
            &&& stage.wanted() == body.len()
            &&& if major == 1 && again == length {
                pcap::progress(stage, known, body) == Ok::<Progress, (ErrorCode, Seq<char>)>(
                    (Stage::BlockHeader { endian }, known, Given::Nothing),
                )
            } else {
                pcap::progress(stage, known, body) is Err
            }
        }),
{
    broadcast use {lemma_number_length, lemma_short_number_length};

    reveal(pcap::after_piece);
    let first = seq![0x0au8, 0x0d, 0x0d, 0x0a];
    assert(first[0] == 0x0a);
    assert(seq![0xd4u8, 0xc3, 0xb2, 0xa1][0] == 0xd4);
    assert(seq![0xa1u8, 0xb2, 0xc3, 0xd4][0] == 0xa1);
    assert(seq![0x4du8, 0x3c, 0xb2, 0xa1][0] == 0x4d);
    assert(seq![0xa1u8, 0xb2, 0x3c, 0x4d][0] == 0xa1);
    let prefix = number(length, endian) + number(0x1a2b3c4d, endian);
    assert(prefix.subrange(0, 4) =~= number(length, endian));
    let order = prefix.subrange(4, 8);
    assert(order =~= number(0x1a2b3c4d, endian));
    reveal(number);
    assert(seq![0x4du8, 0x3c, 0x2b, 0x1a][0] == 0x4d);
    assert(seq![0x1au8, 0x2b, 0x3c, 0x4d][0] == 0x1a);
    match endian {
        Endian::Little => assert(order =~= seq![0x4du8, 0x3c, 0x2b, 0x1a]),
        Endian::Big => assert(order =~= seq![0x1au8, 0x2b, 0x3c, 0x4d]),
    }
    law_numbers_read_back(prefix, 0, length, endian);
    let body = short_number(major, endian) + rest + number(again, endian);
    assert(body.subrange(0, 2) =~= short_number(major, endian));
    assert(body.subrange(body.len() - 4, body.len() as int) =~= number(again, endian));
    law_short_numbers_read_back(body, 0, major, endian);
    law_numbers_read_back(body, body.len() - 4, again, endian);
}

/// The header of a PCAPNG block gives its type and its length, which has to be a multiple of
/// four within the bounds.
pub proof fn law_block_headers_read_back(
    endian: Endian,
    block_type: u32,
    length: u32,
    known: Seq<InterfaceDescription>,
)
    ensures
        ({
            let header = number(block_type, endian) + number(length, endian);
            let stage = Stage::BlockHeader { endian };
            &&& stage.wanted() == header.len()
            &&& if 12 <= length <= 16_777_216 && length % 4 == 0 {
                pcap::progress(stage, known, header) == Ok::<Progress, (ErrorCode, Seq<char>)>(
                    (Stage::BlockBody { endian, block_type, length }, known, Given::Nothing),
                )
            } else {
                pcap::progress(stage, known, header) is Err
            }
            &&& Stage::BlockBody { endian, block_type, length }.wanted() == length - 8
        }),
{
    broadcast use {lemma_number_length, lemma_short_number_length};

    reveal(pcap::after_piece);
    let header = number(block_type, endian) + number(length, endian);
    assert(header.subrange(0, 4) =~= number(block_type, endian));
    assert(header.subrange(4, 8) =~= number(length, endian));
    law_numbers_read_back(header, 0, block_type, endian);
    law_numbers_read_back(header, 4, length, endian);
}

/// A block whose length is not the same at both ends is refused, and so is a second section. A
/// block of a type that is not known is passed over.
pub proof fn law_other_blocks(
    endian: Endian,
    block_type: u32,
    length: u32,
    again: u32,
    content: Seq<u8>,
    known: Seq<InterfaceDescription>,
)
    requires
        12 <= length <= MAX_CAPTURE_BLOCK_LENGTH,
        content.len() == length - 12,
    ensures
        ({
            let stage = Stage::BlockBody { endian, block_type, length };
            let body = content + number(again, endian);
            &&& again != length || block_type == 0x0a0d0d0a ==> pcap::progress(
                stage,
                known,
                body,
            ) is Err
            &&& again == length && block_type != 1 && block_type != 6 && block_type != 0x0a0d0d0a
                ==> pcap::progress(stage, known, body) == Ok::<Progress, (ErrorCode, Seq<char>)>(
                (Stage::BlockHeader { endian }, known, Given::Nothing),
            )
        }),
{
    broadcast use {lemma_number_length, lemma_short_number_length};

    reveal(pcap::after_piece);
    let body = content + number(again, endian);
    assert(body.subrange(body.len() - 4, body.len() as int) =~= number(again, endian));
    law_numbers_read_back(body, body.len() - 4, again, endian);
}

/// The bytes behind a value that fill it up to a multiple of four.
pub open spec fn filled_up(length: int, padding: Seq<u8>) -> bool {
    padding.len() < 4 && (length + padding.len()) % 4 == 0
}

/// An option as it is written: its code, its length, its value and what fills it up.
pub open spec fn option_bytes(
    code: u16,
    value: Seq<u8>,
    padding: Seq<u8>,
    endian: Endian,
) -> Seq<u8> {
    short_number(code, endian) + short_number(value.len() as u16, endian) + value + padding
}

/// An option is read back as it was written, and so is what is behind it.
pub proof fn law_options_read_back(
    code: u16,
    value: Seq<u8>,
    padding: Seq<u8>,
    behind: Seq<u8>,
    endian: Endian,
)
    requires
        code != 0,
        value.len() <= u16::MAX,
        filled_up(value.len() as int, padding),
    ensures
        pcap::next_option(option_bytes(code, value, padding, endian) + behind, endian)
            == Ok::<Option<(nat, Seq<u8>, Seq<u8>)>, Seq<char>>(
            Some((code as nat, value, behind)),
        ),
{
    broadcast use {lemma_number_length, lemma_short_number_length};

    let b = option_bytes(code, value, padding, endian) + behind;
    let n = value.len() as u16;
    assert(b.subrange(0, 2) =~= short_number(code, endian));
    assert(b.subrange(2, 4) =~= short_number(n, endian));
    law_short_numbers_read_back(b, 0, code, endian);
    law_short_numbers_read_back(b, 2, n, endian);
    assert(pcap::padded(n as int) == n + padding.len());
    assert(b.subrange(4, 4 + n) =~= value);
    assert(b.skip(4 + pcap::padded(n as int)) =~= behind);
}

/// An interface block gives the longest packet and what the time stamps of the interface count:
/// microseconds unless an option says otherwise. Only Ethernet is taken.
pub proof fn law_interfaces_read_back(
    endian: Endian,
    link_type: u16,
    reserved: Seq<u8>,
    snaplen: u32,
    length: u32,
    known: Seq<InterfaceDescription>,
)
    requires
        reserved.len() == 2,
        length == 20,
    ensures
        ({
            let stage = Stage::BlockBody { endian, block_type: 1, length };
            let block = short_number(link_type, endian) + reserved + number(snaplen, endian)
                + number(length, endian);
            &&& stage.wanted() == block.len()
            &&& if link_type == 1 {
                pcap::progress(stage, known, block) == Ok::<Progress, (ErrorCode, Seq<char>)>(
                    (
                        Stage::BlockHeader { endian },
                        known.push(
                            InterfaceDescription {
                                link_type: 1,
                                snaplen,
                                timestamp_resolution: TimestampResolution::Decimal(6),
                            },
                        ),
                        Given::Nothing,
                    ),
                )
            } else {
                pcap::progress(stage, known, block) is Err
            }
        }),
{
    broadcast use {lemma_number_length, lemma_short_number_length};

    reveal(pcap::after_piece);
    let block = short_number(link_type, endian) + reserved + number(snaplen, endian) + number(
        length,
        endian,
    );
    let body = block.take(block.len() - 4);
    assert(block.subrange(block.len() - 4, block.len() as int) =~= number(length, endian));
    law_numbers_read_back(block, block.len() - 4, length, endian);
    assert(body.subrange(0, 2) =~= short_number(link_type, endian));
    assert(body.subrange(4, 8) =~= number(snaplen, endian));
    law_short_numbers_read_back(body, 0, link_type, endian);
    law_numbers_read_back(body, 4, snaplen, endian);
    assert(body.skip(8) =~= Seq::<u8>::empty());
}

/// An interface block with an option of its own for time stamps: its lower seven bits are a
/// power, of one half where the highest bit is set and of one tenth otherwise.
pub proof fn law_resolutions_read_back(
    endian: Endian,
    reserved: Seq<u8>,
    snaplen: u32,
    resolution: u8,
    padding: Seq<u8>,
    length: u32,
    known: Seq<InterfaceDescription>,
)
    requires
        reserved.len() == 2,
        padding.len() == 3,
        length == 28,
    ensures
        ({
            let stage = Stage::BlockBody { endian, block_type: 1, length };
            let block = short_number(1, endian) + reserved + number(snaplen, endian)
                + option_bytes(9, seq![resolution], padding, endian) + number(length, endian);
            &&& stage.wanted() == block.len()
            &&& pcap::progress(stage, known, block) == Ok::<Progress, (ErrorCode, Seq<char>)>(
                (
                    Stage::BlockHeader { endian },
                    known.push(
                        InterfaceDescription {
                            link_type: 1,
                            snaplen,
                            timestamp_resolution: if resolution >= 0x80 {
                                TimestampResolution::Binary((resolution - 0x80) as u8)
                            } else {
                                TimestampResolution::Decimal(resolution)
                            },
                        },
                    ),
                    Given::Nothing,
                ),
            )
        }),
{
    broadcast use {lemma_number_length, lemma_short_number_length};

    reveal(pcap::after_piece);
    let option = option_bytes(9, seq![resolution], padding, endian);
    let block = short_number(1, endian) + reserved + number(snaplen, endian) + option + number(
        length,
        endian,
    );
    let body = block.take(block.len() - 4);
    assert(block.subrange(block.len() - 4, block.len() as int) =~= number(length, endian));
    law_numbers_read_back(block, block.len() - 4, length, endian);
    assert(body.subrange(0, 2) =~= short_number(1, endian));
    assert(body.subrange(4, 8) =~= number(snaplen, endian));
    law_short_numbers_read_back(body, 0, 1, endian);
    law_numbers_read_back(body, 4, snaplen, endian);
    assert(body.skip(8) =~= option + Seq::<u8>::empty());
    law_options_read_back(9, seq![resolution], padding, Seq::empty(), endian);
    reveal_with_fuel(pcap::resolution_from, 3);
}

/// What an enhanced packet block holds before its options: the interface, the time in two
/// halves, the bytes that were kept and the length on the wire, and the packet, filled up.
pub open spec fn packet_bytes(
    endian: Endian,
    id: u32,
    timestamp: u64,
    wire_length: u32,
    data: Seq<u8>,
    padding: Seq<u8>,
) -> Seq<u8> {
    number(id, endian) + number((timestamp / 0x1_0000_0000) as u32, endian) + number(
        (timestamp % 0x1_0000_0000) as u32,
        endian,
    ) + number(data.len() as u32, endian) + number(wire_length, endian) + data + padding
}

proof fn lemma_packet_bytes(
    endian: Endian,
    id: u32,
    timestamp: u64,
    wire_length: u32,
    data: Seq<u8>,
    padding: Seq<u8>,
    behind: Seq<u8>,
)
    requires
        data.len() <= MAX_CAPTURE_BLOCK_LENGTH,
        filled_up(data.len() as int, padding),
    ensures
        ({
            let body = packet_bytes(endian, id, timestamp, wire_length, data, padding) + behind;
            &&& body.len() >= 20
            &&& pcap::u32_at(body, 0, endian) == id
            &&& pcap::u32_at(body, 4, endian) * 0x1_0000_0000 + pcap::u32_at(body, 8, endian)
                == timestamp
            &&& pcap::u32_at(body, 12, endian) == data.len()
            &&& pcap::u32_at(body, 16, endian) == wire_length
            &&& body.subrange(20, 20 + data.len() as int) == data
            &&& 20 + pcap::padded(data.len() as int) <= body.len()
            &&& body.skip(20 + pcap::padded(data.len() as int)) == behind
        }),
{
    broadcast use {lemma_number_length, lemma_short_number_length};

    let body = packet_bytes(endian, id, timestamp, wire_length, data, padding) + behind;
    let high = (timestamp / 0x1_0000_0000) as u32;
    let low = (timestamp % 0x1_0000_0000) as u32;
    let n = data.len() as u32;
    assert(body.subrange(0, 4) =~= number(id, endian));
    assert(body.subrange(4, 8) =~= number(high, endian));
    assert(body.subrange(8, 12) =~= number(low, endian));
    assert(body.subrange(12, 16) =~= number(n, endian));
    assert(body.subrange(16, 20) =~= number(wire_length, endian));
    law_numbers_read_back(body, 0, id, endian);
    law_numbers_read_back(body, 4, high, endian);
    law_numbers_read_back(body, 8, low, endian);
    law_numbers_read_back(body, 12, n, endian);
    law_numbers_read_back(body, 16, wire_length, endian);
    assert(body.subrange(20, 20 + data.len() as int) =~= data);
    assert(pcap::padded(data.len() as int) == data.len() + padding.len());
    assert(body.skip(20 + pcap::padded(data.len() as int)) =~= behind);
}

/// A packet of a PCAPNG file comes back with its bytes, its length on the wire and its time: the
/// whole of the 64 bits that were written, as the interface counts them. Its queue is the number
/// of the interface, as far as that fits.
pub proof fn law_enhanced_packets_read_back(
    endian: Endian,
    id: u32,
    timestamp: u64,
    wire_length: u32,
    data: Seq<u8>,
    padding: Seq<u8>,
    length: u32,
    known: Seq<InterfaceDescription>,
)
    requires
        id < known.len(),
        known[id as int].link_type == 1,
        known[id as int].snaplen == 0 || data.len() <= known[id as int].snaplen,
        data.len() <= wire_length,
        filled_up(data.len() as int, padding),
        length == 32 + data.len() + padding.len(),
        length <= MAX_CAPTURE_BLOCK_LENGTH,
    ensures
        ({
            let stage = Stage::BlockBody { endian, block_type: 6, length };
            let block = packet_bytes(endian, id, timestamp, wire_length, data, padding) + number(
                length,
                endian,
            );
            &&& stage.wanted() == block.len()
            &&& match known[id as int].timestamp_resolution {
                TimestampResolution::Decimal(p) => p <= 19,
                TimestampResolution::Binary(p) => p <= 63,
            } <==> pcap::progress(stage, known, block) is Ok
            &&& pcap::progress(stage, known, block) matches Ok((next, then, given)) ==> {
                &&& next == Stage::BlockHeader { endian }
                &&& then == known
                &&& given matches Given::Packet(metadata, bytes) && {
                    &&& bytes == data
                    &&& metadata.wire_length == wire_length
                    &&& metadata.queue_id == if id <= 0xffff {
                        id
                    } else {
                        0xffff
                    }
                    &&& is_time(
                        timestamp,
                        known[id as int].timestamp_resolution,
                        metadata.timestamp_nanoseconds,
                    )
                }
            }
        }),
{
    broadcast use {lemma_number_length, lemma_short_number_length};

    let behind = Seq::<u8>::empty();
    let b = packet_bytes(endian, id, timestamp, wire_length, data, padding);
    assert(b + behind =~= b);
    lemma_packet_bytes(endian, id, timestamp, wire_length, data, padding, behind);
    lemma_packet_block(endian, id, timestamp, wire_length, data, padding, behind, length, known);
}

/// Whether a number of nanoseconds is the time that a stamp counts, rounded down, or the largest
/// one where that is more than 64 bits hold.
pub open spec fn is_time(timestamp: u64, resolution: TimestampResolution, n: u64) -> bool {
    let part: int = match resolution {
        TimestampResolution::Decimal(p) => pow(10, p as nat),
        TimestampResolution::Binary(p) => pow2(p as nat) as int,
    };
    n * part <= timestamp * 1_000_000_000 && (n < u64::MAX ==> timestamp * 1_000_000_000 < (n + 1)
        * part)
}

/// A time that is counted in nanoseconds is itself, in microseconds it is a thousand times as
/// many nanoseconds, and in seconds a thousand million times as many.
pub proof fn law_common_resolutions(timestamp: u64, n: u64)
    ensures
        is_time(timestamp, TimestampResolution::Decimal(9), n) <==> n == timestamp,
        timestamp * 1000 < u64::MAX ==> (is_time(timestamp, TimestampResolution::Decimal(6), n)
            <==> n == timestamp * 1000),
        timestamp * 1_000_000_000 < u64::MAX ==> (is_time(
            timestamp,
            TimestampResolution::Decimal(0),
            n,
        ) <==> n == timestamp * 1_000_000_000),
        timestamp * 1_000_000_000 < u64::MAX ==> (is_time(
            timestamp,
            TimestampResolution::Binary(0),
            n,
        ) <==> n == timestamp * 1_000_000_000),
{
    lemma_nine_zeros();
    reveal_with_fuel(pow, 7);
    lemma2_to64();
    let micro = pow(10, 6);
    let nano = pow(10, 9);
    let one = pow(10, 0);
    let half = pow2(0) as int;
    assert(micro == 1_000_000);
    assert(n * micro == n * 1_000_000 && (n + 1) * micro == (n + 1) * 1_000_000);
    assert(n * nano == n * 1_000_000_000 && (n + 1) * nano == (n + 1) * 1_000_000_000);
    assert(n * one == n && (n + 1) * one == n + 1) by (nonlinear_arith)
        requires
            one == 1,
    ;
    assert(n * half == n && (n + 1) * half == n + 1) by (nonlinear_arith)
        requires
            half == 1,
    ;
}

proof fn lemma_packet_block(
    endian: Endian,
    id: u32,
    timestamp: u64,
    wire_length: u32,
    data: Seq<u8>,
    padding: Seq<u8>,
    behind: Seq<u8>,
    length: u32,
    known: Seq<InterfaceDescription>,
)
    requires
        id < known.len(),
        known[id as int].link_type == 1,
        known[id as int].snaplen == 0 || data.len() <= known[id as int].snaplen,
        data.len() <= wire_length,
        filled_up(data.len() as int, padding),
        length == 32 + data.len() + padding.len() + behind.len(),
        length <= MAX_CAPTURE_BLOCK_LENGTH,
    ensures
        ({
            let stage = Stage::BlockBody { endian, block_type: 6, length };
            let block = packet_bytes(endian, id, timestamp, wire_length, data, padding) + behind
                + number(length, endian);
            let first = pcap::queue_of_interface(id as nat);
            let time = pcap::nanoseconds(timestamp, known[id as int].timestamp_resolution);
            &&& stage.wanted() == block.len()
            &&& match (pcap::queue_from(behind, endian, first), time) {
                (Ok(queue_id), Some(n)) => n <= u64::MAX && is_time(
                    timestamp,
                    known[id as int].timestamp_resolution,
                    n as u64,
                ) && pcap::progress(stage, known, block) == Ok::<Progress, (ErrorCode, Seq<char>)>(
                    (
                        Stage::BlockHeader { endian },
                        known,
                        Given::Packet(
                            RecordMetadata {
                                timestamp_nanoseconds: n as u64,
                                wire_length,
                                queue_id,
                            },
                            data,
                        ),
                    ),
                ),
                _ => pcap::progress(stage, known, block) is Err,
            }
            &&& time is Some <==> match known[id as int].timestamp_resolution {
                TimestampResolution::Decimal(p) => p <= 19,
                TimestampResolution::Binary(p) => p <= 63,
            }
            &&& pcap::queue_from(Seq::<u8>::empty(), endian, first) == Ok::<u16, Seq<char>>(first)
        }),
{
    broadcast use {lemma_number_length, lemma_short_number_length};

    reveal(pcap::after_piece);
    let body = packet_bytes(endian, id, timestamp, wire_length, data, padding) + behind;
    let block = body + number(length, endian);
    lemma_packet_bytes(endian, id, timestamp, wire_length, data, padding, behind);
    assert(block.subrange(block.len() - 4, block.len() as int) =~= number(length, endian));
    law_numbers_read_back(block, block.len() - 4, length, endian);
    assert(block.take(block.len() - 4) =~= body);
    match known[id as int].timestamp_resolution {
        TimestampResolution::Decimal(p) => law_times_are_rounded_down(timestamp, p),
        TimestampResolution::Binary(p) => law_times_are_rounded_down(timestamp, p),
    }
}

/// A comment of a packet that names its queue is read back: the queue of the packet is the
/// number that was written. Any other comment leaves the queue as it is.
pub proof fn law_queue_comments_read_back(
    endian: Endian,
    queue: u16,
    first: u16,
    padding: Seq<u8>,
)
    requires
        filled_up(encode_utf8("queue_id="@ + text::decimal(queue as nat)).len() as int, padding),
        encode_utf8("queue_id="@ + text::decimal(queue as nat)).len() <= u16::MAX,
    ensures
        ({
            let comment = encode_utf8("queue_id="@ + text::decimal(queue as nat));
            pcap::queue_from(option_bytes(1, comment, padding, endian), endian, first) == Ok::<
                u16,
                Seq<char>,
            >(queue)
        }),
{
    broadcast use {lemma_number_length, lemma_short_number_length};

    let prefix = "queue_id="@;
    let words = prefix + text::decimal(queue as nat);
    let comment = encode_utf8(words);
    let b = option_bytes(1, comment, padding, endian);
    let behind = Seq::<u8>::empty();
    assert(b + behind =~= b);
    law_options_read_back(1, comment, padding, behind, endian);
    encode_utf8_valid_utf8(words);
    encode_utf8_decode_utf8(words);
    assert(words.take(prefix.len() as int) =~= prefix);
    assert(words.skip(prefix.len() as int) =~= text::decimal(queue as nat));
    text::lemma_decimal_round_trip(queue as nat, u16::MAX as nat);
    reveal_with_fuel(pcap::queue_from, 3);
}

/// A packet block that contradicts itself or what is known is refused: an interface that was
/// not announced or is no Ethernet, and more bytes than the interface keeps, than there were on
/// the wire or than the block holds.
pub proof fn law_wrong_packets_are_refused(
    endian: Endian,
    id: u32,
    rest: Seq<u8>,
    captured: u32,
    wire_length: u32,
    behind: Seq<u8>,
    length: u32,
    known: Seq<InterfaceDescription>,
)
    requires
        rest.len() == 8,
        length == 32 + behind.len(),
        length <= MAX_CAPTURE_BLOCK_LENGTH,
        id >= known.len() || known[id as int].link_type != 1 || (known[id as int].snaplen != 0
            && captured > known[id as int].snaplen) || captured > wire_length || captured
            > behind.len(),
    ensures
        pcap::progress(
            Stage::BlockBody { endian, block_type: 6, length },
            known,
            number(id, endian) + rest + number(captured, endian) + number(wire_length, endian)
                + behind + number(length, endian),
        ) is Err,
{
    broadcast use {lemma_number_length, lemma_short_number_length};

    reveal(pcap::after_piece);
    let body = number(id, endian) + rest + number(captured, endian) + number(wire_length, endian)
        + behind;
    let block = body + number(length, endian);
    assert(block.subrange(block.len() - 4, block.len() as int) =~= number(length, endian));
    law_numbers_read_back(block, block.len() - 4, length, endian);
    assert(block.take(block.len() - 4) =~= body);
    assert(body.subrange(0, 4) =~= number(id, endian));
    assert(body.subrange(12, 16) =~= number(captured, endian));
    assert(body.subrange(16, 20) =~= number(wire_length, endian));
    law_numbers_read_back(body, 0, id, endian);
    law_numbers_read_back(body, 12, captured, endian);
    law_numbers_read_back(body, 16, wire_length, endian);
}

/// A file may end only between packets or blocks: there, nothing more is the end; anywhere else
/// a piece that is too short is refused.
pub proof fn law_files_end_between_packets(
    stage: Stage,
    known: Seq<InterfaceDescription>,
    piece: Seq<u8>,
)
    requires
        piece.len() < stage.wanted(),
    ensures
        (stage is RecordHeader || stage is BlockHeader) && piece.len() == 0 <==> pcap::progress(
            stage,
            known,
            piece,
        ) is Ok,
        pcap::progress(stage, known, piece) matches Ok((next, then, given)) ==> next == stage
            && then == known && given is End,
{
}

} // verus!
