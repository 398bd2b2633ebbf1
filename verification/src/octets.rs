//! Fixed width integers as sequences of bytes, and small helpers on byte slices.

use vstd::prelude::*;

verus! {

/// The bytes of a 32 bit number, most significant first.
pub open spec fn be32(n: u32) -> Seq<u8> {
    seq![
        (n / 0x100_0000) as u8,
        (n / 0x1_0000 % 0x100) as u8,
        (n / 0x100 % 0x100) as u8,
        (n % 0x100) as u8,
    ]
}

/// The bytes of a 64 bit number, most significant first.
pub open spec fn be64(n: u64) -> Seq<u8> {
    be32((n / 0x1_0000_0000) as u32) + be32((n % 0x1_0000_0000) as u32)
}

/// The number whose bytes are given, most significant first.
pub open spec fn be_value(bytes: Seq<u8>) -> nat
    decreases bytes.len(),
{
    if bytes.len() == 0 {
        0
    } else {
        be_value(bytes.drop_last()) * 256 + bytes.last() as nat
    }
}

/// The number whose bytes are given, least significant first.
pub open spec fn le_value(bytes: Seq<u8>) -> nat
    decreases bytes.len(),
{
    if bytes.len() == 0 {
        0
    } else {
        le_value(bytes.drop_first()) * 256 + bytes[0] as nat
    }
}

/// Four bytes, most significant first, written out.
pub proof fn lemma_be_value_4(b: Seq<u8>)
    requires
        b.len() == 4,
    ensures
        be_value(b) == b[0] * 0x100_0000 + b[1] * 0x1_0000 + b[2] * 0x100 + b[3],
{
    reveal_with_fuel(be_value, 5);
}

/// Four bytes, least significant first, written out.
pub proof fn lemma_le_value_4(b: Seq<u8>)
    requires
        b.len() == 4,
    ensures
        le_value(b) == b[3] * 0x100_0000 + b[2] * 0x1_0000 + b[1] * 0x100 + b[0],
{
    reveal_with_fuel(le_value, 5);
}

/// Two bytes, most significant first, written out.
pub proof fn lemma_be_value_2(b: Seq<u8>)
    requires
        b.len() == 2,
    ensures
        be_value(b) == b[0] * 0x100 + b[1],
{
    reveal_with_fuel(be_value, 3);
}

/// Two bytes, least significant first, written out.
pub proof fn lemma_le_value_2(b: Seq<u8>)
    requires
        b.len() == 2,
    ensures
        le_value(b) == b[1] * 0x100 + b[0],
{
    reveal_with_fuel(le_value, 3);
}

/// The bytes of a 32 bit number read back as that number.
pub proof fn lemma_be32_round_trip(n: u32)
    ensures
        be_value(be32(n)) == n,
{
    lemma_be_value_4(be32(n));
}

/// Appends the bytes of a 32 bit number, most significant first.
pub fn push_be32(out: &mut Vec<u8>, n: u32)
    ensures
        final(out)@ == old(out)@ + be32(n),
{
    out.push((n / 0x100_0000) as u8);
    out.push((n / 0x1_0000 % 0x100) as u8);
    out.push((n / 0x100 % 0x100) as u8);
    out.push((n % 0x100) as u8);
    proof {
        assert(out@ == old(out)@ + be32(n));
    }
}

/// Appends the bytes of a 64 bit number, most significant first.
pub fn push_be64(out: &mut Vec<u8>, n: u64)
    ensures
        final(out)@ == old(out)@ + be64(n),
{
    push_be32(out, (n / 0x1_0000_0000) as u32);
    push_be32(out, (n % 0x1_0000_0000) as u32);
    proof {
        assert(out@ == old(out)@ + be64(n));
    }
}

/// The bytes of a 32 bit number, least significant first.
pub open spec fn le32(n: u32) -> Seq<u8> {
    seq![
        (n % 0x100) as u8,
        (n / 0x100 % 0x100) as u8,
        (n / 0x1_0000 % 0x100) as u8,
        (n / 0x100_0000) as u8,
    ]
}

/// The bytes of a 64 bit number, least significant first.
pub open spec fn le64(n: u64) -> Seq<u8> {
    le32((n % 0x1_0000_0000) as u32) + le32((n / 0x1_0000_0000) as u32)
}

/// Eight bytes, least significant first, are two numbers of four.
pub proof fn lemma_le_value_8(b: Seq<u8>)
    requires
        b.len() == 8,
    ensures
        le_value(b) == le_value(b.take(4)) + le_value(b.skip(4)) * 0x1_0000_0000,
{
    lemma_le_value_4(b.take(4));
    lemma_le_value_4(b.skip(4));
    reveal_with_fuel(le_value, 9);
}

/// The bytes of a 32 bit number, least significant first, read back as that number.
pub proof fn lemma_le32_round_trip(n: u32)
    ensures
        le_value(le32(n)) == n,
{
    lemma_le_value_4(le32(n));
}

/// The bytes of a 64 bit number, least significant first, read back as that number.
pub proof fn lemma_le64_round_trip(n: u64)
    ensures
        le_value(le64(n)) == n,
{
    let low = (n % 0x1_0000_0000) as u32;
    let high = (n / 0x1_0000_0000) as u32;
    lemma_le32_round_trip(low);
    lemma_le32_round_trip(high);
    lemma_le_value_8(le64(n));
    assert(le64(n).take(4) =~= le32(low));
    assert(le64(n).skip(4) =~= le32(high));
}

/// Bytes with others written over them.
pub open spec fn written(bytes: Seq<u8>, at: int, data: Seq<u8>) -> Seq<u8> {
    Seq::new(
        bytes.len(),
        |i: int|
            if at <= i < at + data.len() {
                data[i - at]
            } else {
                bytes[i]
            },
    )
}

/// Reads a 64 bit number, least significant byte first.
pub fn read_le64(bytes: &[u8], at: usize) -> (r: u64)
    requires
        at + 8 <= bytes@.len(),
    ensures
        r == le_value(bytes@.subrange(at as int, at + 8)),
{
    proof {
        let b = bytes@.subrange(at as int, at + 8);
        lemma_le_value_8(b);
        assert(b.take(4) =~= bytes@.subrange(at as int, at + 4));
        assert(b.skip(4) =~= bytes@.subrange(at + 4, at + 8));
    }
    let total: usize = bytes.len();
    let low: u64 = read_le32(bytes, at) as u64;
    let high: u64 = read_le32(bytes, at + 4) as u64;
    high * 0x1_0000_0000 + low
}

/// Writes a 32 bit number over four bytes, least significant first.
pub fn write_le32(bytes: &mut Vec<u8>, at: usize, n: u32)
    requires
        at + 4 <= old(bytes)@.len(),
    ensures
        final(bytes)@ == written(old(bytes)@, at as int, le32(n)),
{
    let total: usize = bytes.len();
    bytes.set(at, (n % 0x100) as u8);
    bytes.set(at + 1, (n / 0x100 % 0x100) as u8);
    bytes.set(at + 2, (n / 0x1_0000 % 0x100) as u8);
    bytes.set(at + 3, (n / 0x100_0000) as u8);
    proof {
        assert(bytes@ =~= written(old(bytes)@, at as int, le32(n)));
    }
}

/// Writes a 64 bit number over eight bytes, least significant first.
pub fn write_le64(bytes: &mut Vec<u8>, at: usize, n: u64)
    requires
        at + 8 <= old(bytes)@.len(),
    ensures
        final(bytes)@ == written(old(bytes)@, at as int, le64(n)),
{
    let total: usize = bytes.len();
    write_le32(bytes, at, (n % 0x1_0000_0000) as u32);
    write_le32(bytes, at + 4, (n / 0x1_0000_0000) as u32);
    proof {
        assert(bytes@ =~= written(old(bytes)@, at as int, le64(n)));
    }
}

/// Different 32 bit numbers have different bytes.
pub proof fn lemma_be32_injective(a: u32, b: u32)
    requires
        be32(a) == be32(b),
    ensures
        a == b,
{
    lemma_be32_round_trip(a);
    lemma_be32_round_trip(b);
}

/// Different 64 bit numbers have different bytes.
pub proof fn lemma_be64_injective(a: u64, b: u64)
    requires
        be64(a) == be64(b),
    ensures
        a == b,
{
    assert(be64(a).take(4) == be32((a / 0x1_0000_0000) as u32));
    assert(be64(b).take(4) == be32((b / 0x1_0000_0000) as u32));
    assert(be64(a).skip(4) == be32((a % 0x1_0000_0000) as u32));
    assert(be64(b).skip(4) == be32((b % 0x1_0000_0000) as u32));
    lemma_be32_injective((a / 0x1_0000_0000) as u32, (b / 0x1_0000_0000) as u32);
    lemma_be32_injective((a % 0x1_0000_0000) as u32, (b % 0x1_0000_0000) as u32);
}

/// Reads a 32 bit number, most significant byte first.
pub fn read_be32(bytes: &[u8], at: usize) -> (r: u32)
    requires
        at + 4 <= bytes@.len(),
    ensures
        r == be_value(bytes@.subrange(at as int, at + 4)),
{
    proof {
        lemma_be_value_4(bytes@.subrange(at as int, at + 4));
    }
    bytes[at] as u32 * 0x100_0000 + bytes[at + 1] as u32 * 0x1_0000 + bytes[at + 2] as u32 * 0x100
        + bytes[at + 3] as u32
}

/// Reads a 32 bit number, least significant byte first.
pub fn read_le32(bytes: &[u8], at: usize) -> (r: u32)
    requires
        at + 4 <= bytes@.len(),
    ensures
        r == le_value(bytes@.subrange(at as int, at + 4)),
{
    proof {
        lemma_le_value_4(bytes@.subrange(at as int, at + 4));
    }
    let first: u32 = bytes[at] as u32;
    bytes[at + 3] as u32 * 0x100_0000 + bytes[at + 2] as u32 * 0x1_0000 + bytes[at + 1] as u32
        * 0x100 + first
}

/// Reads a 16 bit number, most significant byte first.
pub fn read_be16(bytes: &[u8], at: usize) -> (r: u16)
    requires
        at + 2 <= bytes@.len(),
    ensures
        r == be_value(bytes@.subrange(at as int, at + 2)),
{
    proof {
        lemma_be_value_2(bytes@.subrange(at as int, at + 2));
    }
    bytes[at] as u16 * 0x100 + bytes[at + 1] as u16
}

/// Reads a 16 bit number, least significant byte first.
pub fn read_le16(bytes: &[u8], at: usize) -> (r: u16)
    requires
        at + 2 <= bytes@.len(),
    ensures
        r == le_value(bytes@.subrange(at as int, at + 2)),
{
    proof {
        lemma_le_value_2(bytes@.subrange(at as int, at + 2));
    }
    let first: u16 = bytes[at] as u16;
    bytes[at + 1] as u16 * 0x100 + first
}

/// Appends a slice of bytes.
pub fn push_bytes(out: &mut Vec<u8>, bytes: &[u8])
    ensures
        final(out)@ == old(out)@ + bytes@,
{
    let ghost before = out@;
    let mut i: usize = 0;
    while i < bytes.len()
        invariant
            i <= bytes@.len(),
            out@ == before + bytes@.take(i as int),
        decreases bytes@.len() - i,
    {
        proof {
            assert(bytes@.take(i + 1) == bytes@.take(i as int).push(bytes@[i as int]));
        }
        out.push(bytes[i]);
        i += 1;
    }
    proof {
        assert(bytes@.take(i as int) == bytes@);
    }
}

/// Whether two byte slices are equal.
pub fn same_bytes(a: &[u8], b: &[u8]) -> (r: bool)
    ensures
        r == (a@ == b@),
{
    if a.len() != b.len() {
        return false;
    }
    let mut i: usize = 0;
    while i < a.len()
        invariant
            i <= a@.len(),
            a@.len() == b@.len(),
            forall|j: int| 0 <= j < i ==> a@[j] == b@[j],
        decreases a@.len() - i,
    {
        if a[i] != b[i] {
            return false;
        }
        i += 1;
    }
    proof {
        assert(a@ =~= b@);
    }
    true
}

} // verus!
