//! The Protocol Buffers wire format: keys, values and the fields of a message.

use crate::octets::push_bytes;
use vstd::prelude::*;
use vstd::utf8::*;

verus! {

/// The value of a field as it stands on the wire.
#[verifier::ext_equal]
pub enum WireValue {
    /// A variable length integer.
    Varint(u64),
    /// A length and that many bytes.
    Bytes(Seq<u8>),
    /// Eight bytes, four bytes or a group; no message here has such a field.
    Other(u8),
}

/// One field of a message as it stands on the wire.
#[verifier::ext_equal]
pub struct WireField {
    /// The number of the field.
    pub tag: u32,
    /// Its value.
    pub value: WireValue,
}

/// What can be wrong with an encoded message.
#[derive(Clone, Copy, Debug, PartialEq, Eq, Structural)]
pub enum WireFault {
    /// A variable length integer is cut short or exceeds 64 bits.
    Varint,
    /// A field key exceeds 32 bits.
    Key(u64),
    /// A field key names no wire type.
    WireType(u64),
    /// A field key has the number zero.
    Tag,
    /// A value is longer than what is left.
    Underflow,
    /// A group ends that was not begun.
    EndGroup,
    /// Groups and messages are nested too deeply.
    Recursion,
    /// A field has another wire type than its message says.
    Mismatch(u8, u8),
    /// A text field is not UTF-8.
    Utf8,
}

/// How deeply messages and groups may nest.
pub const NESTING_LIMIT: u32 = 100;

/// The largest field number.
pub const MAX_TAG: u32 = 0x1fff_ffff;

// ---------------------------------------------------------------- variable length integers

/// The bytes of a number in groups of seven bits, least significant first.
pub open spec fn varint_bytes(n: nat) -> Seq<u8>
    decreases n,
{
    if n < 0x80 {
        seq![n as u8]
    } else {
        seq![(n % 0x80 + 0x80) as u8] + varint_bytes(n / 0x80)
    }
}

/// The number of bytes up to the first one without the continuation bit; zero where all
/// have it.
pub open spec fn varint_len(b: Seq<u8>) -> nat
    decreases b.len(),
{
    if b.len() == 0 {
        0
    } else if b[0] < 0x80 {
        1
    } else if varint_len(b.drop_first()) == 0 {
        0
    } else {
        1 + varint_len(b.drop_first())
    }
}

/// The number made of the low seven bits of each byte up to the first one without the
/// continuation bit.
pub open spec fn varint_sum(b: Seq<u8>) -> nat
    decreases b.len(),
{
    if b.len() == 0 {
        0
    } else if b[0] < 0x80 {
        b[0] as nat
    } else {
        (b[0] - 0x80) as nat + 0x80 * varint_sum(b.drop_first())
    }
}

/// The variable length integer that begins a byte sequence, and the bytes after it. It has
/// at most ten bytes and fits in 64 bits.
pub open spec fn varint(b: Seq<u8>) -> Option<(u64, Seq<u8>)> {
    if 1 <= varint_len(b) <= 10 && varint_sum(b) <= u64::MAX {
        Some((varint_sum(b) as u64, b.skip(varint_len(b) as int)))
    } else {
        None
    }
}

/// A variable length integer is not longer than what holds it.
pub proof fn lemma_varint_len(b: Seq<u8>)
    ensures
        varint_len(b) <= b.len(),
    decreases b.len(),
{
    if b.len() > 0 {
        lemma_varint_len(b.drop_first());
    }
}

/// Reading a variable length integer consumes at least one byte.
pub proof fn lemma_varint_shrinks(b: Seq<u8>)
    ensures
        varint(b) matches Some((_, rest)) ==> rest.len() < b.len(),
{
    lemma_varint_len(b);
}

proof fn lemma_varint_bytes_len(n: nat, k: nat)
    requires
        k >= 1,
        n < vstd::arithmetic::power::pow(0x80, k),
    ensures
        1 <= varint_bytes(n).len() <= k,
    decreases k,
{
    vstd::arithmetic::power::lemma_pow0(0x80);
    if n >= 0x80 {
        if k == 1 {
            vstd::arithmetic::power::lemma_pow1(0x80);
        } else {
            reveal_with_fuel(vstd::arithmetic::power::pow, 2);
            assert(vstd::arithmetic::power::pow(0x80, k) == 0x80 * vstd::arithmetic::power::pow(
                0x80,
                (k - 1) as nat,
            ));
            lemma_varint_bytes_len(n / 0x80, (k - 1) as nat);
        }
    }
}

proof fn lemma_varint_sum_of_bytes(n: nat, rest: Seq<u8>)
    ensures
        varint_sum(varint_bytes(n) + rest) == n,
        varint_len(varint_bytes(n) + rest) == varint_bytes(n).len(),
        varint_bytes(n).len() >= 1,
    decreases n,
{
    let b = varint_bytes(n) + rest;
    if n < 0x80 {
        assert(b[0] == n as u8);
    } else {
        assert(b[0] == (n % 0x80 + 0x80) as u8);
        assert(b.drop_first() == varint_bytes(n / 0x80) + rest);
        lemma_varint_sum_of_bytes(n / 0x80, rest);
    }
}

/// Reading back a variable length integer gives the number and what follows it.
pub proof fn lemma_varint_round_trip(n: u64, rest: Seq<u8>)
    ensures
        varint(varint_bytes(n as nat) + rest) == Some((n, rest)),
        1 <= varint_bytes(n as nat).len() <= 10,
{
    lemma_varint_sum_of_bytes(n as nat, rest);
    assert(u64::MAX < vstd::arithmetic::power::pow(0x80, 10)) by {
        reveal_with_fuel(vstd::arithmetic::power::pow, 11);
    }
    lemma_varint_bytes_len(n as nat, 10);
    let b = varint_bytes(n as nat) + rest;
    assert(b.skip(varint_bytes(n as nat).len() as int) == rest);
}

/// `prost::encoding::encode_varint` appends the number in groups of seven bits, least
/// significant first, with the high bit set in every byte but the last.
#[verifier::external_body]
fn put_varint(n: u64, out: &mut Vec<u8>)
    ensures
        final(out)@ == old(out)@ + varint_bytes(n as nat),
{
    prost::encoding::encode_varint(n, out)
}

/// `prost::encoding::decode_varint` reads such a number from the front of a buffer and
/// leaves the bytes after it; it refuses one that is cut short, is longer than ten bytes or
/// exceeds 64 bits.
#[verifier::external_body]
fn take_varint(bytes: &[u8]) -> (r: Option<(u64, &[u8])>)
    ensures
        r is Some <==> varint(bytes@) is Some,
        r matches Some((n, rest)) ==> varint(bytes@) == Some((n, rest@)),
{
    let mut rest: &[u8] = bytes;
    match prost::encoding::decode_varint(&mut rest) {
        Ok(n) => Some((n, rest)),
        Err(_) => None,
    }
}

// ---------------------------------------------------------------------------------- fields

/// The key that begins a field: its number, its wire type and the bytes after the key.
pub open spec fn key(b: Seq<u8>) -> Result<(u32, u8, Seq<u8>), WireFault> {
    match varint(b) {
        None => Err(WireFault::Varint),
        Some((k, rest)) => if k > u32::MAX {
            Err(WireFault::Key(k))
        } else if k % 8 > 5 {
            Err(WireFault::WireType((k % 8) as u64))
        } else if k / 8 == 0 {
            Err(WireFault::Tag)
        } else {
            Ok(((k / 8) as u32, (k % 8) as u8, rest))
        },
    }
}

/// The bytes after a value of a given wire type, which is not looked at. A group reaches up
/// to the end mark with its own number.
pub open spec fn after_value(wire: u8, tag: u32, b: Seq<u8>, depth: nat) -> Result<
    Seq<u8>,
    WireFault,
>
    decreases b.len(), 1int,
{
    if depth == 0 {
        Err(WireFault::Recursion)
    } else if wire == 0 {
        match varint(b) {
            None => Err(WireFault::Varint),
            Some((_, rest)) => Ok(rest),
        }
    } else if wire == 1 || wire == 5 {
        let n = if wire == 1 {
            8int
        } else {
            4int
        };
        if n > b.len() {
            Err(WireFault::Underflow)
        } else {
            Ok(b.skip(n))
        }
    } else if wire == 2 {
        match varint(b) {
            None => Err(WireFault::Varint),
            Some((n, rest)) => if n > rest.len() {
                Err(WireFault::Underflow)
            } else {
                Ok(rest.skip(n as int))
            },
        }
    } else if wire == 3 {
        after_group(tag, b, depth)
    } else {
        Err(WireFault::EndGroup)
    }
}

/// The bytes after the end mark of a group.
pub open spec fn after_group(tag: u32, b: Seq<u8>, depth: nat) -> Result<Seq<u8>, WireFault>
    decreases b.len(), 0int,
{
    match key(b) {
        Err(fault) => Err(fault),
        Ok((inner, wire, rest)) => if wire == 4 {
            if inner == tag {
                Ok(rest)
            } else {
                Err(WireFault::EndGroup)
            }
        } else if rest.len() >= b.len() || depth == 0 {
            Err(WireFault::Recursion)
        } else {
            match after_value(wire, inner, rest, (depth - 1) as nat) {
                Err(fault) => Err(fault),
                Ok(next) => if next.len() >= b.len() {
                    Err(WireFault::Recursion)
                } else {
                    after_group(tag, next, depth)
                },
            }
        },
    }
}

/// The field that begins a byte sequence, and the bytes after it.
pub open spec fn first_field(b: Seq<u8>, depth: nat) -> Result<(WireField, Seq<u8>), WireFault> {
    match key(b) {
        Err(fault) => Err(fault),
        Ok((tag, wire, rest)) => match after_value(wire, tag, rest, depth) {
            Err(fault) => Err(fault),
            Ok(next) => {
                let value = if wire == 0 {
                    WireValue::Varint((varint(rest)->0).0)
                } else if wire == 2 {
                    WireValue::Bytes((varint(rest)->0).1.take((varint(rest)->0).0 as int))
                } else {
                    WireValue::Other(wire)
                };
                Ok((WireField { tag, value }, next))
            },
        },
    }
}

/// All fields of a message, in order.
pub open spec fn fields(b: Seq<u8>, depth: nat) -> Result<Seq<WireField>, WireFault>
    decreases b.len(),
{
    if b.len() == 0 {
        Ok(Seq::empty())
    } else {
        match first_field(b, depth) {
            Err(fault) => Err(fault),
            Ok((field, rest)) => if rest.len() >= b.len() {
                Err(WireFault::Recursion)
            } else {
                match fields(rest, depth) {
                    Err(fault) => Err(fault),
                    Ok(more) => Ok(seq![field] + more),
                }
            },
        }
    }
}

proof fn lemma_key_shrinks(b: Seq<u8>)
    ensures
        key(b) matches Ok((_, _, rest)) ==> rest.len() < b.len(),
{
    lemma_varint_shrinks(b);
}

proof fn lemma_after_value_shrinks(wire: u8, tag: u32, b: Seq<u8>, depth: nat)
    ensures
        after_value(wire, tag, b, depth) matches Ok(rest) ==> rest.len() <= b.len(),
    decreases b.len(), 1int,
{
    lemma_varint_shrinks(b);
    if depth > 0 && wire == 3 {
        lemma_after_group_shrinks(tag, b, depth);
    }
}

proof fn lemma_after_group_shrinks(tag: u32, b: Seq<u8>, depth: nat)
    ensures
        after_group(tag, b, depth) matches Ok(rest) ==> rest.len() <= b.len(),
    decreases b.len(), 0int,
{
    lemma_key_shrinks(b);
    if let Ok((inner, wire, rest)) = key(b) {
        if wire != 4 && depth > 0 {
            lemma_after_value_shrinks(wire, inner, rest, (depth - 1) as nat);
            if let Ok(next) = after_value(wire, inner, rest, (depth - 1) as nat) {
                lemma_after_group_shrinks(tag, next, depth);
            }
        }
    }
}

/// Reading a field consumes at least one byte.
pub proof fn lemma_first_field_shrinks(b: Seq<u8>, depth: nat)
    ensures
        first_field(b, depth) matches Ok((_, rest)) ==> rest.len() < b.len(),
{
    lemma_key_shrinks(b);
    if let Ok((tag, wire, rest)) = key(b) {
        lemma_after_value_shrinks(wire, tag, rest, depth);
    }
}

fn take_key(bytes: &[u8]) -> (r: Result<(u32, u8, &[u8]), WireFault>)
    ensures
        match r {
            Ok((tag, wire, rest)) => key(bytes@) == Ok::<_, WireFault>((tag, wire, rest@)),
            Err(fault) => key(bytes@) == Err::<(u32, u8, Seq<u8>), _>(fault),
        },
{
    match take_varint(bytes) {
        None => Err(WireFault::Varint),
        Some((k, rest)) => {
            if k > 0xffff_ffff {
                Err(WireFault::Key(k))
            } else if k % 8 > 5 {
                Err(WireFault::WireType(k % 8))
            } else if k / 8 == 0 {
                Err(WireFault::Tag)
            } else {
                Ok(((k / 8) as u32, (k % 8) as u8, rest))
            }
        },
    }
}

fn skip_value(wire: u8, tag: u32, bytes: &[u8], depth: u32) -> (r: Result<&[u8], WireFault>)
    ensures
        match r {
            Ok(rest) => after_value(wire, tag, bytes@, depth as nat) == Ok::<_, WireFault>(rest@),
            Err(fault) => after_value(wire, tag, bytes@, depth as nat) == Err::<Seq<u8>, _>(fault),
        },
    decreases bytes@.len(), 1int,
{
    if depth == 0 {
        return Err(WireFault::Recursion);
    }
    if wire == 0 {
        match take_varint(bytes) {
            None => Err(WireFault::Varint),
            Some((_, rest)) => Ok(rest),
        }
    } else if wire == 1 || wire == 5 {
        let n: usize = if wire == 1 {
            8
        } else {
            4
        };
        if n > bytes.len() {
            Err(WireFault::Underflow)
        } else {
            let rest = vstd::slice::slice_subrange(bytes, n, bytes.len());
            proof {
                assert(rest@ == bytes@.skip(n as int));
            }
            Ok(rest)
        }
    } else if wire == 2 {
        match take_varint(bytes) {
            None => Err(WireFault::Varint),
            Some((n, rest)) => {
                if n > rest.len() as u64 {
                    Err(WireFault::Underflow)
                } else {
                    let next = vstd::slice::slice_subrange(rest, n as usize, rest.len());
                    proof {
                        assert(next@ == rest@.skip(n as int));
                    }
                    Ok(next)
                }
            },
        }
    } else if wire == 3 {
        skip_group(tag, bytes, depth)
    } else {
        Err(WireFault::EndGroup)
    }
}

fn skip_group(tag: u32, bytes: &[u8], depth: u32) -> (r: Result<&[u8], WireFault>)
    requires
        depth > 0,
    ensures
        match r {
            Ok(rest) => after_group(tag, bytes@, depth as nat) == Ok::<_, WireFault>(rest@),
            Err(fault) => after_group(tag, bytes@, depth as nat) == Err::<Seq<u8>, _>(fault),
        },
    decreases bytes@.len(), 0int,
{
    proof {
        lemma_key_shrinks(bytes@);
    }
    match take_key(bytes) {
        Err(fault) => Err(fault),
        Ok((inner, wire, rest)) => {
            if wire == 4 {
                if inner == tag {
                    Ok(rest)
                } else {
                    Err(WireFault::EndGroup)
                }
            } else {
                proof {
                    lemma_after_value_shrinks(wire, inner, rest@, (depth - 1) as nat);
                }
                match skip_value(wire, inner, rest, depth - 1) {
                    Err(fault) => Err(fault),
                    Ok(next) => skip_group(tag, next, depth),
                }
            }
        },
    }
}

/// The value of a field that was read.
#[derive(Clone, Debug)]
pub enum FieldValue {
    /// A variable length integer.
    Varint(u64),
    /// A length and that many bytes.
    Bytes(Vec<u8>),
    /// Any other wire type.
    Other(u8),
}

impl View for FieldValue {
    type V = WireValue;

    open spec fn view(&self) -> WireValue {
        match self {
            FieldValue::Varint(n) => WireValue::Varint(*n),
            FieldValue::Bytes(b) => WireValue::Bytes(b@),
            FieldValue::Other(w) => WireValue::Other(*w),
        }
    }
}

/// A field that was read.
#[derive(Clone, Debug)]
pub struct Field {
    /// The number of the field.
    pub tag: u32,
    /// Its value.
    pub value: FieldValue,
}

impl View for Field {
    type V = WireField;

    open spec fn view(&self) -> WireField {
        WireField { tag: self.tag, value: self.value@ }
    }
}

/// The fields of a vector, as they stand on the wire.
pub open spec fn field_views(v: Seq<Field>) -> Seq<WireField> {
    Seq::new(v.len(), |i: int| v[i]@)
}

/// Reads the field at the front of a byte sequence.
fn take_field(bytes: &[u8], depth: u32) -> (r: Result<(Field, &[u8]), WireFault>)
    ensures
        match r {
            Ok((field, rest)) => first_field(bytes@, depth as nat) == Ok::<_, WireFault>(
                (field@, rest@),
            ),
            Err(fault) => first_field(bytes@, depth as nat) == Err::<(WireField, Seq<u8>), _>(
                fault,
            ),
        },
{
    match take_key(bytes) {
        Err(fault) => Err(fault),
        Ok((tag, wire, rest)) => match skip_value(wire, tag, rest, depth) {
            Err(fault) => Err(fault),
            Ok(next) => {
                if wire == 0 {
                    match take_varint(rest) {
                        None => Err(WireFault::Varint),
                        Some((n, _)) => Ok((Field { tag, value: FieldValue::Varint(n) }, next)),
                    }
                } else if wire == 2 {
                    match take_varint(rest) {
                        None => Err(WireFault::Varint),
                        Some((n, body)) => {
                            let total: usize = body.len();
                            proof {
                                assert(n <= total);
                            }
                            let content = vstd::slice::slice_subrange(body, 0, n as usize);
                            let copy = vstd::slice::slice_to_vec(content);
                            proof {
                                assert(copy@ == body@.take(n as int));
                            }
                            Ok((Field { tag, value: FieldValue::Bytes(copy) }, next))
                        },
                    }
                } else {
                    Ok((Field { tag, value: FieldValue::Other(wire) }, next))
                }
            },
        },
    }
}

/// Reads all fields of a message.
pub fn read_fields(bytes: &[u8], depth: u32) -> (r: Result<Vec<Field>, WireFault>)
    ensures
        match r {
            Ok(v) => fields(bytes@, depth as nat) == Ok::<_, WireFault>(field_views(v@)),
            Err(fault) => fields(bytes@, depth as nat) == Err::<Seq<WireField>, _>(fault),
        },
{
    let mut out: Vec<Field> = Vec::new();
    let mut rest: &[u8] = bytes;
    proof {
        if let Ok(more) = fields(rest@, depth as nat) {
            assert(field_views(out@) + more == more);
        }
    }
    while rest.len() > 0
        invariant
            fields(bytes@, depth as nat) == (match fields(rest@, depth as nat) {
                Err(fault) => Err::<Seq<WireField>, _>(fault),
                Ok(more) => Ok(field_views(out@) + more),
            }),
        decreases rest@.len(),
    {
        proof {
            lemma_first_field_shrinks(rest@, depth as nat);
        }
        match take_field(rest, depth) {
            Err(fault) => {
                return Err(fault);
            },
            Ok((field, next)) => {
                let ghost before = field_views(out@);
                let ghost one = field@;
                out.push(field);
                proof {
                    assert(field_views(out@) == before.push(one));
                    if let Ok(more) = fields(next@, depth as nat) {
                        assert(before + (seq![one] + more) == before.push(one) + more);
                    }
                }
                rest = next;
            },
        }
    }
    proof {
        assert(field_views(out@) + Seq::<WireField>::empty() == field_views(out@));
    }
    Ok(out)
}

// --------------------------------------------------------------------------------- writing

/// The bytes of a field with a number or a byte sequence.
pub open spec fn field_bytes(f: WireField) -> Seq<u8> {
    match f.value {
        WireValue::Varint(n) => varint_bytes((f.tag * 8) as nat) + varint_bytes(n as nat),
        WireValue::Bytes(b) => varint_bytes((f.tag * 8 + 2) as nat) + varint_bytes(b.len()) + b,
        WireValue::Other(_) => Seq::empty(),
    }
}

/// The bytes of several fields, one after the other.
pub open spec fn encoded(fs: Seq<WireField>) -> Seq<u8>
    decreases fs.len(),
{
    if fs.len() == 0 {
        Seq::empty()
    } else {
        encoded(fs.drop_last()) + field_bytes(fs.last())
    }
}

/// Whether a field can be written and read back.
pub open spec fn writable(f: WireField) -> bool {
    1 <= f.tag <= MAX_TAG && !(f.value is Other)
}

/// Whether all fields can be written and read back.
pub open spec fn all_writable(fs: Seq<WireField>) -> bool {
    forall|i: int| 0 <= i < fs.len() ==> writable(#[trigger] fs[i])
}

/// Two groups of fields can be written where each of them can.
pub broadcast proof fn lemma_writable_concat(a: Seq<WireField>, b: Seq<WireField>)
    ensures
        #[trigger] all_writable(a + b) <==> all_writable(a) && all_writable(b),
{
    if all_writable(a + b) {
        assert forall|i: int| 0 <= i < a.len() implies writable(#[trigger] a[i]) by {
            assert(a[i] == (a + b)[i]);
        }
        assert forall|i: int| 0 <= i < b.len() implies writable(#[trigger] b[i]) by {
            assert(b[i] == (a + b)[a.len() + i]);
        }
    }
}

/// Writing two groups of fields is writing the one and then the other.
pub broadcast proof fn lemma_encoded_concat(a: Seq<WireField>, b: Seq<WireField>)
    ensures
        #[trigger] encoded(a + b) == encoded(a) + encoded(b),
    decreases b.len(),
{
    if b.len() == 0 {
        assert(a + b == a);
        assert(encoded(a) + Seq::<u8>::empty() == encoded(a));
    } else {
        lemma_encoded_concat(a, b.drop_last());
        assert((a + b).drop_last() == a + b.drop_last());
        assert((a + b).last() == b.last());
        assert(encoded(a) + (encoded(b.drop_last()) + field_bytes(b.last())) == (encoded(a)
            + encoded(b.drop_last())) + field_bytes(b.last()));
    }
}

proof fn lemma_key_round_trip(tag: u32, wire: u8, rest: Seq<u8>)
    requires
        1 <= tag <= MAX_TAG,
        wire <= 5,
    ensures
        key(varint_bytes((tag * 8 + wire) as nat) + rest) == Ok::<_, WireFault>((tag, wire, rest)),
        varint_bytes((tag * 8 + wire) as nat).len() >= 1,
{
    let k = (tag * 8 + wire) as u64;
    lemma_varint_round_trip(k, rest);
    assert(k / 8 == tag && k % 8 == wire);
}

proof fn lemma_after_bytes(tag: u32, c: Seq<u8>, rest: Seq<u8>, depth: nat)
    requires
        depth > 0,
        c.len() <= u64::MAX,
    ensures
        varint(varint_bytes(c.len()) + (c + rest)) == Some((c.len() as u64, c + rest)),
        after_value(2, tag, varint_bytes(c.len()) + (c + rest), depth) == Ok::<_, WireFault>(rest),
{
    lemma_varint_round_trip(c.len() as u64, c + rest);
    assert((c + rest).skip(c.len() as int) == rest);
}

proof fn lemma_first_field_round_trip(f: WireField, rest: Seq<u8>, depth: nat)
    requires
        writable(f),
        field_bytes(f).len() <= u64::MAX,
        depth > 0,
    ensures
        first_field(field_bytes(f) + rest, depth) == Ok::<_, WireFault>((f, rest)),
        field_bytes(f).len() > 0,
{
    let b = field_bytes(f) + rest;
    match f.value {
        WireValue::Varint(n) => {
            let tail = varint_bytes(n as nat) + rest;
            assert(b == varint_bytes((f.tag * 8 + 0) as nat) + tail);
            lemma_key_round_trip(f.tag, 0, tail);
            lemma_varint_round_trip(n, rest);
            assert(after_value(0, f.tag, tail, depth) == Ok::<_, WireFault>(rest));
        },
        WireValue::Bytes(c) => {
            let tail = varint_bytes(c.len()) + (c + rest);
            assert(b == varint_bytes((f.tag * 8 + 2) as nat) + tail);
            lemma_key_round_trip(f.tag, 2, tail);
            lemma_after_bytes(f.tag, c, rest, depth);
            assert((c + rest).take(c.len() as int) == c);
        },
        WireValue::Other(_) => {},
    }
}

/// Reading what was written gives the same fields back.
pub proof fn lemma_fields_round_trip(fs: Seq<WireField>, depth: nat)
    requires
        depth > 0,
        all_writable(fs),
        encoded(fs).len() <= u64::MAX,
    ensures
        fields(encoded(fs), depth) == Ok::<_, WireFault>(fs),
    decreases fs.len(),
{
    if fs.len() > 0 {
        let tail = fs.drop_first();
        assert forall|i: int| 0 <= i < tail.len() implies writable(#[trigger] tail[i]) by {
            assert(writable(fs[i + 1]));
        }
        assert(fs == seq![fs[0]] + tail);
        lemma_encoded_concat(seq![fs[0]], tail);
        assert(seq![fs[0]].drop_last() == Seq::<WireField>::empty());
        reveal_with_fuel(encoded, 2);
        assert(encoded(seq![fs[0]]) == field_bytes(fs[0]));
        lemma_fields_round_trip(tail, depth);
        assert(writable(fs[0]));
        lemma_first_field_round_trip(fs[0], encoded(tail), depth);
        assert(seq![fs[0]] + tail == fs);
    } else {
        assert(fs == Seq::<WireField>::empty());
    }
}

/// The field of a number that is left out when it is zero.
pub open spec fn number_field(tag: u32, n: u64) -> Seq<WireField> {
    if n == 0 {
        Seq::empty()
    } else {
        seq![WireField { tag, value: WireValue::Varint(n) }]
    }
}

/// The field of a byte sequence that is left out when it is empty.
pub open spec fn bytes_field(tag: u32, b: Seq<u8>) -> Seq<WireField> {
    if b.len() == 0 {
        Seq::empty()
    } else {
        seq![WireField { tag, value: WireValue::Bytes(b) }]
    }
}

/// The field of a message, which is never left out.
pub open spec fn message_field(tag: u32, b: Seq<u8>) -> Seq<WireField> {
    seq![WireField { tag, value: WireValue::Bytes(b) }]
}

/// The number that stands for a truth value.
pub open spec fn flag(b: bool) -> u64 {
    if b {
        1
    } else {
        0
    }
}

/// Appends the field of a number.
pub fn put_number(out: &mut Vec<u8>, tag: u32, n: u64)
    requires
        1 <= tag <= MAX_TAG,
    ensures
        final(out)@ == old(out)@ + encoded(number_field(tag, n)),
{
    proof {
        reveal_with_fuel(encoded, 2);
    }
    if n != 0 {
        let ghost f = WireField { tag, value: WireValue::Varint(n) };
        put_varint(tag as u64 * 8, out);
        put_varint(n, out);
        proof {
            assert(seq![f].drop_last() == Seq::<WireField>::empty());
            assert(out@ == old(out)@ + encoded(seq![f]));
        }
    } else {
        proof {
            assert(out@ == old(out)@ + encoded(number_field(tag, n)));
        }
    }
}

/// Appends the field of a truth value.
pub fn put_flag(out: &mut Vec<u8>, tag: u32, b: bool)
    requires
        1 <= tag <= MAX_TAG,
    ensures
        final(out)@ == old(out)@ + encoded(number_field(tag, flag(b))),
{
    put_number(
        out,
        tag,
        if b {
            1
        } else {
            0
        },
    );
}

/// Appends the field of a message.
pub fn put_message(out: &mut Vec<u8>, tag: u32, bytes: &[u8])
    requires
        1 <= tag <= MAX_TAG,
    ensures
        final(out)@ == old(out)@ + encoded(message_field(tag, bytes@)),
{
    proof {
        reveal_with_fuel(encoded, 2);
    }
    let ghost f = WireField { tag, value: WireValue::Bytes(bytes@) };
    put_varint(tag as u64 * 8 + 2, out);
    put_varint(bytes.len() as u64, out);
    push_bytes(out, bytes);
    proof {
        assert(seq![f].drop_last() == Seq::<WireField>::empty());
        assert(out@ == old(out)@ + encoded(seq![f]));
    }
}

/// Appends the field of a byte sequence.
pub fn put_bytes(out: &mut Vec<u8>, tag: u32, bytes: &[u8])
    requires
        1 <= tag <= MAX_TAG,
    ensures
        final(out)@ == old(out)@ + encoded(bytes_field(tag, bytes@)),
{
    if bytes.len() != 0 {
        put_message(out, tag, bytes);
    } else {
        proof {
            assert(out@ == old(out)@ + encoded(bytes_field(tag, bytes@)));
        }
    }
}

/// Appends the field of a text.
pub fn put_text(out: &mut Vec<u8>, tag: u32, text: &str)
    requires
        1 <= tag <= MAX_TAG,
    ensures
        final(out)@ == old(out)@ + encoded(bytes_field(tag, encode_utf8(text@))),
{
    put_bytes(out, tag, text.as_bytes());
}


// --------------------------------------------------------------------------------- lookups

/// The value of the last field with a given number.
pub open spec fn last_value(fs: Seq<WireField>, tag: u32) -> Option<WireValue>
    decreases fs.len(),
{
    if fs.len() == 0 {
        None
    } else if fs.last().tag == tag {
        Some(fs.last().value)
    } else {
        last_value(fs.drop_last(), tag)
    }
}

/// The number in the last field with a given number; zero where there is none.
pub open spec fn number_of(fs: Seq<WireField>, tag: u32) -> u64 {
    match last_value(fs, tag) {
        Some(WireValue::Varint(n)) => n,
        _ => 0,
    }
}

/// The low 32 bits of the number in the last field with a given number.
pub open spec fn small_number_of(fs: Seq<WireField>, tag: u32) -> u32 {
    (number_of(fs, tag) % 0x1_0000_0000) as u32
}

/// The bytes in the last field with a given number; none where there is no such field.
pub open spec fn bytes_of(fs: Seq<WireField>, tag: u32) -> Seq<u8> {
    match last_value(fs, tag) {
        Some(WireValue::Bytes(b)) => b,
        _ => Seq::empty(),
    }
}

/// The text in the last field with a given number.
pub open spec fn text_of(fs: Seq<WireField>, tag: u32) -> Seq<char> {
    decode_utf8(bytes_of(fs, tag))
}

/// The contents of all fields with a given number that hold bytes, in order.
pub open spec fn all_bytes_of(fs: Seq<WireField>, tag: u32) -> Seq<Seq<u8>>
    decreases fs.len(),
{
    if fs.len() == 0 {
        Seq::empty()
    } else {
        let before = all_bytes_of(fs.drop_last(), tag);
        match fs.last().value {
            WireValue::Bytes(b) if fs.last().tag == tag => before.push(b),
            _ => before,
        }
    }
}

/// The last value with a number, in two groups of fields, is that of the second group where
/// it has one.
pub broadcast proof fn lemma_last_value_concat(a: Seq<WireField>, b: Seq<WireField>, tag: u32)
    ensures
        #[trigger] last_value(a + b, tag) == (match last_value(b, tag) {
            Some(v) => Some(v),
            None => last_value(a, tag),
        }),
    decreases b.len(),
{
    if b.len() == 0 {
        assert(a + b == a);
    } else {
        assert((a + b).drop_last() == a + b.drop_last());
        assert((a + b).last() == b.last());
        lemma_last_value_concat(a, b.drop_last(), tag);
    }
}

/// The last value in a field that may be left out.
pub broadcast proof fn lemma_last_value_number(t: u32, n: u64, tag: u32)
    ensures
        #[trigger] last_value(number_field(t, n), tag) == (if t == tag && n != 0 {
            Some(WireValue::Varint(n))
        } else {
            None
        }),
{
    reveal_with_fuel(last_value, 2);
    let fs = number_field(t, n);
    if n != 0 {
        assert(fs.drop_last() == Seq::<WireField>::empty());
    }
}

/// The last value in a field that may be left out.
pub broadcast proof fn lemma_last_value_bytes(t: u32, b: Seq<u8>, tag: u32)
    ensures
        #[trigger] last_value(bytes_field(t, b), tag) == (if t == tag && b.len() != 0 {
            Some(WireValue::Bytes(b))
        } else {
            None
        }),
{
    reveal_with_fuel(last_value, 2);
    let fs = bytes_field(t, b);
    if b.len() != 0 {
        assert(fs.drop_last() == Seq::<WireField>::empty());
    }
}

/// The last value in a field that is never left out.
pub broadcast proof fn lemma_last_value_message(t: u32, b: Seq<u8>, tag: u32)
    ensures
        #[trigger] last_value(message_field(t, b), tag) == (if t == tag {
            Some(WireValue::Bytes(b))
        } else {
            None
        }),
{
    reveal_with_fuel(last_value, 2);
    let fs = message_field(t, b);
    assert(fs.drop_last() == Seq::<WireField>::empty());
}

/// Facts about the last values in fields that were put together.
pub broadcast group group_last_value {
    lemma_last_value_concat,
    lemma_last_value_number,
    lemma_last_value_bytes,
    lemma_last_value_message,
}

/// Returns the index of the last field with a given number.
fn last_index(v: &[Field], tag: u32) -> (r: Option<usize>)
    ensures
        match r {
            Some(i) => i < v@.len() && last_value(field_views(v@), tag) == Some(
                v@[i as int].value@,
            ),
            None => last_value(field_views(v@), tag) is None,
        },
{
    let mut i: usize = v.len();
    proof {
        assert(field_views(v@).take(i as int) == field_views(v@));
    }
    while i > 0
        invariant
            i <= v@.len(),
            last_value(field_views(v@), tag) == last_value(field_views(v@).take(i as int), tag),
        decreases i,
    {
        let ghost t = field_views(v@).take(i as int);
        proof {
            assert(t.drop_last() == field_views(v@).take(i - 1));
            assert(t.last() == v@[i - 1]@);
        }
        if v[i - 1].tag == tag {
            return Some(i - 1);
        }
        i -= 1;
    }
    None
}

/// Returns the number in the last field with a given number.
pub fn find_number(v: &[Field], tag: u32) -> (r: u64)
    ensures
        r == number_of(field_views(v@), tag),
{
    match last_index(v, tag) {
        Some(i) => match &v[i].value {
            FieldValue::Varint(n) => *n,
            _ => 0,
        },
        None => 0,
    }
}

/// Returns the low 32 bits of the number in the last field with a given number.
pub fn find_small_number(v: &[Field], tag: u32) -> (r: u32)
    ensures
        r == small_number_of(field_views(v@), tag),
{
    (find_number(v, tag) % 0x1_0000_0000) as u32
}

/// Returns the truth value in the last field with a given number.
pub fn find_flag(v: &[Field], tag: u32) -> (r: bool)
    ensures
        r == (number_of(field_views(v@), tag) != 0),
{
    find_number(v, tag) != 0
}

/// Returns the bytes in the last field with a given number.
pub fn find_bytes(v: &[Field], tag: u32) -> (r: Vec<u8>)
    ensures
        r@ == bytes_of(field_views(v@), tag),
{
    match last_index(v, tag) {
        Some(i) => match &v[i].value {
            FieldValue::Bytes(b) => vstd::slice::slice_to_vec(b.as_slice()),
            _ => Vec::new(),
        },
        None => Vec::new(),
    }
}

/// `String::from_utf8` takes exactly the valid UTF-8 sequences, and the text it gives has
/// those bytes.
#[verifier::external_body]
pub(crate) fn text_from_utf8(bytes: Vec<u8>) -> (r: Option<String>)
    ensures
        r is Some <==> valid_utf8(bytes@),
        r matches Some(s) ==> encode_utf8(s@) == bytes@,
{
    String::from_utf8(bytes).ok()
}

/// Returns the text in the last field with a given number.
pub fn find_text(v: &[Field], tag: u32) -> (r: String)
    requires
        valid_utf8(bytes_of(field_views(v@), tag)),
    ensures
        r@ == text_of(field_views(v@), tag),
{
    let bytes = find_bytes(v, tag);
    match text_from_utf8(bytes) {
        Some(s) => {
            proof {
                encode_utf8_decode_utf8(s@);
            }
            s
        },
        None => String::new(),
    }
}


/// A text survives being written as bytes, and only the empty text has no bytes.
pub proof fn lemma_text_bytes(s: Seq<char>)
    ensures
        valid_utf8(encode_utf8(s)),
        decode_utf8(encode_utf8(s)) == s,
        encode_utf8(s).len() == 0 ==> encode_utf8(s) == Seq::<u8>::empty(),
{
    encode_utf8_valid_utf8(s);
    encode_utf8_decode_utf8(s);
    if encode_utf8(s).len() == 0 {
        assert(encode_utf8(s) == Seq::<u8>::empty());
    }
}

/// The bytes in a field that may be left out.
pub proof fn lemma_no_bytes(b: Seq<u8>)
    ensures
        b.len() == 0 ==> b == Seq::<u8>::empty(),
{
    if b.len() == 0 {
        assert(b == Seq::<u8>::empty());
    }
}


/// The bytes of a message field hold those of the message.
pub proof fn lemma_message_len(tag: u32, b: Seq<u8>)
    ensures
        encoded(message_field(tag, b)).len() >= b.len(),
{
    reveal_with_fuel(encoded, 2);
    let fs = message_field(tag, b);
    assert(fs.drop_last() == Seq::<WireField>::empty());
}

} // verus!
