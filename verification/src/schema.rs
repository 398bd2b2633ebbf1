//! What the messages of the control protocols hold, and whether encoded bytes are such a
//! message.

use crate::protobuf;
use crate::protobuf::{
    read_fields, text_from_utf8, Field, FieldValue, WireFault, WireField, WireValue,
};
use crate::text::decimal_text;
use vstd::prelude::*;
use vstd::utf8::*;

verus! {

/// The messages of the agent and node protocols.
#[derive(Clone, Copy, Debug, PartialEq, Eq, Structural)]
pub enum Shape {
    /// `AgentEnvelope`.
    AgentEnvelope,
    /// `ActionRequest`.
    ActionRequest,
    /// `ActionResponse`.
    ActionResponse,
    /// `Envelope`.
    Envelope,
    /// `HelloRequest`.
    HelloRequest,
    /// `HelloResponse`.
    HelloResponse,
    /// `PairRequest`.
    PairRequest,
    /// `PairResponse`.
    PairResponse,
    /// `CapabilityRequest`.
    CapabilityRequest,
    /// `CapabilityResponse`.
    CapabilityResponse,
    /// `CapabilityMessage`.
    CapabilityMessage,
    /// `PrepareTest`.
    PrepareTest,
    /// `PrepareTestResponse`.
    PrepareTestResponse,
    /// `StartTest`.
    StartTest,
    /// `StopTest`.
    StopTest,
    /// `TestStatus`.
    TestStatus,
    /// `TestResultRequest`.
    TestResultRequest,
    /// `TestResult`.
    TestResult,
    /// `Ping`.
    Ping,
    /// `Pong`.
    Pong,
    /// `ProtocolError`.
    ProtocolError,
}

/// What a field holds.
#[derive(Clone, Copy, Debug, PartialEq, Eq, Structural)]
pub enum Kind {
    /// The message has no field with this number; such fields are passed over.
    Unknown,
    /// A number or a truth value.
    Number,
    /// A text.
    Text,
    /// Bytes.
    Raw,
    /// A message.
    Message(Shape),
}

impl Shape {
    /// What the field with a given number holds.
    pub open spec fn kind(self, tag: u32) -> Kind {
        match self {
            Shape::AgentEnvelope => match tag {
                1 | 2 => Kind::Number,
                3 => Kind::Text,
                10 => Kind::Message(Shape::ActionRequest),
                11 => Kind::Message(Shape::ActionResponse),
                _ => Kind::Unknown,
            },
            Shape::ActionRequest => match tag {
                1 | 3 => Kind::Text,
                2 => Kind::Raw,
                4 => Kind::Number,
                _ => Kind::Unknown,
            },
            Shape::ActionResponse => match tag {
                1 | 5 => Kind::Number,
                2 => Kind::Raw,
                3 | 4 => Kind::Text,
                _ => Kind::Unknown,
            },
            Shape::Envelope => match tag {
                1 | 2 => Kind::Number,
                3 => Kind::Raw,
                10 => Kind::Message(Shape::HelloRequest),
                11 => Kind::Message(Shape::HelloResponse),
                20 => Kind::Message(Shape::PairRequest),
                21 => Kind::Message(Shape::PairResponse),
                30 => Kind::Message(Shape::CapabilityRequest),
                31 => Kind::Message(Shape::CapabilityResponse),
                40 => Kind::Message(Shape::PrepareTest),
                41 => Kind::Message(Shape::PrepareTestResponse),
                42 => Kind::Message(Shape::StartTest),
                43 => Kind::Message(Shape::StopTest),
                44 => Kind::Message(Shape::TestStatus),
                45 => Kind::Message(Shape::TestResult),
                46 => Kind::Message(Shape::TestResultRequest),
                50 => Kind::Message(Shape::Ping),
                51 => Kind::Message(Shape::Pong),
                100 => Kind::Message(Shape::ProtocolError),
                _ => Kind::Unknown,
            },
            Shape::HelloRequest => match tag {
                1 => Kind::Raw,
                2 => Kind::Text,
                3 | 4 => Kind::Number,
                _ => Kind::Unknown,
            },
            Shape::HelloResponse => match tag {
                1 => Kind::Number,
                2 => Kind::Raw,
                3 => Kind::Text,
                _ => Kind::Unknown,
            },
            Shape::PairRequest => match tag {
                1 | 2 => Kind::Raw,
                _ => Kind::Unknown,
            },
            Shape::PairResponse => match tag {
                1 => Kind::Number,
                2 => Kind::Text,
                _ => Kind::Unknown,
            },
            Shape::CapabilityRequest => Kind::Unknown,
            Shape::CapabilityResponse => match tag {
                1 => Kind::Message(Shape::CapabilityMessage),
                _ => Kind::Unknown,
            },
            Shape::CapabilityMessage => match tag {
                1 | 2 | 3 | 4 => Kind::Number,
                _ => Kind::Unknown,
            },
            Shape::PrepareTest => match tag {
                1 => Kind::Raw,
                2 | 3 | 4 | 5 => Kind::Text,
                6 | 7 | 8 | 9 | 10 | 11 | 12 | 13 | 14 | 15 => Kind::Number,
                _ => Kind::Unknown,
            },
            Shape::PrepareTestResponse => match tag {
                1 | 2 | 4 => Kind::Number,
                3 => Kind::Text,
                _ => Kind::Unknown,
            },
            Shape::StartTest => match tag {
                1 => Kind::Raw,
                2 => Kind::Text,
                3 => Kind::Number,
                _ => Kind::Unknown,
            },
            Shape::StopTest => match tag {
                1 => Kind::Raw,
                2 => Kind::Text,
                _ => Kind::Unknown,
            },
            Shape::TestStatus => match tag {
                1 => Kind::Raw,
                2 => Kind::Text,
                _ => Kind::Unknown,
            },
            Shape::TestResultRequest => match tag {
                1 => Kind::Raw,
                _ => Kind::Unknown,
            },
            Shape::TestResult => match tag {
                1 | 2 | 3 => Kind::Raw,
                _ => Kind::Unknown,
            },
            Shape::Ping | Shape::Pong => match tag {
                1 => Kind::Number,
                _ => Kind::Unknown,
            },
            Shape::ProtocolError => match tag {
                1 | 2 => Kind::Text,
                3 => Kind::Number,
                _ => Kind::Unknown,
            },
        }
    }

    /// Returns what the field with a given number holds.
    pub fn kind_of(self, tag: u32) -> (r: Kind)
        ensures
            r == self.kind(tag),
    {
        match self {
            Shape::AgentEnvelope => match tag {
                1 | 2 => Kind::Number,
                3 => Kind::Text,
                10 => Kind::Message(Shape::ActionRequest),
                11 => Kind::Message(Shape::ActionResponse),
                _ => Kind::Unknown,
            },
            Shape::ActionRequest => match tag {
                1 | 3 => Kind::Text,
                2 => Kind::Raw,
                4 => Kind::Number,
                _ => Kind::Unknown,
            },
            Shape::ActionResponse => match tag {
                1 | 5 => Kind::Number,
                2 => Kind::Raw,
                3 | 4 => Kind::Text,
                _ => Kind::Unknown,
            },
            Shape::Envelope => match tag {
                1 | 2 => Kind::Number,
                3 => Kind::Raw,
                10 => Kind::Message(Shape::HelloRequest),
                11 => Kind::Message(Shape::HelloResponse),
                20 => Kind::Message(Shape::PairRequest),
                21 => Kind::Message(Shape::PairResponse),
                30 => Kind::Message(Shape::CapabilityRequest),
                31 => Kind::Message(Shape::CapabilityResponse),
                40 => Kind::Message(Shape::PrepareTest),
                41 => Kind::Message(Shape::PrepareTestResponse),
                42 => Kind::Message(Shape::StartTest),
                43 => Kind::Message(Shape::StopTest),
                44 => Kind::Message(Shape::TestStatus),
                45 => Kind::Message(Shape::TestResult),
                46 => Kind::Message(Shape::TestResultRequest),
                50 => Kind::Message(Shape::Ping),
                51 => Kind::Message(Shape::Pong),
                100 => Kind::Message(Shape::ProtocolError),
                _ => Kind::Unknown,
            },
            Shape::HelloRequest => match tag {
                1 => Kind::Raw,
                2 => Kind::Text,
                3 | 4 => Kind::Number,
                _ => Kind::Unknown,
            },
            Shape::HelloResponse => match tag {
                1 => Kind::Number,
                2 => Kind::Raw,
                3 => Kind::Text,
                _ => Kind::Unknown,
            },
            Shape::PairRequest => match tag {
                1 | 2 => Kind::Raw,
                _ => Kind::Unknown,
            },
            Shape::PairResponse => match tag {
                1 => Kind::Number,
                2 => Kind::Text,
                _ => Kind::Unknown,
            },
            Shape::CapabilityRequest => Kind::Unknown,
            Shape::CapabilityResponse => match tag {
                1 => Kind::Message(Shape::CapabilityMessage),
                _ => Kind::Unknown,
            },
            Shape::CapabilityMessage => match tag {
                1 | 2 | 3 | 4 => Kind::Number,
                _ => Kind::Unknown,
            },
            Shape::PrepareTest => match tag {
                1 => Kind::Raw,
                2 | 3 | 4 | 5 => Kind::Text,
                6 | 7 | 8 | 9 | 10 | 11 | 12 | 13 | 14 | 15 => Kind::Number,
                _ => Kind::Unknown,
            },
            Shape::PrepareTestResponse => match tag {
                1 | 2 | 4 => Kind::Number,
                3 => Kind::Text,
                _ => Kind::Unknown,
            },
            Shape::StartTest => match tag {
                1 => Kind::Raw,
                2 => Kind::Text,
                3 => Kind::Number,
                _ => Kind::Unknown,
            },
            Shape::StopTest => match tag {
                1 => Kind::Raw,
                2 => Kind::Text,
                _ => Kind::Unknown,
            },
            Shape::TestStatus => match tag {
                1 => Kind::Raw,
                2 => Kind::Text,
                _ => Kind::Unknown,
            },
            Shape::TestResultRequest => match tag {
                1 => Kind::Raw,
                _ => Kind::Unknown,
            },
            Shape::TestResult => match tag {
                1 | 2 | 3 => Kind::Raw,
                _ => Kind::Unknown,
            },
            Shape::Ping | Shape::Pong => match tag {
                1 => Kind::Number,
                _ => Kind::Unknown,
            },
            Shape::ProtocolError => match tag {
                1 | 2 => Kind::Text,
                3 => Kind::Number,
                _ => Kind::Unknown,
            },
        }
    }
}

/// The wire type of a value.
pub open spec fn wire_of(v: WireValue) -> u8 {
    match v {
        WireValue::Varint(_) => 0,
        WireValue::Bytes(_) => 2,
        WireValue::Other(w) => w,
    }
}

/// The first fault of an encoded message, if it has one.
pub open spec fn message_fault(b: Seq<u8>, shape: Shape, depth: nat) -> Option<WireFault>
    decreases depth, 1int, 0nat,
{
    match protobuf::fields(b, depth) {
        Err(fault) => Some(fault),
        Ok(fs) => fields_fault(fs, shape, depth),
    }
}

/// The first fault among the fields of a message, if there is one.
pub open spec fn fields_fault(fs: Seq<WireField>, shape: Shape, depth: nat) -> Option<WireFault>
    decreases depth, 0int, fs.len(),
{
    if fs.len() == 0 {
        None
    } else {
        match fields_fault(fs.drop_last(), shape, depth) {
            Some(fault) => Some(fault),
            None => match (shape.kind(fs.last().tag), fs.last().value) {
                (Kind::Unknown, _) => None,
                (Kind::Number, WireValue::Varint(_)) => None,
                (Kind::Number, v) => Some(WireFault::Mismatch(wire_of(v), 0)),
                (Kind::Raw, WireValue::Bytes(_)) => None,
                (Kind::Text, WireValue::Bytes(b)) => if valid_utf8(b) {
                    None
                } else {
                    Some(WireFault::Utf8)
                },
                (Kind::Message(inner), WireValue::Bytes(b)) => if depth == 0 {
                    Some(WireFault::Recursion)
                } else {
                    message_fault(b, inner, (depth - 1) as nat)
                },
                (_, v) => Some(WireFault::Mismatch(wire_of(v), 2)),
            },
        }
    }
}

/// Decides whether bytes are an encoded message, and says what is wrong where they are not.
pub fn find_message_fault(bytes: &[u8], shape: Shape, depth: u32) -> (r: Option<WireFault>)
    ensures
        r == message_fault(bytes@, shape, depth as nat),
    decreases depth, 1int,
{
    match read_fields(bytes, depth) {
        Err(fault) => Some(fault),
        Ok(v) => find_fields_fault(v.as_slice(), shape, depth),
    }
}

/// Decides whether fields are those of a message.
pub fn find_fields_fault(v: &[Field], shape: Shape, depth: u32) -> (r: Option<WireFault>)
    ensures
        r == fields_fault(protobuf::field_views(v@), shape, depth as nat),
    decreases depth, 0int,
{
    let ghost all = protobuf::field_views(v@);
    let mut i: usize = 0;
    while i < v.len()
        invariant
            i <= v@.len(),
            all == protobuf::field_views(v@),
            fields_fault(all.take(i as int), shape, depth as nat) is None,
        decreases v@.len() - i,
    {
        proof {
            assert(all.take(i + 1).drop_last() == all.take(i as int));
            assert(all.take(i + 1).last() == v@[i as int]@);
        }
        let kind = shape.kind_of(v[i].tag);
        let fault = match (&kind, &v[i].value) {
            (Kind::Unknown, _) => None,
            (Kind::Number, FieldValue::Varint(_)) => None,
            (Kind::Number, value) => Some(WireFault::Mismatch(wire_type(value), 0)),
            (Kind::Raw, FieldValue::Bytes(_)) => None,
            (Kind::Text, FieldValue::Bytes(b)) => {
                let copy = vstd::slice::slice_to_vec(b.as_slice());
                match text_from_utf8(copy) {
                    Some(_) => None,
                    None => Some(WireFault::Utf8),
                }
            },
            (Kind::Message(inner), FieldValue::Bytes(b)) => {
                if depth == 0 {
                    Some(WireFault::Recursion)
                } else {
                    find_message_fault(b.as_slice(), *inner, depth - 1)
                }
            },
            (_, value) => Some(WireFault::Mismatch(wire_type(value), 2)),
        };
        proof {
            assert(fault == fields_fault(all.take(i + 1), shape, depth as nat));
        }
        if fault.is_some() {
            proof {
                lemma_fault_of_prefix(all, i + 1, shape, depth as nat);
            }
            return fault;
        }
        i += 1;
    }
    proof {
        assert(all.take(i as int) == all);
    }
    None
}

fn wire_type(value: &FieldValue) -> (r: u8)
    ensures
        r == wire_of(value@),
{
    match value {
        FieldValue::Varint(_) => 0,
        FieldValue::Bytes(_) => 2,
        FieldValue::Other(w) => *w,
    }
}

/// A fault among the first fields is the fault of all of them.
pub proof fn lemma_fault_of_prefix(fs: Seq<WireField>, n: int, shape: Shape, depth: nat)
    requires
        0 <= n <= fs.len(),
        fields_fault(fs.take(n), shape, depth) is Some,
    ensures
        fields_fault(fs, shape, depth) == fields_fault(fs.take(n), shape, depth),
    decreases fs.len(),
{
    if n < fs.len() {
        assert(fs.drop_last().take(n) == fs.take(n));
        lemma_fault_of_prefix(fs.drop_last(), n, shape, depth);
    } else {
        assert(fs.take(n) == fs);
    }
}

/// Two groups of fields have the fault of the first group, else that of the second.
pub broadcast proof fn lemma_fault_concat(
    a: Seq<WireField>,
    b: Seq<WireField>,
    shape: Shape,
    depth: nat,
)
    ensures
        #[trigger] fields_fault(a + b, shape, depth) == (match fields_fault(a, shape, depth) {
            Some(fault) => Some(fault),
            None => fields_fault(b, shape, depth),
        }),
    decreases b.len(),
{
    if b.len() == 0 {
        assert(a + b == a);
    } else {
        lemma_fault_concat(a, b.drop_last(), shape, depth);
        assert((a + b).drop_last() == a + b.drop_last());
        assert((a + b).last() == b.last());
    }
}

/// A number stands in a field of numbers without fault.
pub broadcast proof fn lemma_fault_number(tag: u32, n: u64, shape: Shape, depth: nat)
    requires
        shape.kind(tag) == Kind::Number,
    ensures
        #[trigger] fields_fault(protobuf::number_field(tag, n), shape, depth) is None,
{
    reveal_with_fuel(fields_fault, 2);
    let fs = protobuf::number_field(tag, n);
    if n != 0 {
        assert(fs.drop_last() == Seq::<WireField>::empty());
        assert(fs.last() == WireField { tag, value: WireValue::Varint(n) });
    }
}

/// Bytes stand in a field of bytes, and the bytes of a text in a field of texts, without
/// fault.
pub broadcast proof fn lemma_fault_bytes(tag: u32, b: Seq<u8>, shape: Shape, depth: nat)
    requires
        shape.kind(tag) == Kind::Raw || (shape.kind(tag) == Kind::Text && valid_utf8(b)),
    ensures
        #[trigger] fields_fault(protobuf::bytes_field(tag, b), shape, depth) is None,
{
    reveal_with_fuel(fields_fault, 2);
    let fs = protobuf::bytes_field(tag, b);
    if b.len() != 0 {
        assert(fs.drop_last() == Seq::<WireField>::empty());
        assert(fs.last() == WireField { tag, value: WireValue::Bytes(b) });
    }
}

/// An encoded message stands in a field of such messages without fault.
pub broadcast proof fn lemma_fault_message(tag: u32, b: Seq<u8>, shape: Shape, depth: nat)
    requires
        depth > 0,
        shape.kind(tag) is Message,
        message_fault(b, shape.kind(tag)->Message_0, (depth - 1) as nat) is None,
    ensures
        #[trigger] fields_fault(protobuf::message_field(tag, b), shape, depth) is None,
{
    reveal_with_fuel(fields_fault, 2);
    let fs = protobuf::message_field(tag, b);
    assert(fs.drop_last() == Seq::<WireField>::empty());
    assert(fs.last() == WireField { tag, value: WireValue::Bytes(b) });
}

/// Facts about the faults of fields that were put together.
pub broadcast group group_fault {
    lemma_fault_concat,
    lemma_fault_number,
    lemma_fault_bytes,
    lemma_fault_message,
}

/// In fields without fault, the last value of a text field is UTF-8.
pub proof fn lemma_text_is_utf8(fs: Seq<WireField>, tag: u32, shape: Shape, depth: nat)
    requires
        fields_fault(fs, shape, depth) is None,
        shape.kind(tag) == Kind::Text,
    ensures
        valid_utf8(protobuf::bytes_of(fs, tag)),
    decreases fs.len(),
{
    if fs.len() > 0 && fs.last().tag != tag {
        lemma_text_is_utf8(fs.drop_last(), tag, shape, depth);
    }
}

/// The text that describes a fault.
pub open spec fn fault_text(fault: WireFault) -> Seq<char> {
    "failed to decode Protobuf message: "@ + (match fault {
        WireFault::Varint => "invalid varint"@,
        WireFault::Key(k) => "invalid key value: "@ + crate::text::decimal(k as nat),
        WireFault::WireType(w) => "invalid wire type value: "@ + crate::text::decimal(w as nat),
        WireFault::Tag => "invalid tag value: 0"@,
        WireFault::Underflow => "buffer underflow"@,
        WireFault::EndGroup => "unexpected end group tag"@,
        WireFault::Recursion => "recursion limit reached"@,
        WireFault::Mismatch(actual, expected) => "invalid wire type: "@ + wire_name(actual)
            + " (expected "@ + wire_name(expected) + ")"@,
        WireFault::Utf8 => "invalid string value: data is not UTF-8 encoded"@,
    })
}

/// The name of a wire type.
pub open spec fn wire_name(wire: u8) -> Seq<char> {
    match wire {
        0 => "Varint"@,
        1 => "SixtyFourBit"@,
        2 => "LengthDelimited"@,
        3 => "StartGroup"@,
        4 => "EndGroup"@,
        _ => "ThirtyTwoBit"@,
    }
}

fn name_of_wire(wire: u8) -> (r: &'static str)
    ensures
        r@ == wire_name(wire),
{
    match wire {
        0 => "Varint",
        1 => "SixtyFourBit",
        2 => "LengthDelimited",
        3 => "StartGroup",
        4 => "EndGroup",
        _ => "ThirtyTwoBit",
    }
}

/// Describes a fault.
pub fn describe_fault(fault: WireFault) -> (r: String)
    ensures
        r@ == fault_text(fault),
{
    let mut detail = String::new();
    match fault {
        WireFault::Varint => {
            detail.append("invalid varint");
        },
        WireFault::Key(k) => {
            detail.append("invalid key value: ");
            detail.append(decimal_text(k).as_str());
        },
        WireFault::WireType(w) => {
            detail.append("invalid wire type value: ");
            detail.append(decimal_text(w).as_str());
        },
        WireFault::Tag => {
            detail.append("invalid tag value: 0");
        },
        WireFault::Underflow => {
            detail.append("buffer underflow");
        },
        WireFault::EndGroup => {
            detail.append("unexpected end group tag");
        },
        WireFault::Recursion => {
            detail.append("recursion limit reached");
        },
        WireFault::Mismatch(actual, expected) => {
            detail.append("invalid wire type: ");
            detail.append(name_of_wire(actual));
            detail.append(" (expected ");
            detail.append(name_of_wire(expected));
            detail.append(")");
        },
        WireFault::Utf8 => {
            detail.append("invalid string value: data is not UTF-8 encoded");
        },
    }
    let mut text = "failed to decode Protobuf message: ".to_owned();
    text.append(detail.as_str());
    proof {
        assert(text@ == fault_text(fault));
    }
    text
}

// ------------------------------------------------------------------------- message variants

/// The number of the last field that holds a message; zero where there is none.
pub open spec fn variant_tag(fs: Seq<WireField>, shape: Shape) -> u32
    decreases fs.len(),
{
    if fs.len() == 0 {
        0
    } else if shape.kind(fs.last().tag) is Message {
        fs.last().tag
    } else {
        variant_tag(fs.drop_last(), shape)
    }
}

/// The fields of the message that the last fields with its number make up. Such a field
/// adds to the message before it, where that one has the same number, and replaces it else.
pub open spec fn variant_fields(fs: Seq<WireField>, shape: Shape, depth: nat) -> Seq<WireField>
    decreases fs.len(),
{
    if fs.len() == 0 {
        Seq::empty()
    } else {
        let before = fs.drop_last();
        match (shape.kind(fs.last().tag), fs.last().value) {
            (Kind::Message(_), WireValue::Bytes(b)) => {
                let added = match protobuf::fields(b, depth) {
                    Ok(more) => more,
                    Err(_) => Seq::empty(),
                };
                if variant_tag(before, shape) == fs.last().tag {
                    variant_fields(before, shape, depth) + added
                } else {
                    added
                }
            },
            _ => variant_fields(before, shape, depth),
        }
    }
}

/// The fields of a variant have no fault.
pub proof fn lemma_variant_sound(fs: Seq<WireField>, shape: Shape, depth: nat)
    requires
        depth > 0,
        fields_fault(fs, shape, depth) is None,
    ensures
        variant_tag(fs, shape) != 0 ==> {
            &&& shape.kind(variant_tag(fs, shape)) is Message
            &&& fields_fault(
                variant_fields(fs, shape, (depth - 1) as nat),
                shape.kind(variant_tag(fs, shape))->Message_0,
                (depth - 1) as nat,
            ) is None
        },
    decreases fs.len(),
{
    if fs.len() > 0 {
        let before = fs.drop_last();
        let below = (depth - 1) as nat;
        lemma_variant_sound(before, shape, depth);
        if let (Kind::Message(inner), WireValue::Bytes(b)) = (
            shape.kind(fs.last().tag),
            fs.last().value,
        ) {
            assert(message_fault(b, inner, below) is None);
            lemma_fault_concat(
                variant_fields(before, shape, below),
                protobuf::fields(b, below)->Ok_0,
                inner,
                below,
            );
        }
    }
}

/// Reads the variant of a message that holds one of several messages: its number and its
/// fields.
pub fn read_variant(v: &[Field], shape: Shape, depth: u32) -> (r: (u32, Vec<Field>))
    requires
        depth > 0,
        fields_fault(protobuf::field_views(v@), shape, depth as nat) is None,
    ensures
        r.0 == variant_tag(protobuf::field_views(v@), shape),
        protobuf::field_views(r.1@) == variant_fields(protobuf::field_views(v@), shape, (depth - 1) as nat),
{
    let ghost all = protobuf::field_views(v@);
    let mut tag: u32 = 0;
    let mut out: Vec<Field> = Vec::new();
    let mut i: usize = 0;
    proof {
        assert(protobuf::field_views(out@) == Seq::<WireField>::empty());
    }
    while i < v.len()
        invariant
            depth > 0,
            i <= v@.len(),
            all == protobuf::field_views(v@),
            fields_fault(all, shape, depth as nat) is None,
            tag == variant_tag(all.take(i as int), shape),
            protobuf::field_views(out@) == variant_fields(all.take(i as int), shape, (depth - 1) as nat),
        decreases v@.len() - i,
    {
        let ghost prefix = all.take(i + 1);
        proof {
            assert(prefix.drop_last() == all.take(i as int));
            assert(prefix.last() == v@[i as int]@);
            if fields_fault(prefix, shape, depth as nat) is Some {
                lemma_fault_of_prefix(all, i + 1, shape, depth as nat);
            }
        }
        let kind = shape.kind_of(v[i].tag);
        match (&kind, &v[i].value) {
            (Kind::Message(_), FieldValue::Bytes(b)) => {
                let mut added = match read_fields(b.as_slice(), depth - 1) {
                    Ok(more) => more,
                    Err(_) => Vec::new(),
                };
                if tag == v[i].tag {
                    let ghost before = protobuf::field_views(out@);
                    let ghost extra = protobuf::field_views(added@);
                    out.append(&mut added);
                    proof {
                        assert(protobuf::field_views(out@) == before + extra);
                    }
                } else {
                    out = added;
                }
                tag = v[i].tag;
            },
            _ => {
                proof {
                    assert(!(kind is Message));
                }
            },
        }
        i += 1;
    }
    proof {
        assert(all.take(i as int) == all);
    }
    (tag, out)
}

/// The variant of fields whose only message stands last.
pub proof fn lemma_variant_of_one(
    head: Seq<WireField>,
    tag: u32,
    b: Seq<u8>,
    shape: Shape,
    depth: nat,
)
    requires
        variant_tag(head, shape) == 0,
        shape.kind(tag) is Message,
        tag != 0,
        protobuf::fields(b, depth) is Ok,
    ensures
        variant_tag(head + protobuf::message_field(tag, b), shape) == tag,
        variant_fields(head + protobuf::message_field(tag, b), shape, depth) == protobuf::fields(b, depth)->Ok_0,
{
    let fs = head + protobuf::message_field(tag, b);
    assert(fs.drop_last() == head);
    assert(fs.last() == WireField { tag, value: WireValue::Bytes(b) });
}

/// Fields that hold no messages have no variant.
pub proof fn lemma_no_variant(fs: Seq<WireField>, shape: Shape)
    requires
        forall|i: int| 0 <= i < fs.len() ==> !(shape.kind(#[trigger] fs[i].tag) is Message),
    ensures
        variant_tag(fs, shape) == 0,
    decreases fs.len(),
{
    if fs.len() > 0 {
        assert(fs.last() == fs[fs.len() - 1]);
        assert forall|i: int| 0 <= i < fs.drop_last().len() implies !(shape.kind(
            #[trigger] fs.drop_last()[i].tag,
        ) is Message) by {
            assert(fs.drop_last()[i] == fs[i]);
        }
        lemma_no_variant(fs.drop_last(), shape);
    }
}


/// A message whose last field is another message reads back: it has no fault, its fields are
/// those that were written, and its variant is that other message.
pub proof fn lemma_variant_round_trip(
    head: Seq<WireField>,
    tag: u32,
    inner: Seq<WireField>,
    shape: Shape,
    depth: nat,
)
    requires
        depth > 1,
        shape.kind(tag) is Message,
        1 <= tag <= protobuf::MAX_TAG,
        variant_tag(head, shape) == 0,
        fields_fault(head, shape, depth) is None,
        protobuf::all_writable(head),
        fields_fault(inner, shape.kind(tag)->Message_0, (depth - 1) as nat) is None,
        protobuf::all_writable(inner),
        protobuf::encoded(
            head + protobuf::message_field(tag, protobuf::encoded(inner)),
        ).len() <= u64::MAX,
    ensures
        ({
            let all = head + protobuf::message_field(tag, protobuf::encoded(inner));
            &&& message_fault(protobuf::encoded(all), shape, depth) is None
            &&& protobuf::fields(protobuf::encoded(all), depth) == Ok::<_, WireFault>(all)
            &&& variant_tag(all, shape) == tag
            &&& variant_fields(all, shape, (depth - 1) as nat) == inner
            &&& forall|t: u32|
                t != tag ==> #[trigger] protobuf::last_value(all, t) == protobuf::last_value(
                    head,
                    t,
                )
        }),
{
    let b = protobuf::encoded(inner);
    let last = protobuf::message_field(tag, b);
    let all = head + last;
    let below = (depth - 1) as nat;
    protobuf::lemma_encoded_concat(head, last);
    protobuf::lemma_message_len(tag, b);
    protobuf::lemma_fields_round_trip(inner, below);
    assert(message_fault(b, shape.kind(tag)->Message_0, below) is None);
    lemma_fault_message(tag, b, shape, depth);
    lemma_fault_concat(head, last, shape, depth);
    protobuf::lemma_writable_concat(head, last);
    protobuf::lemma_fields_round_trip(all, depth);
    lemma_variant_of_one(head, tag, b, shape, below);
    assert forall|t: u32| t != tag implies #[trigger] protobuf::last_value(all, t)
        == protobuf::last_value(head, t) by {
        protobuf::lemma_last_value_concat(head, last, t);
        protobuf::lemma_last_value_message(tag, b, t);
    }
}

/// A message without a variant reads back.
pub proof fn lemma_plain_round_trip(head: Seq<WireField>, shape: Shape, depth: nat)
    requires
        depth > 0,
        fields_fault(head, shape, depth) is None,
        protobuf::all_writable(head),
        protobuf::encoded(head).len() <= u64::MAX,
    ensures
        message_fault(protobuf::encoded(head), shape, depth) is None,
        protobuf::fields(protobuf::encoded(head), depth) == Ok::<_, WireFault>(head),
{
    protobuf::lemma_fields_round_trip(head, depth);
}

} // verus!
