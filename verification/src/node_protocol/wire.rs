//! The messages of the node control protocol.

use crate::protobuf;
use crate::protobuf::{
    find_bytes, find_flag, find_number, find_small_number, find_text, put_bytes, put_flag,
    put_message, put_number, put_text, read_fields, Field, FieldValue, WireFault, WireField,
    NESTING_LIMIT,
};
use crate::schema;
use crate::schema::{find_message_fault, read_variant, Shape};
use vstd::prelude::*;
use vstd::utf8::*;

pub mod envelope;

verus! {

/// The major version of the node protocol.
pub const PROTOCOL_MAJOR: u32 = 1;

/// The minor version of the node protocol.
pub const PROTOCOL_MINOR: u32 = 1;

/// The envelope of every control message.
#[derive(Clone, Debug, PartialEq)]
pub struct Envelope {
    /// The major version of the sender.
    pub protocol_major: u32,
    /// The minor version of the sender.
    pub protocol_minor: u32,
    /// The 128 bit request identifier.
    pub request_id: Vec<u8>,
    /// The message.
    pub message: Option<envelope::ControlMessage>,
}

/// Asks for the identity and version of a node.
#[derive(Clone, Debug, PartialEq)]
pub struct HelloRequest {
    /// The 128 bit node identifier.
    pub node_id: Vec<u8>,
    /// The display name.
    pub node_name: String,
    /// The lowest supported minor version.
    pub min_minor: u32,
    /// The highest supported minor version.
    pub max_minor: u32,
}

impl HelloRequest {
    /// The fields of the message.
    pub open spec fn fields(self) -> Seq<WireField> {
        protobuf::bytes_field(1, self.node_id@)
            + protobuf::bytes_field(2, encode_utf8(self.node_name@))
            + protobuf::number_field(3, self.min_minor as u64)
            + protobuf::number_field(4, self.max_minor as u64)
    }

    /// Whether the message is what the fields say.
    pub open spec fn is_read_from(self, fs: Seq<WireField>) -> bool {
        &&& self.node_id@ == protobuf::bytes_of(fs, 1)
        &&& self.node_name@ == protobuf::text_of(fs, 2)
        &&& self.min_minor == protobuf::small_number_of(fs, 3)
        &&& self.max_minor == protobuf::small_number_of(fs, 4)
    }

    /// Whether two messages have the same content.
    pub open spec fn same(self, other: Self) -> bool {
        &&& self.node_id@ == other.node_id@
        &&& self.node_name@ == other.node_name@
        &&& self.min_minor == other.min_minor
        &&& self.max_minor == other.max_minor
    }

    /// Encodes the message.
    pub fn encode_to_vec(&self) -> (r: Vec<u8>)
        ensures
            r@ == protobuf::encoded(self.fields()),
    {
        broadcast use protobuf::lemma_encoded_concat;

        let mut out: Vec<u8> = Vec::new();
        put_bytes(&mut out, 1, self.node_id.as_slice());
        put_text(&mut out, 2, self.node_name.as_str());
        put_number(&mut out, 3, self.min_minor as u64);
        put_number(&mut out, 4, self.max_minor as u64);
        out
    }

    pub(crate) fn from_fields(v: &[Field]) -> (r: Self)
        requires
            exists|depth: nat|
                schema::fields_fault(protobuf::field_views(v@), Shape::HelloRequest, depth) is None,
        ensures
            r.is_read_from(protobuf::field_views(v@)),
    {
        proof {
            let fs = protobuf::field_views(v@);
            let depth = choose|depth: nat|
                schema::fields_fault(fs, Shape::HelloRequest, depth) is None;
            schema::lemma_text_is_utf8(fs, 2, Shape::HelloRequest, depth);
        }
        HelloRequest {
            node_id: find_bytes(v, 1),
            node_name: find_text(v, 2),
            min_minor: find_small_number(v, 3),
            max_minor: find_small_number(v, 4),
        }
    }

    /// What is read from the fields of a message has the content of that message.
    pub proof fn lemma_round_trip(self, other: Self, depth: nat)
        ensures
            other.is_read_from(self.fields()) <==> other.same(self),
            schema::fields_fault(self.fields(), Shape::HelloRequest, depth) is None,
            protobuf::all_writable(self.fields()),
    {
        broadcast use protobuf::group_last_value;
        broadcast use schema::group_fault;
        broadcast use protobuf::lemma_writable_concat;

        protobuf::lemma_no_bytes(self.node_id@);
        protobuf::lemma_text_bytes(self.node_name@);
    }
}

/// Answers with the negotiated version.
#[derive(Clone, Debug, PartialEq)]
pub struct HelloResponse {
    /// The selected minor version.
    pub selected_minor: u32,
    /// The identifier of the responder.
    pub node_id: Vec<u8>,
    /// The display name of the responder.
    pub node_name: String,
}

impl HelloResponse {
    /// The fields of the message.
    pub open spec fn fields(self) -> Seq<WireField> {
        protobuf::number_field(1, self.selected_minor as u64)
            + protobuf::bytes_field(2, self.node_id@)
            + protobuf::bytes_field(3, encode_utf8(self.node_name@))
    }

    /// Whether the message is what the fields say.
    pub open spec fn is_read_from(self, fs: Seq<WireField>) -> bool {
        &&& self.selected_minor == protobuf::small_number_of(fs, 1)
        &&& self.node_id@ == protobuf::bytes_of(fs, 2)
        &&& self.node_name@ == protobuf::text_of(fs, 3)
    }

    /// Whether two messages have the same content.
    pub open spec fn same(self, other: Self) -> bool {
        &&& self.selected_minor == other.selected_minor
        &&& self.node_id@ == other.node_id@
        &&& self.node_name@ == other.node_name@
    }

    /// Encodes the message.
    pub fn encode_to_vec(&self) -> (r: Vec<u8>)
        ensures
            r@ == protobuf::encoded(self.fields()),
    {
        broadcast use protobuf::lemma_encoded_concat;

        let mut out: Vec<u8> = Vec::new();
        put_number(&mut out, 1, self.selected_minor as u64);
        put_bytes(&mut out, 2, self.node_id.as_slice());
        put_text(&mut out, 3, self.node_name.as_str());
        out
    }

    pub(crate) fn from_fields(v: &[Field]) -> (r: Self)
        requires
            exists|depth: nat|
                schema::fields_fault(protobuf::field_views(v@), Shape::HelloResponse, depth) is None,
        ensures
            r.is_read_from(protobuf::field_views(v@)),
    {
        proof {
            let fs = protobuf::field_views(v@);
            let depth = choose|depth: nat|
                schema::fields_fault(fs, Shape::HelloResponse, depth) is None;
            schema::lemma_text_is_utf8(fs, 3, Shape::HelloResponse, depth);
        }
        HelloResponse {
            selected_minor: find_small_number(v, 1),
            node_id: find_bytes(v, 2),
            node_name: find_text(v, 3),
        }
    }

    /// What is read from the fields of a message has the content of that message.
    pub proof fn lemma_round_trip(self, other: Self, depth: nat)
        ensures
            other.is_read_from(self.fields()) <==> other.same(self),
            schema::fields_fault(self.fields(), Shape::HelloResponse, depth) is None,
            protobuf::all_writable(self.fields()),
    {
        broadcast use protobuf::group_last_value;
        broadcast use schema::group_fault;
        broadcast use protobuf::lemma_writable_concat;

        protobuf::lemma_no_bytes(self.node_id@);
        protobuf::lemma_text_bytes(self.node_name@);
    }
}

/// Asks for a pairing that a user confirms.
#[derive(Clone, Debug, PartialEq)]
pub struct PairRequest {
    /// The node identifier.
    pub node_id: Vec<u8>,
    /// The public key in DER form.
    pub public_key: Vec<u8>,
}

impl PairRequest {
    /// The fields of the message.
    pub open spec fn fields(self) -> Seq<WireField> {
        protobuf::bytes_field(1, self.node_id@)
            + protobuf::bytes_field(2, self.public_key@)
    }

    /// Whether the message is what the fields say.
    pub open spec fn is_read_from(self, fs: Seq<WireField>) -> bool {
        &&& self.node_id@ == protobuf::bytes_of(fs, 1)
        &&& self.public_key@ == protobuf::bytes_of(fs, 2)
    }

    /// Whether two messages have the same content.
    pub open spec fn same(self, other: Self) -> bool {
        &&& self.node_id@ == other.node_id@
        &&& self.public_key@ == other.public_key@
    }

    /// Encodes the message.
    pub fn encode_to_vec(&self) -> (r: Vec<u8>)
        ensures
            r@ == protobuf::encoded(self.fields()),
    {
        broadcast use protobuf::lemma_encoded_concat;

        let mut out: Vec<u8> = Vec::new();
        put_bytes(&mut out, 1, self.node_id.as_slice());
        put_bytes(&mut out, 2, self.public_key.as_slice());
        out
    }

    pub(crate) fn from_fields(v: &[Field]) -> (r: Self)
        requires
            exists|depth: nat|
                schema::fields_fault(protobuf::field_views(v@), Shape::PairRequest, depth) is None,
        ensures
            r.is_read_from(protobuf::field_views(v@)),
    {
        PairRequest {
            node_id: find_bytes(v, 1),
            public_key: find_bytes(v, 2),
        }
    }

    /// What is read from the fields of a message has the content of that message.
    pub proof fn lemma_round_trip(self, other: Self, depth: nat)
        ensures
            other.is_read_from(self.fields()) <==> other.same(self),
            schema::fields_fault(self.fields(), Shape::PairRequest, depth) is None,
            protobuf::all_writable(self.fields()),
    {
        broadcast use protobuf::group_last_value;
        broadcast use schema::group_fault;
        broadcast use protobuf::lemma_writable_concat;

        protobuf::lemma_no_bytes(self.node_id@);
        protobuf::lemma_no_bytes(self.public_key@);
    }
}

/// The decision on a pairing.
#[derive(Clone, Debug, PartialEq)]
pub struct PairResponse {
    /// Whether the user confirmed the trust.
    pub trusted: bool,
    /// The complete SHA-256 fingerprint.
    pub fingerprint: String,
}

impl PairResponse {
    /// The fields of the message.
    pub open spec fn fields(self) -> Seq<WireField> {
        protobuf::number_field(1, protobuf::flag(self.trusted))
            + protobuf::bytes_field(2, encode_utf8(self.fingerprint@))
    }

    /// Whether the message is what the fields say.
    pub open spec fn is_read_from(self, fs: Seq<WireField>) -> bool {
        &&& self.trusted == (protobuf::number_of(fs, 1) != 0)
        &&& self.fingerprint@ == protobuf::text_of(fs, 2)
    }

    /// Whether two messages have the same content.
    pub open spec fn same(self, other: Self) -> bool {
        &&& self.trusted == other.trusted
        &&& self.fingerprint@ == other.fingerprint@
    }

    /// Encodes the message.
    pub fn encode_to_vec(&self) -> (r: Vec<u8>)
        ensures
            r@ == protobuf::encoded(self.fields()),
    {
        broadcast use protobuf::lemma_encoded_concat;

        let mut out: Vec<u8> = Vec::new();
        put_flag(&mut out, 1, self.trusted);
        put_text(&mut out, 2, self.fingerprint.as_str());
        out
    }

    pub(crate) fn from_fields(v: &[Field]) -> (r: Self)
        requires
            exists|depth: nat|
                schema::fields_fault(protobuf::field_views(v@), Shape::PairResponse, depth) is None,
        ensures
            r.is_read_from(protobuf::field_views(v@)),
    {
        proof {
            let fs = protobuf::field_views(v@);
            let depth = choose|depth: nat|
                schema::fields_fault(fs, Shape::PairResponse, depth) is None;
            schema::lemma_text_is_utf8(fs, 2, Shape::PairResponse, depth);
        }
        PairResponse {
            trusted: find_flag(v, 1),
            fingerprint: find_text(v, 2),
        }
    }

    /// What is read from the fields of a message has the content of that message.
    pub proof fn lemma_round_trip(self, other: Self, depth: nat)
        ensures
            other.is_read_from(self.fields()) <==> other.same(self),
            schema::fields_fault(self.fields(), Shape::PairResponse, depth) is None,
            protobuf::all_writable(self.fields()),
    {
        broadcast use protobuf::group_last_value;
        broadcast use schema::group_fault;
        broadcast use protobuf::lemma_writable_concat;

        protobuf::lemma_text_bytes(self.fingerprint@);
    }
}

/// A capability with its version range.
#[derive(Clone, Debug, PartialEq)]
pub struct CapabilityMessage {
    /// The registered identifier.
    pub id: u32,
    /// The lowest version.
    pub min_version: u32,
    /// The highest version.
    pub max_version: u32,
    /// Whether it can be used now.
    pub available: bool,
}

impl CapabilityMessage {
    /// The fields of the message.
    pub open spec fn fields(self) -> Seq<WireField> {
        protobuf::number_field(1, self.id as u64)
            + protobuf::number_field(2, self.min_version as u64)
            + protobuf::number_field(3, self.max_version as u64)
            + protobuf::number_field(4, protobuf::flag(self.available))
    }

    /// Whether the message is what the fields say.
    pub open spec fn is_read_from(self, fs: Seq<WireField>) -> bool {
        &&& self.id == protobuf::small_number_of(fs, 1)
        &&& self.min_version == protobuf::small_number_of(fs, 2)
        &&& self.max_version == protobuf::small_number_of(fs, 3)
        &&& self.available == (protobuf::number_of(fs, 4) != 0)
    }

    /// Whether two messages have the same content.
    pub open spec fn same(self, other: Self) -> bool {
        &&& self.id == other.id
        &&& self.min_version == other.min_version
        &&& self.max_version == other.max_version
        &&& self.available == other.available
    }

    /// Encodes the message.
    pub fn encode_to_vec(&self) -> (r: Vec<u8>)
        ensures
            r@ == protobuf::encoded(self.fields()),
    {
        broadcast use protobuf::lemma_encoded_concat;

        let mut out: Vec<u8> = Vec::new();
        put_number(&mut out, 1, self.id as u64);
        put_number(&mut out, 2, self.min_version as u64);
        put_number(&mut out, 3, self.max_version as u64);
        put_flag(&mut out, 4, self.available);
        out
    }

    pub(crate) fn from_fields(v: &[Field]) -> (r: Self)
        requires
            exists|depth: nat|
                schema::fields_fault(protobuf::field_views(v@), Shape::CapabilityMessage, depth) is None,
        ensures
            r.is_read_from(protobuf::field_views(v@)),
    {
        CapabilityMessage {
            id: find_small_number(v, 1),
            min_version: find_small_number(v, 2),
            max_version: find_small_number(v, 3),
            available: find_flag(v, 4),
        }
    }

    /// What is read from the fields of a message has the content of that message.
    pub proof fn lemma_round_trip(self, other: Self, depth: nat)
        ensures
            other.is_read_from(self.fields()) <==> other.same(self),
            schema::fields_fault(self.fields(), Shape::CapabilityMessage, depth) is None,
            protobuf::all_writable(self.fields()),
    {
        broadcast use protobuf::group_last_value;
        broadcast use schema::group_fault;
        broadcast use protobuf::lemma_writable_concat;

    }
}

/// The parameters of a test.
#[derive(Clone, Debug, PartialEq)]
pub struct PrepareTest {
    /// The 128 bit session identifier.
    pub session_id: Vec<u8>,
    /// The idempotent operation identifier.
    pub operation_id: String,
    /// The registered test type.
    pub test_type: String,
    /// The registered backend.
    pub backend: String,
    /// The registered direction.
    pub direction: String,
    /// The measuring time in milliseconds.
    pub duration_ms: u64,
    /// The warm up time in milliseconds.
    pub warmup_ms: u64,
    /// The cool down time in milliseconds.
    pub cooldown_ms: u64,
    /// The number of parallel streams.
    pub streams: u32,
    /// The frame size in bytes.
    pub frame_size: u32,
    /// The payload size in bytes.
    pub payload_size: u32,
    /// The target rate in bits per second.
    pub target_rate_bps: u64,
    /// The maximum transmission unit in bytes.
    pub mtu: u32,
    /// The source port that the sender has bound; endpoint authorization compares it.
    pub source_data_port: u32,
    /// The receiver port that the initiator has bound before preparing.
    pub receive_data_port: u32,
}

impl PrepareTest {
    /// The fields of the message.
    pub open spec fn fields(self) -> Seq<WireField> {
        self.identity_fields() + self.timing_fields() + self.size_fields()
    }

    /// The fields 1 to 5 of the message.
    pub open spec fn identity_fields(self) -> Seq<WireField> {
        protobuf::bytes_field(1, self.session_id@)
            + protobuf::bytes_field(2, encode_utf8(self.operation_id@))
            + protobuf::bytes_field(3, encode_utf8(self.test_type@))
            + protobuf::bytes_field(4, encode_utf8(self.backend@))
            + protobuf::bytes_field(5, encode_utf8(self.direction@))
    }

    /// The fields 6 to 10 of the message.
    pub open spec fn timing_fields(self) -> Seq<WireField> {
        protobuf::number_field(6, self.duration_ms)
            + protobuf::number_field(7, self.warmup_ms)
            + protobuf::number_field(8, self.cooldown_ms)
            + protobuf::number_field(9, self.streams as u64)
            + protobuf::number_field(10, self.frame_size as u64)
    }

    /// The fields 11 to 15 of the message.
    pub open spec fn size_fields(self) -> Seq<WireField> {
        protobuf::number_field(11, self.payload_size as u64)
            + protobuf::number_field(12, self.target_rate_bps)
            + protobuf::number_field(13, self.mtu as u64)
            + protobuf::number_field(14, self.source_data_port as u64)
            + protobuf::number_field(15, self.receive_data_port as u64)
    }

    proof fn lemma_identity_fields(self, depth: nat)
        ensures
            protobuf::last_value(self.identity_fields(), 1) == (if self.session_id@.len() == 0 { None } else { Some(protobuf::WireValue::Bytes(self.session_id@)) }),
            protobuf::last_value(self.identity_fields(), 2) == (if encode_utf8(self.operation_id@).len() == 0 { None } else { Some(protobuf::WireValue::Bytes(encode_utf8(self.operation_id@))) }),
            protobuf::last_value(self.identity_fields(), 3) == (if encode_utf8(self.test_type@).len() == 0 { None } else { Some(protobuf::WireValue::Bytes(encode_utf8(self.test_type@))) }),
            protobuf::last_value(self.identity_fields(), 4) == (if encode_utf8(self.backend@).len() == 0 { None } else { Some(protobuf::WireValue::Bytes(encode_utf8(self.backend@))) }),
            protobuf::last_value(self.identity_fields(), 5) == (if encode_utf8(self.direction@).len() == 0 { None } else { Some(protobuf::WireValue::Bytes(encode_utf8(self.direction@))) }),
            forall|t: u32| t < 1 || t > 5 ==> (#[trigger] protobuf::last_value(self.identity_fields(), t)) is None,
            schema::fields_fault(self.identity_fields(), Shape::PrepareTest, depth) is None,
            protobuf::all_writable(self.identity_fields()),
    {
        broadcast use protobuf::group_last_value;
        broadcast use schema::group_fault;
        broadcast use protobuf::lemma_writable_concat;

        protobuf::lemma_no_bytes(self.session_id@);
        protobuf::lemma_text_bytes(self.operation_id@);
        protobuf::lemma_text_bytes(self.test_type@);
        protobuf::lemma_text_bytes(self.backend@);
        protobuf::lemma_text_bytes(self.direction@);
    }

    proof fn lemma_timing_fields(self, depth: nat)
        ensures
            protobuf::last_value(self.timing_fields(), 6) == (if self.duration_ms == 0 { None } else { Some(protobuf::WireValue::Varint(self.duration_ms)) }),
            protobuf::last_value(self.timing_fields(), 7) == (if self.warmup_ms == 0 { None } else { Some(protobuf::WireValue::Varint(self.warmup_ms)) }),
            protobuf::last_value(self.timing_fields(), 8) == (if self.cooldown_ms == 0 { None } else { Some(protobuf::WireValue::Varint(self.cooldown_ms)) }),
            protobuf::last_value(self.timing_fields(), 9) == (if self.streams as u64 == 0 { None } else { Some(protobuf::WireValue::Varint(self.streams as u64)) }),
            protobuf::last_value(self.timing_fields(), 10) == (if self.frame_size as u64 == 0 { None } else { Some(protobuf::WireValue::Varint(self.frame_size as u64)) }),
            forall|t: u32| t < 6 || t > 10 ==> (#[trigger] protobuf::last_value(self.timing_fields(), t)) is None,
            schema::fields_fault(self.timing_fields(), Shape::PrepareTest, depth) is None,
            protobuf::all_writable(self.timing_fields()),
    {
        broadcast use protobuf::group_last_value;
        broadcast use schema::group_fault;
        broadcast use protobuf::lemma_writable_concat;

    }

    proof fn lemma_size_fields(self, depth: nat)
        ensures
            protobuf::last_value(self.size_fields(), 11) == (if self.payload_size as u64 == 0 { None } else { Some(protobuf::WireValue::Varint(self.payload_size as u64)) }),
            protobuf::last_value(self.size_fields(), 12) == (if self.target_rate_bps == 0 { None } else { Some(protobuf::WireValue::Varint(self.target_rate_bps)) }),
            protobuf::last_value(self.size_fields(), 13) == (if self.mtu as u64 == 0 { None } else { Some(protobuf::WireValue::Varint(self.mtu as u64)) }),
            protobuf::last_value(self.size_fields(), 14) == (if self.source_data_port as u64 == 0 { None } else { Some(protobuf::WireValue::Varint(self.source_data_port as u64)) }),
            protobuf::last_value(self.size_fields(), 15) == (if self.receive_data_port as u64 == 0 { None } else { Some(protobuf::WireValue::Varint(self.receive_data_port as u64)) }),
            forall|t: u32| t < 11 || t > 15 ==> (#[trigger] protobuf::last_value(self.size_fields(), t)) is None,
            schema::fields_fault(self.size_fields(), Shape::PrepareTest, depth) is None,
            protobuf::all_writable(self.size_fields()),
    {
        broadcast use protobuf::group_last_value;
        broadcast use schema::group_fault;
        broadcast use protobuf::lemma_writable_concat;

    }

    /// Whether the message is what the fields say.
    pub open spec fn is_read_from(self, fs: Seq<WireField>) -> bool {
        &&& self.session_id@ == protobuf::bytes_of(fs, 1)
        &&& self.operation_id@ == protobuf::text_of(fs, 2)
        &&& self.test_type@ == protobuf::text_of(fs, 3)
        &&& self.backend@ == protobuf::text_of(fs, 4)
        &&& self.direction@ == protobuf::text_of(fs, 5)
        &&& self.duration_ms == protobuf::number_of(fs, 6)
        &&& self.warmup_ms == protobuf::number_of(fs, 7)
        &&& self.cooldown_ms == protobuf::number_of(fs, 8)
        &&& self.streams == protobuf::small_number_of(fs, 9)
        &&& self.frame_size == protobuf::small_number_of(fs, 10)
        &&& self.payload_size == protobuf::small_number_of(fs, 11)
        &&& self.target_rate_bps == protobuf::number_of(fs, 12)
        &&& self.mtu == protobuf::small_number_of(fs, 13)
        &&& self.source_data_port == protobuf::small_number_of(fs, 14)
        &&& self.receive_data_port == protobuf::small_number_of(fs, 15)
    }

    /// Whether two messages have the same content.
    pub open spec fn same(self, other: Self) -> bool {
        &&& self.session_id@ == other.session_id@
        &&& self.operation_id@ == other.operation_id@
        &&& self.test_type@ == other.test_type@
        &&& self.backend@ == other.backend@
        &&& self.direction@ == other.direction@
        &&& self.duration_ms == other.duration_ms
        &&& self.warmup_ms == other.warmup_ms
        &&& self.cooldown_ms == other.cooldown_ms
        &&& self.streams == other.streams
        &&& self.frame_size == other.frame_size
        &&& self.payload_size == other.payload_size
        &&& self.target_rate_bps == other.target_rate_bps
        &&& self.mtu == other.mtu
        &&& self.source_data_port == other.source_data_port
        &&& self.receive_data_port == other.receive_data_port
    }

    /// Encodes the message.
    pub fn encode_to_vec(&self) -> (r: Vec<u8>)
        ensures
            r@ == protobuf::encoded(self.fields()),
    {
        broadcast use protobuf::lemma_encoded_concat;

        let mut out: Vec<u8> = Vec::new();
        self.put_identity_fields(&mut out);
        self.put_timing_fields(&mut out);
        self.put_size_fields(&mut out);
        out
    }

    fn put_identity_fields(&self, out: &mut Vec<u8>)
        ensures
            final(out)@ == old(out)@ + protobuf::encoded(self.identity_fields()),
    {
        broadcast use protobuf::lemma_encoded_concat;

        put_bytes(out, 1, self.session_id.as_slice());
        put_text(out, 2, self.operation_id.as_str());
        put_text(out, 3, self.test_type.as_str());
        put_text(out, 4, self.backend.as_str());
        put_text(out, 5, self.direction.as_str());
        proof {
            assert(out@ =~= old(out)@ + protobuf::encoded(self.identity_fields()));
        }
    }

    fn put_timing_fields(&self, out: &mut Vec<u8>)
        ensures
            final(out)@ == old(out)@ + protobuf::encoded(self.timing_fields()),
    {
        broadcast use protobuf::lemma_encoded_concat;

        put_number(out, 6, self.duration_ms);
        put_number(out, 7, self.warmup_ms);
        put_number(out, 8, self.cooldown_ms);
        put_number(out, 9, self.streams as u64);
        put_number(out, 10, self.frame_size as u64);
        proof {
            assert(out@ =~= old(out)@ + protobuf::encoded(self.timing_fields()));
        }
    }

    fn put_size_fields(&self, out: &mut Vec<u8>)
        ensures
            final(out)@ == old(out)@ + protobuf::encoded(self.size_fields()),
    {
        broadcast use protobuf::lemma_encoded_concat;

        put_number(out, 11, self.payload_size as u64);
        put_number(out, 12, self.target_rate_bps);
        put_number(out, 13, self.mtu as u64);
        put_number(out, 14, self.source_data_port as u64);
        put_number(out, 15, self.receive_data_port as u64);
        proof {
            assert(out@ =~= old(out)@ + protobuf::encoded(self.size_fields()));
        }
    }

    pub(crate) fn from_fields(v: &[Field]) -> (r: Self)
        requires
            exists|depth: nat|
                schema::fields_fault(protobuf::field_views(v@), Shape::PrepareTest, depth) is None,
        ensures
            r.is_read_from(protobuf::field_views(v@)),
    {
        proof {
            let fs = protobuf::field_views(v@);
            let depth = choose|depth: nat|
                schema::fields_fault(fs, Shape::PrepareTest, depth) is None;
            schema::lemma_text_is_utf8(fs, 2, Shape::PrepareTest, depth);
            schema::lemma_text_is_utf8(fs, 3, Shape::PrepareTest, depth);
            schema::lemma_text_is_utf8(fs, 4, Shape::PrepareTest, depth);
            schema::lemma_text_is_utf8(fs, 5, Shape::PrepareTest, depth);
        }
        PrepareTest {
            session_id: find_bytes(v, 1),
            operation_id: find_text(v, 2),
            test_type: find_text(v, 3),
            backend: find_text(v, 4),
            direction: find_text(v, 5),
            duration_ms: find_number(v, 6),
            warmup_ms: find_number(v, 7),
            cooldown_ms: find_number(v, 8),
            streams: find_small_number(v, 9),
            frame_size: find_small_number(v, 10),
            payload_size: find_small_number(v, 11),
            target_rate_bps: find_number(v, 12),
            mtu: find_small_number(v, 13),
            source_data_port: find_small_number(v, 14),
            receive_data_port: find_small_number(v, 15),
        }
    }

    /// What is read from the fields of a message has the content of that message.
    pub proof fn lemma_round_trip(self, other: Self, depth: nat)
        ensures
            other.is_read_from(self.fields()) <==> other.same(self),
            schema::fields_fault(self.fields(), Shape::PrepareTest, depth) is None,
            protobuf::all_writable(self.fields()),
    {
        self.lemma_identity_fields(depth);
        self.lemma_timing_fields(depth);
        self.lemma_size_fields(depth);
        protobuf::lemma_no_bytes(self.session_id@);
        protobuf::lemma_text_bytes(self.operation_id@);
        protobuf::lemma_text_bytes(self.test_type@);
        protobuf::lemma_text_bytes(self.backend@);
        protobuf::lemma_text_bytes(self.direction@);
        schema::lemma_fault_concat(self.identity_fields(), self.timing_fields(), Shape::PrepareTest, depth);
        protobuf::lemma_writable_concat(self.identity_fields(), self.timing_fields());
        schema::lemma_fault_concat(self.identity_fields() + self.timing_fields(), self.size_fields(), Shape::PrepareTest, depth);
        protobuf::lemma_writable_concat(self.identity_fields() + self.timing_fields(), self.size_fields());
        protobuf::lemma_last_value_concat(self.identity_fields(), self.timing_fields(), 1);
        protobuf::lemma_last_value_concat(self.identity_fields() + self.timing_fields(), self.size_fields(), 1);
        protobuf::lemma_last_value_concat(self.identity_fields(), self.timing_fields(), 2);
        protobuf::lemma_last_value_concat(self.identity_fields() + self.timing_fields(), self.size_fields(), 2);
        protobuf::lemma_last_value_concat(self.identity_fields(), self.timing_fields(), 3);
        protobuf::lemma_last_value_concat(self.identity_fields() + self.timing_fields(), self.size_fields(), 3);
        protobuf::lemma_last_value_concat(self.identity_fields(), self.timing_fields(), 4);
        protobuf::lemma_last_value_concat(self.identity_fields() + self.timing_fields(), self.size_fields(), 4);
        protobuf::lemma_last_value_concat(self.identity_fields(), self.timing_fields(), 5);
        protobuf::lemma_last_value_concat(self.identity_fields() + self.timing_fields(), self.size_fields(), 5);
        protobuf::lemma_last_value_concat(self.identity_fields(), self.timing_fields(), 6);
        protobuf::lemma_last_value_concat(self.identity_fields() + self.timing_fields(), self.size_fields(), 6);
        protobuf::lemma_last_value_concat(self.identity_fields(), self.timing_fields(), 7);
        protobuf::lemma_last_value_concat(self.identity_fields() + self.timing_fields(), self.size_fields(), 7);
        protobuf::lemma_last_value_concat(self.identity_fields(), self.timing_fields(), 8);
        protobuf::lemma_last_value_concat(self.identity_fields() + self.timing_fields(), self.size_fields(), 8);
        protobuf::lemma_last_value_concat(self.identity_fields(), self.timing_fields(), 9);
        protobuf::lemma_last_value_concat(self.identity_fields() + self.timing_fields(), self.size_fields(), 9);
        protobuf::lemma_last_value_concat(self.identity_fields(), self.timing_fields(), 10);
        protobuf::lemma_last_value_concat(self.identity_fields() + self.timing_fields(), self.size_fields(), 10);
        protobuf::lemma_last_value_concat(self.identity_fields(), self.timing_fields(), 11);
        protobuf::lemma_last_value_concat(self.identity_fields() + self.timing_fields(), self.size_fields(), 11);
        protobuf::lemma_last_value_concat(self.identity_fields(), self.timing_fields(), 12);
        protobuf::lemma_last_value_concat(self.identity_fields() + self.timing_fields(), self.size_fields(), 12);
        protobuf::lemma_last_value_concat(self.identity_fields(), self.timing_fields(), 13);
        protobuf::lemma_last_value_concat(self.identity_fields() + self.timing_fields(), self.size_fields(), 13);
        protobuf::lemma_last_value_concat(self.identity_fields(), self.timing_fields(), 14);
        protobuf::lemma_last_value_concat(self.identity_fields() + self.timing_fields(), self.size_fields(), 14);
        protobuf::lemma_last_value_concat(self.identity_fields(), self.timing_fields(), 15);
        protobuf::lemma_last_value_concat(self.identity_fields() + self.timing_fields(), self.size_fields(), 15);
    }
}

/// The prepared data plane endpoint.
#[derive(Clone, Debug, PartialEq)]
pub struct PrepareTestResponse {
    /// Whether resources and data plane are ready.
    pub ready: bool,
    /// The data plane port.
    pub data_port: u32,
    /// The authorization tag of the session.
    pub authorization_tag: String,
    /// The source port that the remote sender has bound.
    pub source_data_port: u32,
}

impl PrepareTestResponse {
    /// The fields of the message.
    pub open spec fn fields(self) -> Seq<WireField> {
        protobuf::number_field(1, protobuf::flag(self.ready))
            + protobuf::number_field(2, self.data_port as u64)
            + protobuf::bytes_field(3, encode_utf8(self.authorization_tag@))
            + protobuf::number_field(4, self.source_data_port as u64)
    }

    /// Whether the message is what the fields say.
    pub open spec fn is_read_from(self, fs: Seq<WireField>) -> bool {
        &&& self.ready == (protobuf::number_of(fs, 1) != 0)
        &&& self.data_port == protobuf::small_number_of(fs, 2)
        &&& self.authorization_tag@ == protobuf::text_of(fs, 3)
        &&& self.source_data_port == protobuf::small_number_of(fs, 4)
    }

    /// Whether two messages have the same content.
    pub open spec fn same(self, other: Self) -> bool {
        &&& self.ready == other.ready
        &&& self.data_port == other.data_port
        &&& self.authorization_tag@ == other.authorization_tag@
        &&& self.source_data_port == other.source_data_port
    }

    /// Encodes the message.
    pub fn encode_to_vec(&self) -> (r: Vec<u8>)
        ensures
            r@ == protobuf::encoded(self.fields()),
    {
        broadcast use protobuf::lemma_encoded_concat;

        let mut out: Vec<u8> = Vec::new();
        put_flag(&mut out, 1, self.ready);
        put_number(&mut out, 2, self.data_port as u64);
        put_text(&mut out, 3, self.authorization_tag.as_str());
        put_number(&mut out, 4, self.source_data_port as u64);
        out
    }

    pub(crate) fn from_fields(v: &[Field]) -> (r: Self)
        requires
            exists|depth: nat|
                schema::fields_fault(protobuf::field_views(v@), Shape::PrepareTestResponse, depth) is None,
        ensures
            r.is_read_from(protobuf::field_views(v@)),
    {
        proof {
            let fs = protobuf::field_views(v@);
            let depth = choose|depth: nat|
                schema::fields_fault(fs, Shape::PrepareTestResponse, depth) is None;
            schema::lemma_text_is_utf8(fs, 3, Shape::PrepareTestResponse, depth);
        }
        PrepareTestResponse {
            ready: find_flag(v, 1),
            data_port: find_small_number(v, 2),
            authorization_tag: find_text(v, 3),
            source_data_port: find_small_number(v, 4),
        }
    }

    /// What is read from the fields of a message has the content of that message.
    pub proof fn lemma_round_trip(self, other: Self, depth: nat)
        ensures
            other.is_read_from(self.fields()) <==> other.same(self),
            schema::fields_fault(self.fields(), Shape::PrepareTestResponse, depth) is None,
            protobuf::all_writable(self.fields()),
    {
        broadcast use protobuf::group_last_value;
        broadcast use schema::group_fault;
        broadcast use protobuf::lemma_writable_concat;

        protobuf::lemma_text_bytes(self.authorization_tag@);
    }
}

/// Starts a test at an agreed time.
#[derive(Clone, Debug, PartialEq)]
pub struct StartTest {
    /// The session identifier.
    pub session_id: Vec<u8>,
    /// The idempotent operation identifier.
    pub operation_id: String,
    /// The agreed wall clock start; no duration may be computed from it.
    pub start_at_unix_nanoseconds: u64,
}

impl StartTest {
    /// The fields of the message.
    pub open spec fn fields(self) -> Seq<WireField> {
        protobuf::bytes_field(1, self.session_id@)
            + protobuf::bytes_field(2, encode_utf8(self.operation_id@))
            + protobuf::number_field(3, self.start_at_unix_nanoseconds)
    }

    /// Whether the message is what the fields say.
    pub open spec fn is_read_from(self, fs: Seq<WireField>) -> bool {
        &&& self.session_id@ == protobuf::bytes_of(fs, 1)
        &&& self.operation_id@ == protobuf::text_of(fs, 2)
        &&& self.start_at_unix_nanoseconds == protobuf::number_of(fs, 3)
    }

    /// Whether two messages have the same content.
    pub open spec fn same(self, other: Self) -> bool {
        &&& self.session_id@ == other.session_id@
        &&& self.operation_id@ == other.operation_id@
        &&& self.start_at_unix_nanoseconds == other.start_at_unix_nanoseconds
    }

    /// Encodes the message.
    pub fn encode_to_vec(&self) -> (r: Vec<u8>)
        ensures
            r@ == protobuf::encoded(self.fields()),
    {
        broadcast use protobuf::lemma_encoded_concat;

        let mut out: Vec<u8> = Vec::new();
        put_bytes(&mut out, 1, self.session_id.as_slice());
        put_text(&mut out, 2, self.operation_id.as_str());
        put_number(&mut out, 3, self.start_at_unix_nanoseconds);
        out
    }

    pub(crate) fn from_fields(v: &[Field]) -> (r: Self)
        requires
            exists|depth: nat|
                schema::fields_fault(protobuf::field_views(v@), Shape::StartTest, depth) is None,
        ensures
            r.is_read_from(protobuf::field_views(v@)),
    {
        proof {
            let fs = protobuf::field_views(v@);
            let depth = choose|depth: nat|
                schema::fields_fault(fs, Shape::StartTest, depth) is None;
            schema::lemma_text_is_utf8(fs, 2, Shape::StartTest, depth);
        }
        StartTest {
            session_id: find_bytes(v, 1),
            operation_id: find_text(v, 2),
            start_at_unix_nanoseconds: find_number(v, 3),
        }
    }

    /// What is read from the fields of a message has the content of that message.
    pub proof fn lemma_round_trip(self, other: Self, depth: nat)
        ensures
            other.is_read_from(self.fields()) <==> other.same(self),
            schema::fields_fault(self.fields(), Shape::StartTest, depth) is None,
            protobuf::all_writable(self.fields()),
    {
        broadcast use protobuf::group_last_value;
        broadcast use schema::group_fault;
        broadcast use protobuf::lemma_writable_concat;

        protobuf::lemma_no_bytes(self.session_id@);
        protobuf::lemma_text_bytes(self.operation_id@);
    }
}

/// Stops or cancels a test; may be repeated.
#[derive(Clone, Debug, PartialEq)]
pub struct StopTest {
    /// The session identifier.
    pub session_id: Vec<u8>,
    /// The idempotent operation identifier.
    pub operation_id: String,
}

impl StopTest {
    /// The fields of the message.
    pub open spec fn fields(self) -> Seq<WireField> {
        protobuf::bytes_field(1, self.session_id@)
            + protobuf::bytes_field(2, encode_utf8(self.operation_id@))
    }

    /// Whether the message is what the fields say.
    pub open spec fn is_read_from(self, fs: Seq<WireField>) -> bool {
        &&& self.session_id@ == protobuf::bytes_of(fs, 1)
        &&& self.operation_id@ == protobuf::text_of(fs, 2)
    }

    /// Whether two messages have the same content.
    pub open spec fn same(self, other: Self) -> bool {
        &&& self.session_id@ == other.session_id@
        &&& self.operation_id@ == other.operation_id@
    }

    /// Encodes the message.
    pub fn encode_to_vec(&self) -> (r: Vec<u8>)
        ensures
            r@ == protobuf::encoded(self.fields()),
    {
        broadcast use protobuf::lemma_encoded_concat;

        let mut out: Vec<u8> = Vec::new();
        put_bytes(&mut out, 1, self.session_id.as_slice());
        put_text(&mut out, 2, self.operation_id.as_str());
        out
    }

    pub(crate) fn from_fields(v: &[Field]) -> (r: Self)
        requires
            exists|depth: nat|
                schema::fields_fault(protobuf::field_views(v@), Shape::StopTest, depth) is None,
        ensures
            r.is_read_from(protobuf::field_views(v@)),
    {
        proof {
            let fs = protobuf::field_views(v@);
            let depth = choose|depth: nat|
                schema::fields_fault(fs, Shape::StopTest, depth) is None;
            schema::lemma_text_is_utf8(fs, 2, Shape::StopTest, depth);
        }
        StopTest {
            session_id: find_bytes(v, 1),
            operation_id: find_text(v, 2),
        }
    }

    /// What is read from the fields of a message has the content of that message.
    pub proof fn lemma_round_trip(self, other: Self, depth: nat)
        ensures
            other.is_read_from(self.fields()) <==> other.same(self),
            schema::fields_fault(self.fields(), Shape::StopTest, depth) is None,
            protobuf::all_writable(self.fields()),
    {
        broadcast use protobuf::group_last_value;
        broadcast use schema::group_fault;
        broadcast use protobuf::lemma_writable_concat;

        protobuf::lemma_no_bytes(self.session_id@);
        protobuf::lemma_text_bytes(self.operation_id@);
    }
}

/// Tells the state of a session.
#[derive(Clone, Debug, PartialEq)]
pub struct TestStatus {
    /// The session identifier.
    pub session_id: Vec<u8>,
    /// The stable state name.
    pub state: String,
}

impl TestStatus {
    /// The fields of the message.
    pub open spec fn fields(self) -> Seq<WireField> {
        protobuf::bytes_field(1, self.session_id@)
            + protobuf::bytes_field(2, encode_utf8(self.state@))
    }

    /// Whether the message is what the fields say.
    pub open spec fn is_read_from(self, fs: Seq<WireField>) -> bool {
        &&& self.session_id@ == protobuf::bytes_of(fs, 1)
        &&& self.state@ == protobuf::text_of(fs, 2)
    }

    /// Whether two messages have the same content.
    pub open spec fn same(self, other: Self) -> bool {
        &&& self.session_id@ == other.session_id@
        &&& self.state@ == other.state@
    }

    /// Encodes the message.
    pub fn encode_to_vec(&self) -> (r: Vec<u8>)
        ensures
            r@ == protobuf::encoded(self.fields()),
    {
        broadcast use protobuf::lemma_encoded_concat;

        let mut out: Vec<u8> = Vec::new();
        put_bytes(&mut out, 1, self.session_id.as_slice());
        put_text(&mut out, 2, self.state.as_str());
        out
    }

    pub(crate) fn from_fields(v: &[Field]) -> (r: Self)
        requires
            exists|depth: nat|
                schema::fields_fault(protobuf::field_views(v@), Shape::TestStatus, depth) is None,
        ensures
            r.is_read_from(protobuf::field_views(v@)),
    {
        proof {
            let fs = protobuf::field_views(v@);
            let depth = choose|depth: nat|
                schema::fields_fault(fs, Shape::TestStatus, depth) is None;
            schema::lemma_text_is_utf8(fs, 2, Shape::TestStatus, depth);
        }
        TestStatus {
            session_id: find_bytes(v, 1),
            state: find_text(v, 2),
        }
    }

    /// What is read from the fields of a message has the content of that message.
    pub proof fn lemma_round_trip(self, other: Self, depth: nat)
        ensures
            other.is_read_from(self.fields()) <==> other.same(self),
            schema::fields_fault(self.fields(), Shape::TestStatus, depth) is None,
            protobuf::all_writable(self.fields()),
    {
        broadcast use protobuf::group_last_value;
        broadcast use schema::group_fault;
        broadcast use protobuf::lemma_writable_concat;

        protobuf::lemma_no_bytes(self.session_id@);
        protobuf::lemma_text_bytes(self.state@);
    }
}

/// Asks for the final result of a session; may be repeated.
#[derive(Clone, Debug, PartialEq)]
pub struct TestResultRequest {
    /// The 128 bit session identifier.
    pub session_id: Vec<u8>,
}

impl TestResultRequest {
    /// The fields of the message.
    pub open spec fn fields(self) -> Seq<WireField> {
        protobuf::bytes_field(1, self.session_id@)
    }

    /// Whether the message is what the fields say.
    pub open spec fn is_read_from(self, fs: Seq<WireField>) -> bool {
        &&& self.session_id@ == protobuf::bytes_of(fs, 1)
    }

    /// Whether two messages have the same content.
    pub open spec fn same(self, other: Self) -> bool {
        &&& self.session_id@ == other.session_id@
    }

    /// Encodes the message.
    pub fn encode_to_vec(&self) -> (r: Vec<u8>)
        ensures
            r@ == protobuf::encoded(self.fields()),
    {
        broadcast use protobuf::lemma_encoded_concat;

        let mut out: Vec<u8> = Vec::new();
        put_bytes(&mut out, 1, self.session_id.as_slice());
        out
    }

    pub(crate) fn from_fields(v: &[Field]) -> (r: Self)
        requires
            exists|depth: nat|
                schema::fields_fault(protobuf::field_views(v@), Shape::TestResultRequest, depth) is None,
        ensures
            r.is_read_from(protobuf::field_views(v@)),
    {
        TestResultRequest {
            session_id: find_bytes(v, 1),
        }
    }

    /// What is read from the fields of a message has the content of that message.
    pub proof fn lemma_round_trip(self, other: Self, depth: nat)
        ensures
            other.is_read_from(self.fields()) <==> other.same(self),
            schema::fields_fault(self.fields(), Shape::TestResultRequest, depth) is None,
            protobuf::all_writable(self.fields()),
    {
        broadcast use protobuf::group_last_value;
        broadcast use schema::group_fault;
        broadcast use protobuf::lemma_writable_concat;

        protobuf::lemma_no_bytes(self.session_id@);
    }
}

/// The final result, in a JSON schema with its own version.
#[derive(Clone, Debug, PartialEq)]
pub struct TestResult {
    /// The session identifier.
    pub session_id: Vec<u8>,
    /// The JSON result.
    pub result_json: Vec<u8>,
    /// The checksum of result and environment.
    pub checksum: Vec<u8>,
}

impl TestResult {
    /// The fields of the message.
    pub open spec fn fields(self) -> Seq<WireField> {
        protobuf::bytes_field(1, self.session_id@)
            + protobuf::bytes_field(2, self.result_json@)
            + protobuf::bytes_field(3, self.checksum@)
    }

    /// Whether the message is what the fields say.
    pub open spec fn is_read_from(self, fs: Seq<WireField>) -> bool {
        &&& self.session_id@ == protobuf::bytes_of(fs, 1)
        &&& self.result_json@ == protobuf::bytes_of(fs, 2)
        &&& self.checksum@ == protobuf::bytes_of(fs, 3)
    }

    /// Whether two messages have the same content.
    pub open spec fn same(self, other: Self) -> bool {
        &&& self.session_id@ == other.session_id@
        &&& self.result_json@ == other.result_json@
        &&& self.checksum@ == other.checksum@
    }

    /// Encodes the message.
    pub fn encode_to_vec(&self) -> (r: Vec<u8>)
        ensures
            r@ == protobuf::encoded(self.fields()),
    {
        broadcast use protobuf::lemma_encoded_concat;

        let mut out: Vec<u8> = Vec::new();
        put_bytes(&mut out, 1, self.session_id.as_slice());
        put_bytes(&mut out, 2, self.result_json.as_slice());
        put_bytes(&mut out, 3, self.checksum.as_slice());
        out
    }

    pub(crate) fn from_fields(v: &[Field]) -> (r: Self)
        requires
            exists|depth: nat|
                schema::fields_fault(protobuf::field_views(v@), Shape::TestResult, depth) is None,
        ensures
            r.is_read_from(protobuf::field_views(v@)),
    {
        TestResult {
            session_id: find_bytes(v, 1),
            result_json: find_bytes(v, 2),
            checksum: find_bytes(v, 3),
        }
    }

    /// What is read from the fields of a message has the content of that message.
    pub proof fn lemma_round_trip(self, other: Self, depth: nat)
        ensures
            other.is_read_from(self.fields()) <==> other.same(self),
            schema::fields_fault(self.fields(), Shape::TestResult, depth) is None,
            protobuf::all_writable(self.fields()),
    {
        broadcast use protobuf::group_last_value;
        broadcast use schema::group_fault;
        broadcast use protobuf::lemma_writable_concat;

        protobuf::lemma_no_bytes(self.session_id@);
        protobuf::lemma_no_bytes(self.result_json@);
        protobuf::lemma_no_bytes(self.checksum@);
    }
}

/// Asks for a sign of life.
#[derive(Clone, Debug, PartialEq)]
pub struct Ping {
    /// An opaque number.
    pub nonce: u64,
}

impl Ping {
    /// The fields of the message.
    pub open spec fn fields(self) -> Seq<WireField> {
        protobuf::number_field(1, self.nonce)
    }

    /// Whether the message is what the fields say.
    pub open spec fn is_read_from(self, fs: Seq<WireField>) -> bool {
        &&& self.nonce == protobuf::number_of(fs, 1)
    }

    /// Whether two messages have the same content.
    pub open spec fn same(self, other: Self) -> bool {
        &&& self.nonce == other.nonce
    }

    /// Encodes the message.
    pub fn encode_to_vec(&self) -> (r: Vec<u8>)
        ensures
            r@ == protobuf::encoded(self.fields()),
    {
        broadcast use protobuf::lemma_encoded_concat;

        let mut out: Vec<u8> = Vec::new();
        put_number(&mut out, 1, self.nonce);
        out
    }

    pub(crate) fn from_fields(v: &[Field]) -> (r: Self)
        requires
            exists|depth: nat|
                schema::fields_fault(protobuf::field_views(v@), Shape::Ping, depth) is None,
        ensures
            r.is_read_from(protobuf::field_views(v@)),
    {
        Ping {
            nonce: find_number(v, 1),
        }
    }

    /// What is read from the fields of a message has the content of that message.
    pub proof fn lemma_round_trip(self, other: Self, depth: nat)
        ensures
            other.is_read_from(self.fields()) <==> other.same(self),
            schema::fields_fault(self.fields(), Shape::Ping, depth) is None,
            protobuf::all_writable(self.fields()),
    {
        broadcast use protobuf::group_last_value;
        broadcast use schema::group_fault;
        broadcast use protobuf::lemma_writable_concat;

    }
}

/// Answers a sign of life.
#[derive(Clone, Debug, PartialEq)]
pub struct Pong {
    /// The number of the request.
    pub nonce: u64,
}

impl Pong {
    /// The fields of the message.
    pub open spec fn fields(self) -> Seq<WireField> {
        protobuf::number_field(1, self.nonce)
    }

    /// Whether the message is what the fields say.
    pub open spec fn is_read_from(self, fs: Seq<WireField>) -> bool {
        &&& self.nonce == protobuf::number_of(fs, 1)
    }

    /// Whether two messages have the same content.
    pub open spec fn same(self, other: Self) -> bool {
        &&& self.nonce == other.nonce
    }

    /// Encodes the message.
    pub fn encode_to_vec(&self) -> (r: Vec<u8>)
        ensures
            r@ == protobuf::encoded(self.fields()),
    {
        broadcast use protobuf::lemma_encoded_concat;

        let mut out: Vec<u8> = Vec::new();
        put_number(&mut out, 1, self.nonce);
        out
    }

    pub(crate) fn from_fields(v: &[Field]) -> (r: Self)
        requires
            exists|depth: nat|
                schema::fields_fault(protobuf::field_views(v@), Shape::Pong, depth) is None,
        ensures
            r.is_read_from(protobuf::field_views(v@)),
    {
        Pong {
            nonce: find_number(v, 1),
        }
    }

    /// What is read from the fields of a message has the content of that message.
    pub proof fn lemma_round_trip(self, other: Self, depth: nat)
        ensures
            other.is_read_from(self.fields()) <==> other.same(self),
            schema::fields_fault(self.fields(), Shape::Pong, depth) is None,
            protobuf::all_writable(self.fields()),
    {
        broadcast use protobuf::group_last_value;
        broadcast use schema::group_fault;
        broadcast use protobuf::lemma_writable_concat;

    }
}

/// A stable control error.
#[derive(Clone, Debug, PartialEq)]
pub struct ProtocolError {
    /// The stable error code.
    pub code: String,
    /// A message for people.
    pub message: String,
    /// Whether a retry makes sense.
    pub retryable: bool,
}

impl ProtocolError {
    /// The fields of the message.
    pub open spec fn fields(self) -> Seq<WireField> {
        protobuf::bytes_field(1, encode_utf8(self.code@))
            + protobuf::bytes_field(2, encode_utf8(self.message@))
            + protobuf::number_field(3, protobuf::flag(self.retryable))
    }

    /// Whether the message is what the fields say.
    pub open spec fn is_read_from(self, fs: Seq<WireField>) -> bool {
        &&& self.code@ == protobuf::text_of(fs, 1)
        &&& self.message@ == protobuf::text_of(fs, 2)
        &&& self.retryable == (protobuf::number_of(fs, 3) != 0)
    }

    /// Whether two messages have the same content.
    pub open spec fn same(self, other: Self) -> bool {
        &&& self.code@ == other.code@
        &&& self.message@ == other.message@
        &&& self.retryable == other.retryable
    }

    /// Encodes the message.
    pub fn encode_to_vec(&self) -> (r: Vec<u8>)
        ensures
            r@ == protobuf::encoded(self.fields()),
    {
        broadcast use protobuf::lemma_encoded_concat;

        let mut out: Vec<u8> = Vec::new();
        put_text(&mut out, 1, self.code.as_str());
        put_text(&mut out, 2, self.message.as_str());
        put_flag(&mut out, 3, self.retryable);
        out
    }

    pub(crate) fn from_fields(v: &[Field]) -> (r: Self)
        requires
            exists|depth: nat|
                schema::fields_fault(protobuf::field_views(v@), Shape::ProtocolError, depth) is None,
        ensures
            r.is_read_from(protobuf::field_views(v@)),
    {
        proof {
            let fs = protobuf::field_views(v@);
            let depth = choose|depth: nat|
                schema::fields_fault(fs, Shape::ProtocolError, depth) is None;
            schema::lemma_text_is_utf8(fs, 1, Shape::ProtocolError, depth);
            schema::lemma_text_is_utf8(fs, 2, Shape::ProtocolError, depth);
        }
        ProtocolError {
            code: find_text(v, 1),
            message: find_text(v, 2),
            retryable: find_flag(v, 3),
        }
    }

    /// What is read from the fields of a message has the content of that message.
    pub proof fn lemma_round_trip(self, other: Self, depth: nat)
        ensures
            other.is_read_from(self.fields()) <==> other.same(self),
            schema::fields_fault(self.fields(), Shape::ProtocolError, depth) is None,
            protobuf::all_writable(self.fields()),
    {
        broadcast use protobuf::group_last_value;
        broadcast use schema::group_fault;
        broadcast use protobuf::lemma_writable_concat;

        protobuf::lemma_text_bytes(self.code@);
        protobuf::lemma_text_bytes(self.message@);
    }
}


/// Asks for the capabilities of a node.
#[derive(Clone, Debug, PartialEq)]
pub struct CapabilityRequest {}

impl CapabilityRequest {
    /// The fields of the message: none.
    pub open spec fn fields(self) -> Seq<WireField> {
        Seq::empty()
    }

    /// Encodes the message.
    pub fn encode_to_vec(&self) -> (r: Vec<u8>)
        ensures
            r@ == protobuf::encoded(self.fields()),
    {
        Vec::new()
    }
}

/// The capabilities that were found on a node.
#[derive(Clone, Debug, PartialEq)]
pub struct CapabilityResponse {
    /// The capabilities.
    pub capabilities: Vec<CapabilityMessage>,
}

/// The fields of a list of capabilities, one for each.
pub open spec fn capability_fields(list: Seq<CapabilityMessage>) -> Seq<WireField>
    decreases list.len(),
{
    if list.len() == 0 {
        Seq::empty()
    } else {
        capability_fields(list.drop_last()) + protobuf::message_field(
            1,
            protobuf::encoded(list.last().fields()),
        )
    }
}

impl CapabilityResponse {
    /// The fields of the message.
    pub open spec fn fields(self) -> Seq<WireField> {
        capability_fields(self.capabilities@)
    }

    /// Whether the message is what the fields say.
    pub open spec fn is_read_from(self, fs: Seq<WireField>) -> bool {
        let bodies = protobuf::all_bytes_of(fs, 1);
        &&& self.capabilities@.len() == bodies.len()
        &&& forall|i: int|
            0 <= i < bodies.len() ==> (#[trigger] self.capabilities@[i]).is_read_from(
                protobuf::fields(bodies[i], (NESTING_LIMIT - 2) as nat)->Ok_0,
            )
    }

    /// Whether two messages have the same content.
    pub open spec fn same(self, other: Self) -> bool {
        &&& self.capabilities@.len() == other.capabilities@.len()
        &&& forall|i: int|
            0 <= i < self.capabilities@.len() ==> (#[trigger] self.capabilities@[i]).same(
                other.capabilities@[i],
            )
    }

    /// Encodes the message.
    pub fn encode_to_vec(&self) -> (r: Vec<u8>)
        ensures
            r@ == protobuf::encoded(self.fields()),
    {
        let mut out: Vec<u8> = Vec::new();
        let mut i: usize = 0;
        while i < self.capabilities.len()
            invariant
                i <= self.capabilities@.len(),
                out@ == protobuf::encoded(capability_fields(self.capabilities@.take(i as int))),
            decreases self.capabilities@.len() - i,
        {
            let ghost list = self.capabilities@.take(i + 1);
            proof {
                assert(list.drop_last() == self.capabilities@.take(i as int));
                assert(list.last() == self.capabilities@[i as int]);
                protobuf::lemma_encoded_concat(
                    capability_fields(list.drop_last()),
                    protobuf::message_field(1, protobuf::encoded(list.last().fields())),
                );
            }
            let inner = self.capabilities[i].encode_to_vec();
            put_message(&mut out, 1, inner.as_slice());
            i += 1;
        }
        proof {
            assert(self.capabilities@.take(i as int) == self.capabilities@);
        }
        out
    }

    pub(crate) fn from_fields(v: &[Field]) -> (r: Self)
        requires
            schema::fields_fault(
                protobuf::field_views(v@),
                Shape::CapabilityResponse,
                (NESTING_LIMIT - 1) as nat,
            ) is None,
        ensures
            r.is_read_from(protobuf::field_views(v@)),
    {
        let ghost all = protobuf::field_views(v@);
        let mut list: Vec<CapabilityMessage> = Vec::new();
        let mut i: usize = 0;
        while i < v.len()
            invariant
                i <= v@.len(),
                all == protobuf::field_views(v@),
                schema::fields_fault(
                    all,
                    Shape::CapabilityResponse,
                    (NESTING_LIMIT - 1) as nat,
                ) is None,
                ({
                    let bodies = protobuf::all_bytes_of(all.take(i as int), 1);
                    &&& list@.len() == bodies.len()
                    &&& forall|j: int|
                        0 <= j < bodies.len() ==> (#[trigger] list@[j]).is_read_from(
                            protobuf::fields(bodies[j], (NESTING_LIMIT - 2) as nat)->Ok_0,
                        )
                }),
            decreases v@.len() - i,
        {
            let ghost prefix = all.take(i + 1);
            proof {
                assert(prefix.drop_last() == all.take(i as int));
                assert(prefix.last() == v@[i as int]@);
                if schema::fields_fault(
                    prefix,
                    Shape::CapabilityResponse,
                    (NESTING_LIMIT - 1) as nat,
                ) is Some {
                    schema::lemma_fault_of_prefix(
                        all,
                        i + 1,
                        Shape::CapabilityResponse,
                        (NESTING_LIMIT - 1) as nat,
                    );
                }
            }
            if v[i].tag == 1 {
                match &v[i].value {
                    FieldValue::Bytes(b) => {
                        proof {
                            assert(schema::message_fault(
                                b@,
                                Shape::CapabilityMessage,
                                (NESTING_LIMIT - 2) as nat,
                            ) is None);
                        }
                        match read_fields(b.as_slice(), NESTING_LIMIT - 2) {
                            Ok(inner) => {
                                proof {
                                    assert(schema::fields_fault(
                                        protobuf::field_views(inner@),
                                        Shape::CapabilityMessage,
                                        (NESTING_LIMIT - 2) as nat,
                                    ) is None);
                                }
                                list.push(CapabilityMessage::from_fields(inner.as_slice()));
                            },
                            Err(_) => {},
                        }
                    },
                    _ => {},
                }
            }
            i += 1;
        }
        proof {
            assert(all.take(i as int) == all);
        }
        CapabilityResponse { capabilities: list }
    }

    /// What is read from the fields of a message has the content of that message.
    pub proof fn lemma_round_trip(self, other: Self)
        requires
            protobuf::encoded(self.fields()).len() <= u64::MAX,
        ensures
            other.is_read_from(self.fields()) <==> other.same(self),
            schema::fields_fault(
                self.fields(),
                Shape::CapabilityResponse,
                (NESTING_LIMIT - 1) as nat,
            ) is None,
            protobuf::all_writable(self.fields()),
    {
        let list = self.capabilities@;
        lemma_capability_fields(list);
        let below = (NESTING_LIMIT - 2) as nat;
        let bodies = protobuf::all_bytes_of(self.fields(), 1);
        assert forall|i: int| 0 <= i < list.len() && i < other.capabilities@.len() implies (
        #[trigger] other.capabilities@[i]).is_read_from(protobuf::fields(bodies[i], below)->Ok_0)
            == other.capabilities@[i].same(list[i]) by {
            assert(bodies[i] == protobuf::encoded(list[i].fields()));
            list[i].lemma_round_trip(other.capabilities@[i], below);
            protobuf::lemma_fields_round_trip(list[i].fields(), below);
        }
        if other.is_read_from(self.fields()) {
            assert(other.same(self));
        }
        if other.same(self) {
            assert(other.is_read_from(self.fields()));
        }
    }
}

/// The fields of a list of capabilities hold the encoded capabilities in order.
proof fn lemma_capability_fields(list: Seq<CapabilityMessage>)
    requires
        protobuf::encoded(capability_fields(list)).len() <= u64::MAX,
    ensures
        ({
            let fs = capability_fields(list);
            &&& protobuf::all_bytes_of(fs, 1).len() == list.len()
            &&& forall|i: int|
                #![trigger protobuf::all_bytes_of(fs, 1)[i]]
                0 <= i < list.len() ==> protobuf::all_bytes_of(fs, 1)[i] == protobuf::encoded(
                    list[i].fields(),
                ) && protobuf::encoded(list[i].fields()).len() <= u64::MAX
            &&& schema::fields_fault(
                fs,
                Shape::CapabilityResponse,
                (NESTING_LIMIT - 1) as nat,
            ) is None
            &&& protobuf::all_writable(fs)
        }),
    decreases list.len(),
{
    if list.len() > 0 {
        let before = list.drop_last();
        let head = capability_fields(before);
        let body = protobuf::encoded(list.last().fields());
        let last = protobuf::message_field(1, body);
        let fs = head + last;
        assert(fs == capability_fields(list));
        protobuf::lemma_encoded_concat(head, last);
        protobuf::lemma_message_len(1, body);
        lemma_capability_fields(before);
        assert(fs.drop_last() == head);
        assert(fs.last() == WireField { tag: 1, value: protobuf::WireValue::Bytes(body) });
        let below = (NESTING_LIMIT - 2) as nat;
        list.last().lemma_round_trip(list.last(), below);
        protobuf::lemma_fields_round_trip(list.last().fields(), below);
        assert(schema::message_fault(body, Shape::CapabilityMessage, below) is None);
        schema::lemma_fault_message(
            1,
            body,
            Shape::CapabilityResponse,
            (NESTING_LIMIT - 1) as nat,
        );
        schema::lemma_fault_concat(
            head,
            last,
            Shape::CapabilityResponse,
            (NESTING_LIMIT - 1) as nat,
        );
        protobuf::lemma_writable_concat(head, last);
        assert forall|i: int|
            #![trigger protobuf::all_bytes_of(fs, 1)[i]]
            0 <= i < list.len() implies protobuf::all_bytes_of(fs, 1)[i] == protobuf::encoded(
            list[i].fields(),
        ) && protobuf::encoded(list[i].fields()).len() <= u64::MAX by {
            if i < before.len() {
                assert(protobuf::all_bytes_of(fs, 1)[i] == protobuf::all_bytes_of(head, 1)[i]);
                assert(before[i] == list[i]);
            }
        }
    }
}

impl Envelope {
    /// The fields of the message before its variant.
    pub open spec fn head(self) -> Seq<WireField> {
        protobuf::number_field(1, self.protocol_major as u64) + protobuf::number_field(
            2,
            self.protocol_minor as u64,
        ) + protobuf::bytes_field(3, self.request_id@)
    }

    /// The fields of the message.
    pub open spec fn fields(self) -> Seq<WireField> {
        match self.message {
            None => self.head(),
            Some(m) => self.head() + protobuf::message_field(
                m.tag(),
                protobuf::encoded(m.fields()),
            ),
        }
    }

    /// Whether the message is what the fields say.
    pub open spec fn is_read_from(self, fs: Seq<WireField>) -> bool {
        let tag = schema::variant_tag(fs, Shape::Envelope);
        let inner = schema::variant_fields(fs, Shape::Envelope, (NESTING_LIMIT - 1) as nat);
        &&& self.protocol_major == protobuf::small_number_of(fs, 1)
        &&& self.protocol_minor == protobuf::small_number_of(fs, 2)
        &&& self.request_id@ == protobuf::bytes_of(fs, 3)
        &&& match self.message {
            None => tag == 0,
            Some(m) => m.is_read_from(tag, inner),
        }
    }

    /// Whether two messages have the same content.
    pub open spec fn same(self, other: Self) -> bool {
        &&& self.protocol_major == other.protocol_major
        &&& self.protocol_minor == other.protocol_minor
        &&& self.request_id@ == other.request_id@
        &&& match (self.message, other.message) {
            (None, None) => true,
            (Some(a), Some(b)) => a.same(b),
            _ => false,
        }
    }

    /// Encodes the message.
    pub fn encode_to_vec(&self) -> (r: Vec<u8>)
        ensures
            r@ == protobuf::encoded(self.fields()),
    {
        broadcast use protobuf::lemma_encoded_concat;

        let mut out: Vec<u8> = Vec::new();
        put_number(&mut out, 1, self.protocol_major as u64);
        put_number(&mut out, 2, self.protocol_minor as u64);
        put_bytes(&mut out, 3, self.request_id.as_slice());
        match &self.message {
            None => {},
            Some(m) => {
                let inner = m.encode_to_vec();
                put_message(&mut out, m.tag_of(), inner.as_slice());
            },
        }
        out
    }

    /// Decodes a message. Unknown fields are passed over, and of repeated fields the last
    /// one counts.
    pub fn decode(bytes: &[u8]) -> (r: Result<Self, WireFault>)
        ensures
            match r {
                Ok(m) => {
                    &&& schema::message_fault(
                        bytes@,
                        Shape::Envelope,
                        NESTING_LIMIT as nat,
                    ) is None
                    &&& m.is_read_from(protobuf::fields(bytes@, NESTING_LIMIT as nat)->Ok_0)
                },
                Err(fault) => schema::message_fault(
                    bytes@,
                    Shape::Envelope,
                    NESTING_LIMIT as nat,
                ) == Some(fault),
            },
    {
        match find_message_fault(bytes, Shape::Envelope, NESTING_LIMIT) {
            Some(fault) => {
                return Err(fault);
            },
            None => {},
        }
        match read_fields(bytes, NESTING_LIMIT) {
            Err(fault) => Err(fault),
            Ok(v) => {
                let ghost fs = protobuf::field_views(v@);
                proof {
                    schema::lemma_variant_sound(fs, Shape::Envelope, NESTING_LIMIT as nat);
                }
                let (tag, inner) = read_variant(v.as_slice(), Shape::Envelope, NESTING_LIMIT);
                let message = envelope::ControlMessage::read(tag, inner.as_slice());
                Ok(
                    Envelope {
                        protocol_major: find_small_number(v.as_slice(), 1),
                        protocol_minor: find_small_number(v.as_slice(), 2),
                        request_id: find_bytes(v.as_slice(), 3),
                        message,
                    },
                )
            },
        }
    }

    proof fn lemma_head(self, depth: nat)
        ensures
            schema::fields_fault(self.head(), Shape::Envelope, depth) is None,
            protobuf::all_writable(self.head()),
            schema::variant_tag(self.head(), Shape::Envelope) == 0,
            protobuf::small_number_of(self.head(), 1) == self.protocol_major,
            protobuf::small_number_of(self.head(), 2) == self.protocol_minor,
            protobuf::bytes_of(self.head(), 3) == self.request_id@,
    {
        broadcast use protobuf::group_last_value;
        broadcast use schema::group_fault;
        broadcast use protobuf::lemma_writable_concat;

        protobuf::lemma_no_bytes(self.request_id@);
        let head = self.head();
        assert(forall|i: int| 0 <= i < head.len() ==> 1 <= #[trigger] head[i].tag <= 3);
        schema::lemma_no_variant(head, Shape::Envelope);
    }

    /// Decoding an encoded envelope succeeds, and gives an envelope with the same content.
    pub proof fn lemma_round_trip(self, other: Self)
        requires
            protobuf::encoded(self.fields()).len() <= u64::MAX,
        ensures
            schema::message_fault(
                protobuf::encoded(self.fields()),
                Shape::Envelope,
                NESTING_LIMIT as nat,
            ) is None,
            protobuf::fields(protobuf::encoded(self.fields()), NESTING_LIMIT as nat) == Ok::<
                _,
                WireFault,
            >(self.fields()),
            other.is_read_from(self.fields()) <==> other.same(self),
    {
        let shape = Shape::Envelope;
        let depth = NESTING_LIMIT as nat;
        self.lemma_head(depth);
        match self.message {
            None => {
                schema::lemma_plain_round_trip(self.head(), shape, depth);
                if let Some(p) = other.message {
                    assert(!p.is_read_from(
                        0,
                        schema::variant_fields(self.head(), shape, (NESTING_LIMIT - 1) as nat),
                    ));
                }
            },
            Some(m) => {
                let body = protobuf::encoded(m.fields());
                let last = protobuf::message_field(m.tag(), body);
                protobuf::lemma_encoded_concat(self.head(), last);
                protobuf::lemma_message_len(m.tag(), body);
                m.lemma_sound();
                if let Some(p) = other.message {
                    m.lemma_round_trip(p);
                }
                schema::lemma_variant_round_trip(
                    self.head(),
                    m.tag(),
                    m.fields(),
                    shape,
                    depth,
                );
            },
        }
    }
}

} // verus!
