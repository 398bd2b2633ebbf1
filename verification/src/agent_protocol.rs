//! The agent protocol: Protocol Buffers messages behind a 32 bit length.

use crate::octets;
use crate::octets::{push_be32, push_bytes};
use crate::protobuf;
use crate::protobuf::{
    find_bytes, find_flag, find_small_number, find_text, put_bytes, put_flag, put_message,
    put_number, put_text, read_fields, Field, WireField, NESTING_LIMIT,
};
use crate::schema;
use crate::schema::{describe_fault, find_message_fault, read_variant, Shape};
use crate::text::decimal_text;
use vstd::prelude::*;
use vstd::utf8::*;

pub mod agent_envelope;

verus! {

/// The supported major version of the agent protocol.
pub const PROTOCOL_MAJOR: u32 = 1;

/// The supported minor version of the agent protocol.
pub const PROTOCOL_MINOR: u32 = 0;

/// The largest payload of a frame, so that a local client cannot exhaust memory.
pub const MAX_FRAME_BYTES: usize = 1024 * 1024;

/// The envelope of every agent message.
#[derive(Clone, Debug, PartialEq)]
pub struct AgentEnvelope {
    /// The major version of the sender.
    pub protocol_major: u32,
    /// The minor version of the sender.
    pub protocol_minor: u32,
    /// The identifier that the caller gave the request.
    pub request_id: String,
    /// What the envelope carries.
    pub payload: Option<agent_envelope::Payload>,
}

/// A request to run an action.
#[derive(Clone, Debug, PartialEq)]
pub struct ActionRequest {
    /// The registered name of the action.
    pub action: String,
    /// The JSON parameters.
    pub payload_json: Vec<u8>,
    /// The identifier that makes a repeated request idempotent; empty where there is none.
    pub operation_id: String,
    /// Whether only a plan is wanted.
    pub dry_run: bool,
}

/// The answer to a request.
#[derive(Clone, Debug, PartialEq)]
pub struct ActionResponse {
    /// Whether the action succeeded.
    pub success: bool,
    /// The JSON result.
    pub data_json: Vec<u8>,
    /// The error code; empty on success.
    pub error_code: String,
    /// The error message for people.
    pub error_message: String,
    /// Whether a retry makes sense.
    pub retryable: bool,
}

impl ActionRequest {
    /// The fields of the message.
    pub open spec fn fields(self) -> Seq<WireField> {
        protobuf::bytes_field(1, encode_utf8(self.action@))
            + protobuf::bytes_field(2, self.payload_json@)
            + protobuf::bytes_field(3, encode_utf8(self.operation_id@))
            + protobuf::number_field(4, protobuf::flag(self.dry_run))
    }

    /// Whether the message is what the fields say.
    pub open spec fn is_read_from(self, fs: Seq<WireField>) -> bool {
        &&& self.action@ == protobuf::text_of(fs, 1)
        &&& self.payload_json@ == protobuf::bytes_of(fs, 2)
        &&& self.operation_id@ == protobuf::text_of(fs, 3)
        &&& self.dry_run == (protobuf::number_of(fs, 4) != 0)
    }

    /// Whether two messages have the same content.
    pub open spec fn same(self, other: Self) -> bool {
        &&& self.action@ == other.action@
        &&& self.payload_json@ == other.payload_json@
        &&& self.operation_id@ == other.operation_id@
        &&& self.dry_run == other.dry_run
    }

    /// Encodes the message.
    pub fn encode_to_vec(&self) -> (r: Vec<u8>)
        ensures
            r@ == protobuf::encoded(self.fields()),
    {
        broadcast use protobuf::lemma_encoded_concat;

        let mut out: Vec<u8> = Vec::new();
        put_text(&mut out, 1, self.action.as_str());
        put_bytes(&mut out, 2, self.payload_json.as_slice());
        put_text(&mut out, 3, self.operation_id.as_str());
        put_flag(&mut out, 4, self.dry_run);
        out
    }

    pub(crate) fn from_fields(v: &[Field]) -> (r: Self)
        requires
            exists|depth: nat|
                schema::fields_fault(protobuf::field_views(v@), Shape::ActionRequest, depth) is None,
        ensures
            r.is_read_from(protobuf::field_views(v@)),
    {
        proof {
            let fs = protobuf::field_views(v@);
            let depth = choose|depth: nat|
                schema::fields_fault(fs, Shape::ActionRequest, depth) is None;
            schema::lemma_text_is_utf8(fs, 1, Shape::ActionRequest, depth);
            schema::lemma_text_is_utf8(fs, 3, Shape::ActionRequest, depth);
        }
        ActionRequest {
            action: find_text(v, 1),
            payload_json: find_bytes(v, 2),
            operation_id: find_text(v, 3),
            dry_run: find_flag(v, 4),
        }
    }

    /// What is read from the fields of a message has the content of that message.
    pub proof fn lemma_round_trip(self, other: Self, depth: nat)
        ensures
            other.is_read_from(self.fields()) <==> other.same(self),
            schema::fields_fault(self.fields(), Shape::ActionRequest, depth) is None,
            protobuf::all_writable(self.fields()),
    {
        broadcast use protobuf::group_last_value;
        broadcast use schema::group_fault;
        broadcast use protobuf::lemma_writable_concat;

        protobuf::lemma_text_bytes(self.action@);
        protobuf::lemma_no_bytes(self.payload_json@);
        protobuf::lemma_text_bytes(self.operation_id@);
    }
}

impl ActionResponse {
    /// The fields of the message.
    pub open spec fn fields(self) -> Seq<WireField> {
        protobuf::number_field(1, protobuf::flag(self.success))
            + protobuf::bytes_field(2, self.data_json@)
            + protobuf::bytes_field(3, encode_utf8(self.error_code@))
            + protobuf::bytes_field(4, encode_utf8(self.error_message@))
            + protobuf::number_field(5, protobuf::flag(self.retryable))
    }

    /// Whether the message is what the fields say.
    pub open spec fn is_read_from(self, fs: Seq<WireField>) -> bool {
        &&& self.success == (protobuf::number_of(fs, 1) != 0)
        &&& self.data_json@ == protobuf::bytes_of(fs, 2)
        &&& self.error_code@ == protobuf::text_of(fs, 3)
        &&& self.error_message@ == protobuf::text_of(fs, 4)
        &&& self.retryable == (protobuf::number_of(fs, 5) != 0)
    }

    /// Whether two messages have the same content.
    pub open spec fn same(self, other: Self) -> bool {
        &&& self.success == other.success
        &&& self.data_json@ == other.data_json@
        &&& self.error_code@ == other.error_code@
        &&& self.error_message@ == other.error_message@
        &&& self.retryable == other.retryable
    }

    /// Encodes the message.
    pub fn encode_to_vec(&self) -> (r: Vec<u8>)
        ensures
            r@ == protobuf::encoded(self.fields()),
    {
        broadcast use protobuf::lemma_encoded_concat;

        let mut out: Vec<u8> = Vec::new();
        put_flag(&mut out, 1, self.success);
        put_bytes(&mut out, 2, self.data_json.as_slice());
        put_text(&mut out, 3, self.error_code.as_str());
        put_text(&mut out, 4, self.error_message.as_str());
        put_flag(&mut out, 5, self.retryable);
        out
    }

    pub(crate) fn from_fields(v: &[Field]) -> (r: Self)
        requires
            exists|depth: nat|
                schema::fields_fault(protobuf::field_views(v@), Shape::ActionResponse, depth) is None,
        ensures
            r.is_read_from(protobuf::field_views(v@)),
    {
        proof {
            let fs = protobuf::field_views(v@);
            let depth = choose|depth: nat|
                schema::fields_fault(fs, Shape::ActionResponse, depth) is None;
            schema::lemma_text_is_utf8(fs, 3, Shape::ActionResponse, depth);
            schema::lemma_text_is_utf8(fs, 4, Shape::ActionResponse, depth);
        }
        ActionResponse {
            success: find_flag(v, 1),
            data_json: find_bytes(v, 2),
            error_code: find_text(v, 3),
            error_message: find_text(v, 4),
            retryable: find_flag(v, 5),
        }
    }

    /// What is read from the fields of a message has the content of that message.
    pub proof fn lemma_round_trip(self, other: Self, depth: nat)
        ensures
            other.is_read_from(self.fields()) <==> other.same(self),
            schema::fields_fault(self.fields(), Shape::ActionResponse, depth) is None,
            protobuf::all_writable(self.fields()),
    {
        broadcast use protobuf::group_last_value;
        broadcast use schema::group_fault;
        broadcast use protobuf::lemma_writable_concat;

        protobuf::lemma_no_bytes(self.data_json@);
        protobuf::lemma_text_bytes(self.error_code@);
        protobuf::lemma_text_bytes(self.error_message@);
    }
}


impl AgentEnvelope {
    /// The fields of the message before its payload.
    pub open spec fn head(self) -> Seq<WireField> {
        protobuf::number_field(1, self.protocol_major as u64) + protobuf::number_field(
            2,
            self.protocol_minor as u64,
        ) + protobuf::bytes_field(3, encode_utf8(self.request_id@))
    }

    /// The fields of the message.
    pub open spec fn fields(self) -> Seq<WireField> {
        match self.payload {
            None => self.head(),
            Some(agent_envelope::Payload::Request(q)) => self.head() + protobuf::message_field(
                10,
                protobuf::encoded(q.fields()),
            ),
            Some(agent_envelope::Payload::Response(q)) => self.head() + protobuf::message_field(
                11,
                protobuf::encoded(q.fields()),
            ),
        }
    }

    /// Whether the message is what the fields say.
    pub open spec fn is_read_from(self, fs: Seq<WireField>) -> bool {
        let inner = schema::variant_fields(fs, Shape::AgentEnvelope, (NESTING_LIMIT - 1) as nat);
        &&& self.protocol_major == protobuf::small_number_of(fs, 1)
        &&& self.protocol_minor == protobuf::small_number_of(fs, 2)
        &&& self.request_id@ == protobuf::text_of(fs, 3)
        &&& match schema::variant_tag(fs, Shape::AgentEnvelope) {
            10 => self.payload matches Some(agent_envelope::Payload::Request(q))
                && q.is_read_from(inner),
            11 => self.payload matches Some(agent_envelope::Payload::Response(q))
                && q.is_read_from(inner),
            _ => self.payload is None,
        }
    }

    /// Whether two messages have the same content.
    pub open spec fn same(self, other: Self) -> bool {
        &&& self.protocol_major == other.protocol_major
        &&& self.protocol_minor == other.protocol_minor
        &&& self.request_id@ == other.request_id@
        &&& match (self.payload, other.payload) {
            (None, None) => true,
            (
                Some(agent_envelope::Payload::Request(a)),
                Some(agent_envelope::Payload::Request(b)),
            ) => a.same(b),
            (
                Some(agent_envelope::Payload::Response(a)),
                Some(agent_envelope::Payload::Response(b)),
            ) => a.same(b),
            _ => false,
        }
    }

    /// Encodes the message.
    pub fn encode_to_vec(&self) -> (r: Vec<u8>)
        ensures
            r@ == protobuf::encoded(self.fields()),
    {
        broadcast use protobuf::lemma_encoded_concat;

        let mut out: Vec<u8> = Vec::new();
        put_number(&mut out, 1, self.protocol_major as u64);
        put_number(&mut out, 2, self.protocol_minor as u64);
        put_text(&mut out, 3, self.request_id.as_str());
        match &self.payload {
            None => {},
            Some(agent_envelope::Payload::Request(q)) => {
                let inner = q.encode_to_vec();
                put_message(&mut out, 10, inner.as_slice());
            },
            Some(agent_envelope::Payload::Response(q)) => {
                let inner = q.encode_to_vec();
                put_message(&mut out, 11, inner.as_slice());
            },
        }
        out
    }

    /// Decodes a message. Unknown fields are passed over, and of repeated fields the last
    /// one counts.
    pub fn decode(bytes: &[u8]) -> (r: Result<Self, protobuf::WireFault>)
        ensures
            match r {
                Ok(m) => {
                    &&& schema::message_fault(
                        bytes@,
                        Shape::AgentEnvelope,
                        NESTING_LIMIT as nat,
                    ) is None
                    &&& m.is_read_from(protobuf::fields(bytes@, NESTING_LIMIT as nat)->Ok_0)
                },
                Err(fault) => schema::message_fault(
                    bytes@,
                    Shape::AgentEnvelope,
                    NESTING_LIMIT as nat,
                ) == Some(fault),
            },
    {
        match find_message_fault(bytes, Shape::AgentEnvelope, NESTING_LIMIT) {
            Some(fault) => {
                return Err(fault);
            },
            None => {},
        }
        match read_fields(bytes, NESTING_LIMIT) {
            Err(fault) => Err(fault),
            Ok(v) => {
                let ghost fs = protobuf::field_views(v@);
                proof {
                    schema::lemma_text_is_utf8(
                        fs,
                        3,
                        Shape::AgentEnvelope,
                        NESTING_LIMIT as nat,
                    );
                    schema::lemma_variant_sound(fs, Shape::AgentEnvelope, NESTING_LIMIT as nat);
                }
                let (tag, inner) = read_variant(v.as_slice(), Shape::AgentEnvelope, NESTING_LIMIT);
                let payload = if tag == 10 {
                    Some(agent_envelope::Payload::Request(ActionRequest::from_fields(
                        inner.as_slice(),
                    )))
                } else if tag == 11 {
                    Some(agent_envelope::Payload::Response(ActionResponse::from_fields(
                        inner.as_slice(),
                    )))
                } else {
                    None
                };
                Ok(
                    AgentEnvelope {
                        protocol_major: find_small_number(v.as_slice(), 1),
                        protocol_minor: find_small_number(v.as_slice(), 2),
                        request_id: find_text(v.as_slice(), 3),
                        payload,
                    },
                )
            },
        }
    }

    /// Decoding an encoded envelope succeeds, and gives an envelope with the same content.
    pub proof fn lemma_round_trip(self, other: Self)
        requires
            protobuf::encoded(self.fields()).len() <= u64::MAX,
        ensures
            schema::message_fault(
                protobuf::encoded(self.fields()),
                Shape::AgentEnvelope,
                NESTING_LIMIT as nat,
            ) is None,
            protobuf::fields(protobuf::encoded(self.fields()), NESTING_LIMIT as nat) == Ok::<
                _,
                protobuf::WireFault,
            >(self.fields()),
            other.is_read_from(self.fields()) <==> other.same(self),
    {
        let shape = Shape::AgentEnvelope;
        let depth = NESTING_LIMIT as nat;
        let below = (NESTING_LIMIT - 1) as nat;
        self.lemma_head(depth);
        match self.payload {
            None => {
                schema::lemma_plain_round_trip(self.head(), shape, depth);
            },
            Some(agent_envelope::Payload::Request(q)) => {
                match other.payload {
                    Some(agent_envelope::Payload::Request(p)) => {
                        q.lemma_round_trip(p, below);
                    },
                    _ => {
                        q.lemma_round_trip(q, below);
                    },
                }
                schema::lemma_variant_round_trip(self.head(), 10, q.fields(), shape, depth);
            },
            Some(agent_envelope::Payload::Response(q)) => {
                match other.payload {
                    Some(agent_envelope::Payload::Response(p)) => {
                        q.lemma_round_trip(p, below);
                    },
                    _ => {
                        q.lemma_round_trip(q, below);
                    },
                }
                schema::lemma_variant_round_trip(self.head(), 11, q.fields(), shape, depth);
            },
        }
    }

    proof fn lemma_head(self, depth: nat)
        ensures
            schema::fields_fault(self.head(), Shape::AgentEnvelope, depth) is None,
            protobuf::all_writable(self.head()),
            schema::variant_tag(self.head(), Shape::AgentEnvelope) == 0,
            protobuf::small_number_of(self.head(), 1) == self.protocol_major,
            protobuf::small_number_of(self.head(), 2) == self.protocol_minor,
            protobuf::text_of(self.head(), 3) == self.request_id@,
    {
        broadcast use protobuf::group_last_value;
        broadcast use schema::group_fault;
        broadcast use protobuf::lemma_writable_concat;

        protobuf::lemma_text_bytes(self.request_id@);
        let head = self.head();
        assert(forall|i: int| 0 <= i < head.len() ==> 1 <= #[trigger] head[i].tag <= 3);
        schema::lemma_no_variant(head, Shape::AgentEnvelope);
    }
}

/// Encodes an envelope as a frame: the length of the payload in four bytes, most significant
/// first, and the payload.
///
/// # Errors
///
/// Fails when the payload exceeds [`MAX_FRAME_BYTES`].
pub fn encode_frame(envelope: &AgentEnvelope) -> (r: Result<Vec<u8>, String>)
    ensures
        ({
            let payload = protobuf::encoded(envelope.fields());
            match r {
                Ok(frame) => payload.len() <= MAX_FRAME_BYTES && frame@ == octets::be32(
                    payload.len() as u32,
                ) + payload,
                Err(message) => payload.len() > MAX_FRAME_BYTES && message@
                    == "agent frame exceeds maximum size"@,
            }
        }),
{
    let payload = envelope.encode_to_vec();
    if payload.len() > MAX_FRAME_BYTES {
        return Err("agent frame exceeds maximum size".to_owned());
    }
    let mut frame: Vec<u8> = Vec::new();
    push_be32(&mut frame, payload.len() as u32);
    push_bytes(&mut frame, payload.as_slice());
    Ok(frame)
}

/// Decodes a payload, without the length before it.
///
/// # Errors
///
/// Fails when the payload is too large, is no valid message or has another major version.
pub fn decode_payload(payload: &[u8]) -> (r: Result<AgentEnvelope, String>)
    ensures
        ({
            let fault = schema::message_fault(
                payload@,
                Shape::AgentEnvelope,
                NESTING_LIMIT as nat,
            );
            let fs = protobuf::fields(payload@, NESTING_LIMIT as nat)->Ok_0;
            match r {
                Ok(envelope) => {
                    &&& payload@.len() <= MAX_FRAME_BYTES
                    &&& fault is None
                    &&& envelope.is_read_from(fs)
                    &&& envelope.protocol_major == PROTOCOL_MAJOR
                },
                Err(message) => if payload@.len() > MAX_FRAME_BYTES {
                    message@ == "agent frame exceeds maximum size"@
                } else if fault is Some {
                    message@ == "invalid agent protobuf: "@ + schema::fault_text(fault->0)
                } else {
                    &&& protobuf::small_number_of(fs, 1) != PROTOCOL_MAJOR
                    &&& message@ == "unsupported agent protocol major: "@ + crate::text::decimal(
                        protobuf::small_number_of(fs, 1) as nat,
                    )
                },
            }
        }),
{
    if payload.len() > MAX_FRAME_BYTES {
        return Err("agent frame exceeds maximum size".to_owned());
    }
    match AgentEnvelope::decode(payload) {
        Err(fault) => {
            let mut message = "invalid agent protobuf: ".to_owned();
            message.append(describe_fault(fault).as_str());
            Err(message)
        },
        Ok(envelope) => {
            if envelope.protocol_major != PROTOCOL_MAJOR {
                let mut message = "unsupported agent protocol major: ".to_owned();
                message.append(decimal_text(envelope.protocol_major as u64).as_str());
                Err(message)
            } else {
                Ok(envelope)
            }
        },
    }
}

/// A frame carries its envelope: the length before the payload is that of the payload, and
/// decoding the payload of an envelope of the supported version gives the same content back.
pub proof fn law_frame_round_trip(envelope: AgentEnvelope, frame: Seq<u8>, decoded: AgentEnvelope)
    requires
        protobuf::encoded(envelope.fields()).len() <= MAX_FRAME_BYTES,
        frame == octets::be32(protobuf::encoded(envelope.fields()).len() as u32)
            + protobuf::encoded(envelope.fields()),
    ensures
        octets::be_value(frame.take(4)) == frame.skip(4).len(),
        schema::message_fault(
            frame.skip(4),
            Shape::AgentEnvelope,
            NESTING_LIMIT as nat,
        ) is None,
        decoded.is_read_from(protobuf::fields(frame.skip(4), NESTING_LIMIT as nat)->Ok_0)
            <==> decoded.same(envelope),
        protobuf::small_number_of(
            protobuf::fields(frame.skip(4), NESTING_LIMIT as nat)->Ok_0,
            1,
        ) == envelope.protocol_major,
{
    let payload = protobuf::encoded(envelope.fields());
    assert(frame.take(4) == octets::be32(payload.len() as u32));
    assert(frame.skip(4) == payload);
    octets::lemma_be32_round_trip(payload.len() as u32);
    envelope.lemma_round_trip(decoded);
    envelope.lemma_round_trip(envelope);
}

} // verus!
