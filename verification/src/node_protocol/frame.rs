//! Control frames: a fixed header of twelve bytes and an encoded envelope.

use crate::error::{ErrorCode, NetToolError};
use crate::node_protocol::wire::Envelope;
use crate::octets;
use crate::octets::{push_be32, push_bytes, read_be32};
use crate::protobuf;
use crate::protobuf::NESTING_LIMIT;
use crate::schema;
use crate::schema::{describe_fault, Shape};
use vstd::prelude::*;

verus! {

/// The version of the framing.
pub const FRAMING_VERSION: u8 = 1;

/// The size of the header.
pub const CONTROL_HEADER_BYTES: usize = 12;

/// The largest payload: one mebibyte.
pub const MAX_CONTROL_PAYLOAD_BYTES: usize = 1024 * 1024;

/// The four bytes that begin every frame.
pub open spec fn magic() -> Seq<u8> {
    seq![0x4eu8, 0x54u8, 0x43u8, 0x50u8]
}

/// The header before a payload of a given length.
pub open spec fn header(length: u32) -> Seq<u8> {
    magic() + seq![FRAMING_VERSION, 0u8, 0u8, 0u8] + octets::be32(length)
}

/// Encodes an envelope as a frame.
///
/// # Errors
///
/// Fails when the encoded envelope exceeds one mebibyte.
pub fn encode_frame(envelope: &Envelope) -> (r: Result<Vec<u8>, NetToolError>)
    ensures
        ({
            let payload = protobuf::encoded(envelope.fields());
            match r {
                Ok(frame) => payload.len() <= MAX_CONTROL_PAYLOAD_BYTES && frame@ == header(
                    payload.len() as u32,
                ) + payload,
                Err(e) => payload.len() > MAX_CONTROL_PAYLOAD_BYTES && e.is(
                    ErrorCode::ControlFrameTooLarge,
                    "control payload exceeds 1 MiB"@,
                    false,
                ),
            }
        }),
{
    let payload = envelope.encode_to_vec();
    if payload.len() > MAX_CONTROL_PAYLOAD_BYTES {
        return Err(frame_error(ErrorCode::ControlFrameTooLarge, "control payload exceeds 1 MiB"));
    }
    let mut frame: Vec<u8> = Vec::new();
    frame.push(0x4e);
    frame.push(0x54);
    frame.push(0x43);
    frame.push(0x50);
    frame.push(FRAMING_VERSION);
    frame.push(0);
    frame.push(0);
    frame.push(0);
    proof {
        assert(frame@ == magic() + seq![FRAMING_VERSION, 0u8, 0u8, 0u8]);
    }
    push_be32(&mut frame, payload.len() as u32);
    push_bytes(&mut frame, payload.as_slice());
    Ok(frame)
}

/// What is wrong with the header of a frame: the error code and message, in the order in
/// which the header is checked.
pub open spec fn header_fault(frame: Seq<u8>) -> Option<(ErrorCode, Seq<char>)> {
    if frame.len() < CONTROL_HEADER_BYTES {
        Some((ErrorCode::ProtocolInvalid, "control frame header is truncated"@))
    } else if frame.take(4) != magic() {
        Some((ErrorCode::ProtocolInvalid, "control frame magic is invalid"@))
    } else if frame[4] != FRAMING_VERSION {
        Some((ErrorCode::ProtocolIncompatible, "control framing version is unsupported"@))
    } else if frame[5] != 0 {
        Some((ErrorCode::ProtocolUnsupportedFlag, "control frame contains unsupported flags"@))
    } else if frame[6] != 0 || frame[7] != 0 {
        Some((ErrorCode::ProtocolInvalid, "control frame reserved field must be zero"@))
    } else {
        let length = octets::be_value(frame.subrange(8, 12));
        if length > MAX_CONTROL_PAYLOAD_BYTES {
            Some((ErrorCode::ControlFrameTooLarge, "control payload exceeds 1 MiB"@))
        } else if frame.len() != CONTROL_HEADER_BYTES + length {
            Some((ErrorCode::ProtocolInvalid, "control payload length does not match frame"@))
        } else {
            None
        }
    }
}

/// Checks a complete frame and decodes its envelope.
///
/// # Errors
///
/// Fails when the header is invalid or the payload is no valid envelope.
pub fn decode_frame(frame: &[u8]) -> (r: Result<Envelope, NetToolError>)
    ensures
        ({
            let payload = frame@.skip(CONTROL_HEADER_BYTES as int);
            let fault = schema::message_fault(payload, Shape::Envelope, NESTING_LIMIT as nat);
            match r {
                Ok(envelope) => {
                    &&& header_fault(frame@) is None
                    &&& fault is None
                    &&& envelope.is_read_from(
                        protobuf::fields(payload, NESTING_LIMIT as nat)->Ok_0,
                    )
                },
                Err(e) => match header_fault(frame@) {
                    Some((code, message)) => e.is(code, message, false),
                    None => fault is Some && e.is(
                        ErrorCode::ProtocolInvalid,
                        "invalid control protobuf: "@ + schema::fault_text(fault->0),
                        false,
                    ),
                },
            }
        }),
{
    if frame.len() < CONTROL_HEADER_BYTES {
        return Err(frame_error(ErrorCode::ProtocolInvalid, "control frame header is truncated"));
    }
    if frame[0] != 0x4e || frame[1] != 0x54 || frame[2] != 0x43 || frame[3] != 0x50 {
        proof {
            assert(frame@.take(4)[0] == frame@[0] && frame@.take(4)[1] == frame@[1]
                && frame@.take(4)[2] == frame@[2] && frame@.take(4)[3] == frame@[3]);
        }
        return Err(frame_error(ErrorCode::ProtocolInvalid, "control frame magic is invalid"));
    }
    proof {
        assert(frame@.take(4) == magic());
    }
    if frame[4] != FRAMING_VERSION {
        return Err(
            frame_error(
                ErrorCode::ProtocolIncompatible,
                "control framing version is unsupported",
            ),
        );
    }
    if frame[5] != 0 {
        return Err(
            frame_error(
                ErrorCode::ProtocolUnsupportedFlag,
                "control frame contains unsupported flags",
            ),
        );
    }
    if frame[6] != 0 || frame[7] != 0 {
        return Err(
            frame_error(ErrorCode::ProtocolInvalid, "control frame reserved field must be zero"),
        );
    }
    let length: usize = read_be32(frame, 8) as usize;
    if length > MAX_CONTROL_PAYLOAD_BYTES {
        return Err(frame_error(ErrorCode::ControlFrameTooLarge, "control payload exceeds 1 MiB"));
    }
    if frame.len() != CONTROL_HEADER_BYTES + length {
        return Err(
            frame_error(
                ErrorCode::ProtocolInvalid,
                "control payload length does not match frame",
            ),
        );
    }
    let payload = vstd::slice::slice_subrange(frame, CONTROL_HEADER_BYTES, frame.len());
    proof {
        assert(payload@ == frame@.skip(CONTROL_HEADER_BYTES as int));
    }
    match Envelope::decode(payload) {
        Ok(envelope) => Ok(envelope),
        Err(fault) => {
            let mut message = "invalid control protobuf: ".to_owned();
            message.append(describe_fault(fault).as_str());
            Err(frame_error(ErrorCode::ProtocolInvalid, message.as_str()))
        },
    }
}

fn frame_error(code: ErrorCode, message: &str) -> (r: NetToolError)
    ensures
        r.is(code, message@, false),
{
    NetToolError::new(code, message, false)
}

/// Every frame that encoding gives passes the header check, its length field is the length
/// of what follows the header, and decoding gives the content of the envelope back.
pub proof fn law_frame_round_trip(envelope: Envelope, frame: Seq<u8>, decoded: Envelope)
    requires
        protobuf::encoded(envelope.fields()).len() <= MAX_CONTROL_PAYLOAD_BYTES,
        frame == header(protobuf::encoded(envelope.fields()).len() as u32) + protobuf::encoded(
            envelope.fields(),
        ),
    ensures
        header_fault(frame) is None,
        octets::be_value(frame.subrange(8, 12)) == frame.len() - CONTROL_HEADER_BYTES,
        schema::message_fault(frame.skip(12), Shape::Envelope, NESTING_LIMIT as nat) is None,
        decoded.is_read_from(protobuf::fields(frame.skip(12), NESTING_LIMIT as nat)->Ok_0)
            <==> decoded.same(envelope),
{
    let payload = protobuf::encoded(envelope.fields());
    let n = payload.len() as u32;
    assert(frame.take(4) == magic());
    assert(frame.subrange(8, 12) == octets::be32(n));
    assert(frame.skip(12) == payload);
    octets::lemma_be32_round_trip(n);
    envelope.lemma_round_trip(decoded);
}

/// A frame with any flag set is refused, whatever else it holds after the version.
pub proof fn law_unknown_flags_refused(frame: Seq<u8>)
    requires
        frame.len() >= CONTROL_HEADER_BYTES,
        frame.take(4) == magic(),
        frame[4] == FRAMING_VERSION,
        frame[5] != 0,
    ensures
        header_fault(frame) == Some(
            (ErrorCode::ProtocolUnsupportedFlag, "control frame contains unsupported flags"@),
        ),
{
}

/// A frame that was cut short or extended is refused.
pub proof fn law_length_mismatch_refused(length: u32, payload: Seq<u8>)
    requires
        payload.len() != length,
    ensures
        header_fault(header(length) + payload) is Some,
{
    let frame = header(length) + payload;
    assert(frame.take(4) == magic());
    assert(frame.subrange(8, 12) == octets::be32(length));
    octets::lemma_be32_round_trip(length);
}

} // verus!
