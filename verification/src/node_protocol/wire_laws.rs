//! Under which numbers the parts of messages stand, and how frames are laid out.

use crate::agent_protocol::{ActionRequest, ActionResponse};
use crate::error::ErrorCode;
use crate::node_protocol::frame;
use crate::node_protocol::wire;
use crate::node_protocol::wire::envelope::ControlMessage;
use crate::node_protocol::wire::{
    CapabilityMessage, Envelope, HelloRequest, HelloResponse, PairRequest, PairResponse, Ping,
    Pong, PrepareTest, PrepareTestResponse, ProtocolError, StartTest, StopTest, TestResult,
    TestResultRequest, TestStatus,
};
use crate::octets;
use crate::protobuf;
use crate::protobuf::{WireField, WireValue};
use vstd::prelude::*;
use vstd::utf8::encode_utf8;

verus! {

/// The numbers of the parts of this message: 1 node id, 2 node name, 3 min minor, 4 max minor.
pub proof fn law_numbers_in_hello_request(m: HelloRequest)
    ensures
        protobuf::bytes_of(m.fields(), 1) == m.node_id@,
        protobuf::bytes_of(m.fields(), 2) == encode_utf8(m.node_name@),
        protobuf::number_of(m.fields(), 3) == m.min_minor as u64,
        protobuf::number_of(m.fields(), 4) == m.max_minor as u64,
{
    broadcast use protobuf::group_last_value;

    lemma_empty(m.node_id@);
    lemma_empty(encode_utf8(m.node_name@));
}

/// The numbers of the parts of this message: 1 selected minor, 2 node id, 3 node name.
pub proof fn law_numbers_in_hello_response(m: HelloResponse)
    ensures
        protobuf::number_of(m.fields(), 1) == m.selected_minor as u64,
        protobuf::bytes_of(m.fields(), 2) == m.node_id@,
        protobuf::bytes_of(m.fields(), 3) == encode_utf8(m.node_name@),
{
    broadcast use protobuf::group_last_value;

    lemma_empty(m.node_id@);
    lemma_empty(encode_utf8(m.node_name@));
}

/// The numbers of the parts of this message: 1 node id, 2 public key.
pub proof fn law_numbers_in_pair_request(m: PairRequest)
    ensures
        protobuf::bytes_of(m.fields(), 1) == m.node_id@,
        protobuf::bytes_of(m.fields(), 2) == m.public_key@,
{
    broadcast use protobuf::group_last_value;

    lemma_empty(m.node_id@);
    lemma_empty(m.public_key@);
}

/// The numbers of the parts of this message: 1 trusted, 2 fingerprint.
pub proof fn law_numbers_in_pair_response(m: PairResponse)
    ensures
        protobuf::number_of(m.fields(), 1) == (if m.trusted {
            1u64
        } else {
            0u64
        }),
        protobuf::bytes_of(m.fields(), 2) == encode_utf8(m.fingerprint@),
{
    broadcast use protobuf::group_last_value;

    lemma_empty(encode_utf8(m.fingerprint@));
}

/// The numbers of the parts of this message: 1 id, 2 min version, 3 max version, 4 available.
pub proof fn law_numbers_in_capability_message(m: CapabilityMessage)
    ensures
        protobuf::number_of(m.fields(), 1) == m.id as u64,
        protobuf::number_of(m.fields(), 2) == m.min_version as u64,
        protobuf::number_of(m.fields(), 3) == m.max_version as u64,
        protobuf::number_of(m.fields(), 4) == (if m.available {
            1u64
        } else {
            0u64
        }),
{
    broadcast use protobuf::group_last_value;

}

/// The numbers of the parts of this message: 1 session id, 2 operation id, 3 test type, 4 backend, 5 direction, 6 duration ms, 7 warmup ms, 8 cooldown ms, 9 streams, 10 frame size, 11 payload size, 12 target rate bps, 13 mtu, 14 source data port, 15 receive data port.
pub proof fn law_numbers_in_prepare_test(m: PrepareTest)
    ensures
        m.fields() == m.identity_fields() + m.timing_fields() + m.size_fields(),
        protobuf::bytes_of(m.identity_fields(), 1) == m.session_id@,
        protobuf::bytes_of(m.identity_fields(), 2) == encode_utf8(m.operation_id@),
        protobuf::bytes_of(m.identity_fields(), 3) == encode_utf8(m.test_type@),
        protobuf::bytes_of(m.identity_fields(), 4) == encode_utf8(m.backend@),
        protobuf::bytes_of(m.identity_fields(), 5) == encode_utf8(m.direction@),
        protobuf::number_of(m.timing_fields(), 6) == m.duration_ms,
        protobuf::number_of(m.timing_fields(), 7) == m.warmup_ms,
        protobuf::number_of(m.timing_fields(), 8) == m.cooldown_ms,
        protobuf::number_of(m.timing_fields(), 9) == m.streams as u64,
        protobuf::number_of(m.timing_fields(), 10) == m.frame_size as u64,
        protobuf::number_of(m.size_fields(), 11) == m.payload_size as u64,
        protobuf::number_of(m.size_fields(), 12) == m.target_rate_bps,
        protobuf::number_of(m.size_fields(), 13) == m.mtu as u64,
        protobuf::number_of(m.size_fields(), 14) == m.source_data_port as u64,
        protobuf::number_of(m.size_fields(), 15) == m.receive_data_port as u64,
{
    lemma_identity_numbers(m);
    lemma_timing_numbers(m);
    lemma_size_numbers(m);
}

proof fn lemma_identity_numbers(m: PrepareTest)
    ensures
        protobuf::bytes_of(m.identity_fields(), 1) == m.session_id@,
        protobuf::bytes_of(m.identity_fields(), 2) == encode_utf8(m.operation_id@),
        protobuf::bytes_of(m.identity_fields(), 3) == encode_utf8(m.test_type@),
        protobuf::bytes_of(m.identity_fields(), 4) == encode_utf8(m.backend@),
        protobuf::bytes_of(m.identity_fields(), 5) == encode_utf8(m.direction@),
{
    broadcast use protobuf::group_last_value;

    lemma_empty(m.session_id@);
    lemma_empty(encode_utf8(m.operation_id@));
    lemma_empty(encode_utf8(m.test_type@));
    lemma_empty(encode_utf8(m.backend@));
    lemma_empty(encode_utf8(m.direction@));
}

proof fn lemma_timing_numbers(m: PrepareTest)
    ensures
        protobuf::number_of(m.timing_fields(), 6) == m.duration_ms,
        protobuf::number_of(m.timing_fields(), 7) == m.warmup_ms,
        protobuf::number_of(m.timing_fields(), 8) == m.cooldown_ms,
        protobuf::number_of(m.timing_fields(), 9) == m.streams as u64,
        protobuf::number_of(m.timing_fields(), 10) == m.frame_size as u64,
{
    broadcast use protobuf::group_last_value;

}

proof fn lemma_size_numbers(m: PrepareTest)
    ensures
        protobuf::number_of(m.size_fields(), 11) == m.payload_size as u64,
        protobuf::number_of(m.size_fields(), 12) == m.target_rate_bps,
        protobuf::number_of(m.size_fields(), 13) == m.mtu as u64,
        protobuf::number_of(m.size_fields(), 14) == m.source_data_port as u64,
        protobuf::number_of(m.size_fields(), 15) == m.receive_data_port as u64,
{
    broadcast use protobuf::group_last_value;

}

/// The numbers of the parts of this message: 1 ready, 2 data port, 3 authorization tag, 4 source data port.
pub proof fn law_numbers_in_prepare_test_response(m: PrepareTestResponse)
    ensures
        protobuf::number_of(m.fields(), 1) == (if m.ready {
            1u64
        } else {
            0u64
        }),
        protobuf::number_of(m.fields(), 2) == m.data_port as u64,
        protobuf::bytes_of(m.fields(), 3) == encode_utf8(m.authorization_tag@),
        protobuf::number_of(m.fields(), 4) == m.source_data_port as u64,
{
    broadcast use protobuf::group_last_value;

    lemma_empty(encode_utf8(m.authorization_tag@));
}

/// The numbers of the parts of this message: 1 session id, 2 operation id, 3 start at unix nanoseconds.
pub proof fn law_numbers_in_start_test(m: StartTest)
    ensures
        protobuf::bytes_of(m.fields(), 1) == m.session_id@,
        protobuf::bytes_of(m.fields(), 2) == encode_utf8(m.operation_id@),
        protobuf::number_of(m.fields(), 3) == m.start_at_unix_nanoseconds,
{
    broadcast use protobuf::group_last_value;

    lemma_empty(m.session_id@);
    lemma_empty(encode_utf8(m.operation_id@));
}

/// The numbers of the parts of this message: 1 session id, 2 operation id.
pub proof fn law_numbers_in_stop_test(m: StopTest)
    ensures
        protobuf::bytes_of(m.fields(), 1) == m.session_id@,
        protobuf::bytes_of(m.fields(), 2) == encode_utf8(m.operation_id@),
{
    broadcast use protobuf::group_last_value;

    lemma_empty(m.session_id@);
    lemma_empty(encode_utf8(m.operation_id@));
}

/// The numbers of the parts of this message: 1 session id, 2 state.
pub proof fn law_numbers_in_test_status(m: TestStatus)
    ensures
        protobuf::bytes_of(m.fields(), 1) == m.session_id@,
        protobuf::bytes_of(m.fields(), 2) == encode_utf8(m.state@),
{
    broadcast use protobuf::group_last_value;

    lemma_empty(m.session_id@);
    lemma_empty(encode_utf8(m.state@));
}

/// The numbers of the parts of this message: 1 session id.
pub proof fn law_numbers_in_test_result_request(m: TestResultRequest)
    ensures
        protobuf::bytes_of(m.fields(), 1) == m.session_id@,
{
    broadcast use protobuf::group_last_value;

    lemma_empty(m.session_id@);
}

/// The numbers of the parts of this message: 1 session id, 2 result json, 3 checksum.
pub proof fn law_numbers_in_test_result(m: TestResult)
    ensures
        protobuf::bytes_of(m.fields(), 1) == m.session_id@,
        protobuf::bytes_of(m.fields(), 2) == m.result_json@,
        protobuf::bytes_of(m.fields(), 3) == m.checksum@,
{
    broadcast use protobuf::group_last_value;

    lemma_empty(m.session_id@);
    lemma_empty(m.result_json@);
    lemma_empty(m.checksum@);
}

/// The numbers of the parts of this message: 1 nonce.
pub proof fn law_numbers_in_ping(m: Ping)
    ensures
        protobuf::number_of(m.fields(), 1) == m.nonce,
{
    broadcast use protobuf::group_last_value;

}

/// The numbers of the parts of this message: 1 nonce.
pub proof fn law_numbers_in_pong(m: Pong)
    ensures
        protobuf::number_of(m.fields(), 1) == m.nonce,
{
    broadcast use protobuf::group_last_value;

}

/// The numbers of the parts of this message: 1 code, 2 message, 3 retryable.
pub proof fn law_numbers_in_protocol_error(m: ProtocolError)
    ensures
        protobuf::bytes_of(m.fields(), 1) == encode_utf8(m.code@),
        protobuf::bytes_of(m.fields(), 2) == encode_utf8(m.message@),
        protobuf::number_of(m.fields(), 3) == (if m.retryable {
            1u64
        } else {
            0u64
        }),
{
    broadcast use protobuf::group_last_value;

    lemma_empty(encode_utf8(m.code@));
    lemma_empty(encode_utf8(m.message@));
}

/// The numbers of the parts of this message: 1 action, 2 payload json, 3 operation id, 4 dry run.
pub proof fn law_numbers_in_action_request(m: ActionRequest)
    ensures
        protobuf::bytes_of(m.fields(), 1) == encode_utf8(m.action@),
        protobuf::bytes_of(m.fields(), 2) == m.payload_json@,
        protobuf::bytes_of(m.fields(), 3) == encode_utf8(m.operation_id@),
        protobuf::number_of(m.fields(), 4) == (if m.dry_run {
            1u64
        } else {
            0u64
        }),
{
    broadcast use protobuf::group_last_value;

    lemma_empty(encode_utf8(m.action@));
    lemma_empty(m.payload_json@);
    lemma_empty(encode_utf8(m.operation_id@));
}

/// The numbers of the parts of this message: 1 success, 2 data json, 3 error code, 4 error message, 5 retryable.
pub proof fn law_numbers_in_action_response(m: ActionResponse)
    ensures
        protobuf::number_of(m.fields(), 1) == (if m.success {
            1u64
        } else {
            0u64
        }),
        protobuf::bytes_of(m.fields(), 2) == m.data_json@,
        protobuf::bytes_of(m.fields(), 3) == encode_utf8(m.error_code@),
        protobuf::bytes_of(m.fields(), 4) == encode_utf8(m.error_message@),
        protobuf::number_of(m.fields(), 5) == (if m.retryable {
            1u64
        } else {
            0u64
        }),
{
    broadcast use protobuf::group_last_value;

    lemma_empty(m.data_json@);
    lemma_empty(encode_utf8(m.error_code@));
    lemma_empty(encode_utf8(m.error_message@));
}

proof fn lemma_empty(b: Seq<u8>)
    ensures
        b.len() == 0 ==> b == Seq::<u8>::empty(),
{
}

/// Under which number each message stands in an envelope.
pub proof fn law_numbers_of_messages(m: ControlMessage)
    ensures
        m.tag() == match m {
            ControlMessage::HelloRequest(_) => 10u32,
            ControlMessage::HelloResponse(_) => 11u32,
            ControlMessage::PairRequest(_) => 20u32,
            ControlMessage::PairResponse(_) => 21u32,
            ControlMessage::CapabilityRequest(_) => 30u32,
            ControlMessage::CapabilityResponse(_) => 31u32,
            ControlMessage::PrepareTest(_) => 40u32,
            ControlMessage::PrepareTestResponse(_) => 41u32,
            ControlMessage::StartTest(_) => 42u32,
            ControlMessage::StopTest(_) => 43u32,
            ControlMessage::TestStatus(_) => 44u32,
            ControlMessage::TestResult(_) => 45u32,
            ControlMessage::TestResultRequest(_) => 46u32,
            ControlMessage::Ping(_) => 50u32,
            ControlMessage::Pong(_) => 51u32,
            ControlMessage::Error(_) => 100u32,
        },
{
}

/// An envelope says its version under 1 and 2 and its request under 3; its message stands last,
/// whole, under the number of the message.
pub proof fn law_envelopes(e: Envelope)
    ensures
        protobuf::number_of(e.head(), 1) == e.protocol_major,
        protobuf::number_of(e.head(), 2) == e.protocol_minor,
        protobuf::bytes_of(e.head(), 3) == e.request_id@,
        e.message matches Some(m) ==> e.fields() == e.head().push(
            WireField { tag: m.tag(), value: WireValue::Bytes(protobuf::encoded(m.fields())) },
        ),
        e.message is None ==> e.fields() == e.head(),
{
    broadcast use protobuf::group_last_value;

    lemma_empty(e.request_id@);
}

/// Every capability is listed under 1, in its order.
pub proof fn law_capabilities_are_listed(list: Seq<CapabilityMessage>, i: int)
    ensures
        wire::capability_fields(list).len() == list.len(),
        0 <= i < list.len() ==> wire::capability_fields(list)[i] == (WireField {
            tag: 1,
            value: WireValue::Bytes(protobuf::encoded(list[i].fields())),
        }),
    decreases list.len(),
{
    if list.len() > 0 {
        law_capabilities_are_listed(list.drop_last(), i);
        if i == list.len() - 1 {
            law_capabilities_are_listed(list.drop_last(), 0);
        }
    }
}

// ------------------------------------------------------------------------------------ encoding

/// A number is written seven bits at a time, the lowest first; every byte but the last has its
/// highest bit set.
pub proof fn law_numbers_are_written(n: nat)
    ensures
        n < 128 ==> protobuf::varint_bytes(n) == seq![n as u8],
        n >= 128 ==> {
            let b = protobuf::varint_bytes(n);
            &&& b.len() > 1
            &&& b[0] == 128 + n % 128
            &&& b.skip(1) == protobuf::varint_bytes(n / 128)
        },
        protobuf::varint_bytes(n).last() < 128,
    decreases n,
{
    if n >= 128 {
        law_numbers_are_written(n / 128);
        let b = protobuf::varint_bytes(n);
        let rest = protobuf::varint_bytes(n / 128);
        assert(rest.len() > 0);
        assert(b.skip(1) =~= rest);
        assert(b.last() == rest.last());
    }
}

/// A field begins with its number, eight times, and what kind of value follows: 0 for a number, 2
/// for bytes, which their length precedes.
pub proof fn law_fields_are_written(tag: u32, n: u64, b: Seq<u8>)
    ensures
        protobuf::field_bytes(WireField { tag, value: WireValue::Varint(n) })
            == protobuf::varint_bytes((8 * tag) as nat) + protobuf::varint_bytes(n as nat),
        protobuf::field_bytes(WireField { tag, value: WireValue::Bytes(b) })
            == protobuf::varint_bytes((8 * tag + 2) as nat) + protobuf::varint_bytes(b.len()) + b,
{
}

/// What a number of 32 bits is written as: four bytes, the highest first.
pub proof fn law_lengths_are_written(n: u32)
    ensures
        octets::be32(n).len() == 4,
        octets::be32(n)[0] * 0x100_0000 + octets::be32(n)[1] * 0x1_0000 + octets::be32(n)[2] * 0x100
            + octets::be32(n)[3] == n,
{
}

// -------------------------------------------------------------------------------------- frames

/// A frame begins with four letters, the version, no flags, two bytes that are not used, and the
/// length of what follows.
pub proof fn law_headers(length: u32)
    ensures
        frame::header(length) == seq![0x4eu8, 0x54u8, 0x43u8, 0x50u8, 1u8, 0u8, 0u8, 0u8]
            + octets::be32(length),
        frame::header(length).len() == 12,
{
    assert(frame::header(length) =~= seq![0x4eu8, 0x54u8, 0x43u8, 0x50u8, 1u8, 0u8, 0u8, 0u8]
        + octets::be32(length));
}

/// A frame is taken exactly where its header is as it has to be, at most a mebibyte follows, and
/// that is as long as the header says.
pub proof fn law_frames_that_are_taken(b: Seq<u8>)
    ensures
        frame::header_fault(b) is None <==> {
            &&& 12 <= b.len()
            &&& b[0] == 0x4e && b[1] == 0x54 && b[2] == 0x43 && b[3] == 0x50
            &&& b[4] == 1
            &&& b[5] == 0
            &&& b[6] == 0 && b[7] == 0
            &&& b.len() - 12 <= 1024 * 1024
            &&& octets::be_value(b.subrange(8, 12)) == b.len() - 12
        },
{
    if b.len() >= 12 {
        let m = seq![0x4eu8, 0x54u8, 0x43u8, 0x50u8];
        if b.take(4) == m {
            assert(b.take(4)[0] == b[0] && b.take(4)[1] == b[1] && b.take(4)[2] == b[2] && b.take(
                4,
            )[3] == b[3]);
        }
        if b[0] == 0x4e && b[1] == 0x54 && b[2] == 0x43 && b[3] == 0x50 {
            assert(b.take(4) =~= m);
        }
    }
}

/// A frame that begins as one of this protocol is answered by what differs first: another version
/// is not compatible, flags are not supported, and more than a mebibyte is too large. Whatever
/// else is wrong is invalid.
pub proof fn law_frames_that_are_refused(b: Seq<u8>)
    ensures
        ({
            let whole = 12 <= b.len() && b[0] == 0x4e && b[1] == 0x54 && b[2] == 0x43 && b[3]
                == 0x50;
            let code = match frame::header_fault(b) {
                Some((code, _)) => Some(code),
                None => None,
            };
            &&& code == Some(ErrorCode::ProtocolIncompatible) <==> whole && b[4] != 1
            &&& code == Some(ErrorCode::ProtocolUnsupportedFlag) <==> whole && b[4] == 1 && b[5]
                != 0
            &&& code == Some(ErrorCode::ControlFrameTooLarge) <==> whole && b[4] == 1 && b[5] == 0
                && b[6] == 0 && b[7] == 0 && octets::be_value(b.subrange(8, 12)) > 1024 * 1024
            &&& code is None || code == Some(ErrorCode::ProtocolInvalid) || code == Some(
                ErrorCode::ProtocolIncompatible,
            ) || code == Some(ErrorCode::ProtocolUnsupportedFlag) || code == Some(
                ErrorCode::ControlFrameTooLarge,
            )
        }),
{
    if b.len() >= 12 {
        let m = seq![0x4eu8, 0x54u8, 0x43u8, 0x50u8];
        if b.take(4) == m {
            assert(b.take(4)[0] == b[0] && b.take(4)[1] == b[1] && b.take(4)[2] == b[2] && b.take(
                4,
            )[3] == b[3]);
        }
        if b[0] == 0x4e && b[1] == 0x54 && b[2] == 0x43 && b[3] == 0x50 {
            assert(b.take(4) =~= m);
        }
    }
}

} // verus!
