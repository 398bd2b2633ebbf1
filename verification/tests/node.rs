use nettool::error::ErrorCode;
use nettool::node_protocol::frame::{decode_frame, encode_frame};
use nettool::node_protocol::negotiation::{
    negotiate_capabilities, negotiate_version, CapabilityRange, NegotiatedCapability,
    ProtocolRange,
};
use nettool::node_protocol::state::{NodeConnectionState, NodeStateMachine};
use nettool::node_protocol::trust::{fingerprint_sha256, verify_identity, TrustDecision};
use nettool::node_protocol::wire::{
    envelope, CapabilityMessage, CapabilityResponse, Envelope, Ping, PrepareTest, ProtocolError,
    StartTest, PROTOCOL_MAJOR, PROTOCOL_MINOR,
};

fn plain_envelope() -> Envelope {
    Envelope {
        protocol_major: PROTOCOL_MAJOR,
        protocol_minor: PROTOCOL_MINOR,
        request_id: vec![1; 16],
        message: None,
    }
}

#[test]
fn frame_round_trip_uses_network_byte_order() {
    let frame = encode_frame(&plain_envelope()).expect("frame encodes");
    assert_eq!(&frame[..4], b"NTCP");
    assert_eq!(
        u32::from_be_bytes(frame[8..12].try_into().expect("length field")) as usize,
        frame.len() - 12
    );
    assert_eq!(decode_frame(&frame).expect("frame decodes"), plain_envelope());
}

#[test]
fn start_at_survives_control_frame_round_trip() {
    let expected = 1_700_000_000_123_456_789;
    let mut message = plain_envelope();
    message.message = Some(envelope::ControlMessage::StartTest(StartTest {
        session_id: vec![2; 16],
        operation_id: "start-1".to_owned(),
        start_at_unix_nanoseconds: expected,
    }));
    let decoded = decode_frame(&encode_frame(&message).expect("frame")).expect("decode");
    let Some(envelope::ControlMessage::StartTest(start)) = decoded.message else {
        panic!("start message");
    };
    assert_eq!(start.start_at_unix_nanoseconds, expected);
}

#[test]
fn rejects_unknown_flags_and_length_mismatch() {
    let mut flags = encode_frame(&plain_envelope()).expect("frame encodes");
    flags[5] = 1;
    assert!(decode_frame(&flags).is_err());
    let mut truncated = encode_frame(&plain_envelope()).expect("frame encodes");
    truncated.pop();
    assert!(decode_frame(&truncated).is_err());
}

#[test]
fn rejects_all_truncated_headers_without_panicking() {
    for length in 0..12 {
        assert!(decode_frame(&[0_u8; 12][..length]).is_err());
    }
}

#[test]
fn every_kind_of_message_survives_a_frame() {
    let messages = vec![
        envelope::ControlMessage::Ping(Ping { nonce: u64::MAX }),
        envelope::ControlMessage::Error(ProtocolError {
            code: "X".to_owned(),
            message: "y".to_owned(),
            retryable: true,
        }),
        envelope::ControlMessage::CapabilityResponse(CapabilityResponse {
            capabilities: vec![
                CapabilityMessage {
                    id: 1,
                    min_version: 0,
                    max_version: 300,
                    available: true,
                },
                CapabilityMessage {
                    id: 0,
                    min_version: 0,
                    max_version: 0,
                    available: false,
                },
            ],
        }),
        envelope::ControlMessage::PrepareTest(PrepareTest {
            session_id: vec![3; 16],
            operation_id: "prepare".to_owned(),
            test_type: "speed".to_owned(),
            backend: "dpdk".to_owned(),
            direction: "upload".to_owned(),
            duration_ms: 10_000,
            warmup_ms: 1,
            cooldown_ms: 2,
            streams: 4,
            frame_size: 1518,
            payload_size: 1400,
            target_rate_bps: 100_000_000_000,
            mtu: 9000,
            source_data_port: 1,
            receive_data_port: 65535,
        }),
    ];
    for message in messages {
        let mut sent = plain_envelope();
        sent.message = Some(message);
        let received = decode_frame(&encode_frame(&sent).expect("frame")).expect("decode");
        assert_eq!(received, sent);
    }
}

#[test]
fn pings_have_the_known_bytes() {
    let mut message = plain_envelope();
    message.request_id = Vec::new();
    message.message = Some(envelope::ControlMessage::Ping(Ping { nonce: 300 }));
    let frame = encode_frame(&message).expect("frame");
    // The nonce is the last field: tag, then 300 in two groups of seven bits.
    assert_eq!(&frame[frame.len() - 3..], &[0x08, 0xac, 0x02]);
    assert_eq!(Ping { nonce: 300 }.encode_to_vec(), [0x08, 0xac, 0x02]);
}

#[test]
fn chooses_highest_common_minor() {
    assert_eq!(
        negotiate_version(
            ProtocolRange {
                major: 1,
                min_minor: 0,
                max_minor: 3
            },
            ProtocolRange {
                major: 1,
                min_minor: 0,
                max_minor: 2
            }
        )
        .expect("compatible"),
        (1, 2)
    );
}

#[test]
fn rejects_major_mismatch() {
    assert!(negotiate_version(
        ProtocolRange {
            major: 1,
            min_minor: 0,
            max_minor: 1
        },
        ProtocolRange {
            major: 2,
            min_minor: 0,
            max_minor: 1
        }
    )
    .is_err());
}

#[test]
fn intersects_available_capabilities_by_version() {
    let local = [
        CapabilityRange {
            id: 1,
            min_version: 1,
            max_version: 3,
            available: true,
        },
        CapabilityRange {
            id: 2,
            min_version: 1,
            max_version: 1,
            available: true,
        },
    ];
    let remote = [
        CapabilityRange {
            id: 1,
            min_version: 2,
            max_version: 4,
            available: true,
        },
        CapabilityRange {
            id: 2,
            min_version: 1,
            max_version: 1,
            available: false,
        },
    ];
    assert_eq!(
        negotiate_capabilities(&local, &remote),
        [NegotiatedCapability { id: 1, version: 3 }]
    );
}

#[test]
fn versions_that_do_not_meet_are_refused() {
    let range = |min_minor: u32, max_minor: u32| ProtocolRange {
        major: 1,
        min_minor,
        max_minor,
    };
    assert!(negotiate_version(range(3, 4), range(0, 2)).is_err());
    assert_eq!(
        negotiate_version(range(0, 2), range(2, 4)).expect("meet"),
        (1, 2)
    );
}

#[test]
fn accepts_complete_happy_path() {
    let mut machine = NodeStateMachine::new();
    for state in [
        NodeConnectionState::Connecting,
        NodeConnectionState::TlsHandshake,
        NodeConnectionState::Hello,
        NodeConnectionState::Authenticating,
        NodeConnectionState::CapabilityNegotiation,
        NodeConnectionState::Ready,
        NodeConnectionState::Preparing,
        NodeConnectionState::TestReady,
        NodeConnectionState::Running,
        NodeConnectionState::Finalizing,
        NodeConnectionState::Completed,
    ] {
        machine.transition(state).expect("transition is legal");
    }
}

#[test]
fn rejects_ready_to_finalizing() {
    let mut machine = NodeStateMachine::new();
    for state in [
        NodeConnectionState::Connecting,
        NodeConnectionState::TlsHandshake,
        NodeConnectionState::Hello,
        NodeConnectionState::Authenticating,
        NodeConnectionState::CapabilityNegotiation,
        NodeConnectionState::Ready,
    ] {
        machine.transition(state).expect("transition is legal");
    }
    assert!(machine.transition(NodeConnectionState::Finalizing).is_err());
    assert_eq!(machine.state(), NodeConnectionState::Ready);
}

#[test]
fn identity_change_is_never_silently_accepted() {
    assert_eq!(
        verify_identity(Some("AA:BB"), "AA:CC"),
        TrustDecision::IdentityChanged
    );
}

#[test]
fn fingerprint_is_full_sha256() {
    assert_eq!(fingerprint_sha256(b"public key").split(':').count(), 32);
}

#[test]
fn known_identities_are_trusted_whatever_the_case() {
    assert_eq!(verify_identity(None, "AA"), TrustDecision::PairingRequired);
    assert_eq!(verify_identity(Some("aa:bb"), "AA:BB"), TrustDecision::Trusted);
    assert!(fingerprint_sha256(b"abc").starts_with("BA:78:16:BF"));
    let error = decode_frame(&[0; 12]).expect_err("magic");
    assert_eq!(error.code, ErrorCode::ProtocolInvalid);
}
