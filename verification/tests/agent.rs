use nettool::agent_client::{
    agent_error, check_reply_length, default_socket_path, protocol_error, user_scope,
    SocketEnvironment,
};
use nettool::agent_protocol::{
    agent_envelope, decode_payload, encode_frame, ActionRequest, ActionResponse, AgentEnvelope,
    MAX_FRAME_BYTES, PROTOCOL_MAJOR, PROTOCOL_MINOR,
};
use nettool::error::ErrorCode;

#[test]
fn frame_round_trip_preserves_request() {
    let envelope = AgentEnvelope {
        protocol_major: PROTOCOL_MAJOR,
        protocol_minor: PROTOCOL_MINOR,
        request_id: "request-1".to_owned(),
        payload: Some(agent_envelope::Payload::Request(ActionRequest {
            action: "system.health".to_owned(),
            payload_json: b"{}".to_vec(),
            operation_id: String::new(),
            dry_run: false,
        })),
    };
    let frame = encode_frame(&envelope).expect("small message must encode");
    let decoded = decode_payload(&frame[4..]).expect("encoded message must decode");
    assert_eq!(decoded, envelope);
}

#[test]
fn rejects_incompatible_major() {
    let envelope = AgentEnvelope {
        protocol_major: 99,
        protocol_minor: 0,
        request_id: String::new(),
        payload: None,
    };
    assert!(decode_payload(&envelope.encode_to_vec()).is_err());
}

#[test]
fn frames_announce_their_length_and_hold_the_known_bytes() {
    let envelope = AgentEnvelope {
        protocol_major: 1,
        protocol_minor: 300,
        request_id: "a".to_owned(),
        payload: Some(agent_envelope::Payload::Response(ActionResponse {
            success: true,
            data_json: vec![0x7b, 0x7d],
            error_code: String::new(),
            error_message: String::new(),
            retryable: false,
        })),
    };
    let frame = encode_frame(&envelope).expect("frame");
    let announced = u32::from_be_bytes([frame[0], frame[1], frame[2], frame[3]]) as usize;
    assert_eq!(announced, frame.len() - 4);
    let body = &frame[4..];
    // Field 1 is 1, field 2 is 300 in two groups of seven bits, field 3 is the text.
    assert_eq!(&body[..8], &[0x08, 0x01, 0x10, 0xac, 0x02, 0x1a, 0x01, 0x61]);
    assert_eq!(decode_payload(body).expect("payload"), envelope);
}

#[test]
fn payloads_that_are_too_large_or_broken_are_refused() {
    let large = vec![0_u8; MAX_FRAME_BYTES + 1];
    assert_eq!(
        decode_payload(&large).expect_err("too large"),
        "agent frame exceeds maximum size"
    );
    assert!(decode_payload(&[0x08]).expect_err("truncated").starts_with("invalid agent protobuf: "));
    let other = AgentEnvelope {
        protocol_major: 2,
        protocol_minor: 0,
        request_id: String::new(),
        payload: None,
    };
    assert_eq!(
        decode_payload(&other.encode_to_vec()).expect_err("major"),
        "unsupported agent protocol major: 2"
    );
    let huge = AgentEnvelope {
        protocol_major: 1,
        protocol_minor: 0,
        request_id: "x".repeat(MAX_FRAME_BYTES),
        payload: None,
    };
    assert!(encode_frame(&huge).is_err());
}

fn environment() -> SocketEnvironment {
    SocketEnvironment {
        socket: None,
        runtime_directory: None,
        temporary_directory: "/tmp".to_owned(),
        user: Some("alice".to_owned()),
        named_pipes: false,
    }
}

#[test]
fn an_explicit_socket_wins_over_everything_else() {
    let mut env = environment();
    env.socket = Some("/run/custom.sock".to_owned());
    env.runtime_directory = Some("/run/user/1000".to_owned());
    assert_eq!(default_socket_path(&env), "/run/custom.sock");
}

#[test]
fn user_scopes_hold_no_separators() {
    let scope = user_scope("al/ice");
    assert!(!scope.contains('/'));
    let mut env = environment();
    assert_eq!(default_socket_path(&env), "/tmp/nettool-alice/agent.sock");
    env.user = None;
    assert_eq!(default_socket_path(&env), "/tmp/nettool-user/agent.sock");
    env.runtime_directory = Some("/run/user/1000".to_owned());
    assert_eq!(default_socket_path(&env), "/run/user/1000/nettool/agent.sock");
    env.named_pipes = true;
    assert_eq!(default_socket_path(&env), "\\\\.\\pipe\\nettool-agent");
}

#[test]
fn replies_within_the_limit_are_read() {
    assert_eq!(check_reply_length(16).expect("length"), 16);
    assert!(check_reply_length(MAX_FRAME_BYTES as u32 + 1).is_err());
    assert_eq!(agent_error("x").code, ErrorCode::AgentUnavailable);
    assert!(agent_error("x").retryable);
    assert_eq!(protocol_error("bad").code, ErrorCode::AgentUnavailable);
    assert!(!protocol_error("bad").retryable);
}
