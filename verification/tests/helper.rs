use nettool::domain::{DnsConfiguration, IpPrefix, Ipv4Configuration, Ipv6Configuration};
use nettool::error::ErrorCode;
use nettool::helper_protocol::{
    same_state, valid_domain, validate_wire_shape, CallerIdentity, NetworkDesiredState,
    PrivilegedOperation, PrivilegedRequest, PrivilegedResponse, PrivilegedWireRequest,
};
use nettool::handled::Handled;
use nettool::helper_server::{
    check_frame_length, credentials_from_ids, error_response, frame_response, serve_request,
    transport_error, AuthorizationPolicy, PeerCredentials, PrivilegedRequestHandler,
    MAX_HELPER_FRAME_LENGTH,
};
use nettool::json::{JsonNumber, JsonValue};
use nettool::net::IpAddr;

fn plain(value: &serde_json::Value) -> JsonValue {
    match value {
        serde_json::Value::Null => JsonValue::Null,
        serde_json::Value::Bool(b) => JsonValue::Bool(*b),
        serde_json::Value::Number(n) => JsonValue::Number(if let Some(u) = n.as_u64() {
            JsonNumber::Unsigned(u)
        } else if let Some(i) = n.as_i64() {
            JsonNumber::Negative(i)
        } else {
            JsonNumber::Fraction(n.as_f64().unwrap_or(0.0).to_bits())
        }),
        serde_json::Value::String(s) => JsonValue::Text(s.clone()),
        serde_json::Value::Array(items) => JsonValue::List(items.iter().map(plain).collect()),
        serde_json::Value::Object(members) => JsonValue::Object(
            members
                .iter()
                .map(|(name, member)| (name.clone(), plain(member)))
                .collect(),
        ),
    }
}

fn decode(text: &str) -> JsonValue {
    plain(&serde_json::from_str::<serde_json::Value>(text).expect("JSON"))
}

fn desired_state() -> NetworkDesiredState {
    NetworkDesiredState {
        ipv4: Ipv4Configuration::Dhcp,
        ipv6: Ipv6Configuration::Automatic,
        dns: DnsConfiguration {
            automatic: true,
            servers: Vec::new(),
            search_domains: Vec::new(),
        },
        routes: Vec::new(),
        mtu: None,
    }
}

#[test]
fn validates_pci_address_and_timeout() {
    assert!(PrivilegedOperation::NicPrepareDpdk {
        pci_address: "0000:01:00.0".to_owned()
    }
    .validate()
    .is_ok());
    assert!(PrivilegedOperation::NetworkApply {
        interface_id: "eth0".to_owned(),
        desired_state: desired_state(),
        confirm_timeout_seconds: 2
    }
    .validate()
    .is_err());
}

#[test]
fn rejects_unknown_network_state_fields_and_invalid_family() {
    let unknown = r#"{
        "ipv4":{"mode":"dhcp","command":"id"},
        "ipv6":{"mode":"automatic"},
        "dns":{"automatic":true,"servers":[],"search_domains":[]},
        "routes":[],"mtu":1500
    }"#;
    assert!(validate_wire_shape(&decode(unknown)).is_err());

    let invalid = r#"{
        "ipv4":{"mode":"static","addresses":[{"address":"2001:db8::1","prefix_length":64}]},
        "ipv6":{"mode":"automatic"},
        "dns":{"automatic":true,"servers":[],"search_domains":[]},
        "routes":[],"mtu":1500
    }"#;
    validate_wire_shape(&decode(invalid)).expect("known schema");
    let mut invalid = desired_state();
    invalid.ipv4 = Ipv4Configuration::Static {
        addresses: vec![IpPrefix {
            address: IpAddr::V6(0x2001_0db8_0000_0000_0000_0000_0000_0001),
            prefix_length: 64,
        }],
    };
    invalid.mtu = Some(1500);
    assert!(invalid.validate().is_err());
}

#[test]
fn states_are_valid_within_their_bounds() {
    let mut state = desired_state();
    assert!(state.validate().is_ok());
    assert!(same_state(&state, &desired_state()));
    state.mtu = Some(100);
    assert!(state.validate().is_err());
    assert!(!same_state(&state, &desired_state()));
    assert!(valid_domain("lab.example"));
    assert!(!valid_domain("-lab"));
    assert!(!valid_domain(""));
}

struct EchoHandler;

impl PrivilegedRequestHandler for EchoHandler {
    fn handle(&mut self, request: PrivilegedRequest) -> PrivilegedResponse {
        PrivilegedResponse {
            request_id: request.request_id,
            result: Some(JsonValue::Object(vec![(
                "principal".to_owned(),
                JsonValue::Text(request.caller_identity.principal),
            )])),
            error: None,
        }
    }
}

#[test]
fn rejects_oversized_length_before_allocation() {
    assert!(
        check_frame_length(u32::try_from(MAX_HELPER_FRAME_LENGTH + 1).expect("fits u32")).is_err()
    );
    assert_eq!(check_frame_length(1024).expect("length"), 1024);
}

#[test]
fn authenticated_peer_identity_is_injected() {
    let request = PrivilegedWireRequest {
        request_id: "request-1".into(),
        operation_id: "operation-1".into(),
        operation: PrivilegedOperation::SafeApplyListPending,
        dry_run: true,
    };
    let policy = AuthorizationPolicy::new(vec!["501".to_owned()]);
    let identity = policy
        .authorize(&PeerCredentials {
            principal: "501".into(),
            process_id: Some(42),
        })
        .expect("authorized");
    let response = serve_request(identity, request, &mut Handled::new(EchoHandler)).expect("served");
    assert_eq!(response.request_id, "request-1");
    assert_eq!(
        response.result,
        Some(JsonValue::Object(vec![(
            "principal".to_owned(),
            JsonValue::Text("501".to_owned())
        )]))
    );
}

#[test]
fn policy_denies_unknown_principal() {
    let policy = AuthorizationPolicy::new(vec!["501".to_owned()]);
    assert!(policy
        .authorize(&PeerCredentials {
            principal: "502".into(),
            process_id: None
        })
        .is_err());
}

#[test]
fn an_empty_policy_allows_nobody() {
    let policy = AuthorizationPolicy::default();
    let error = policy
        .authorize(&PeerCredentials {
            principal: "0".into(),
            process_id: None,
        })
        .expect_err("denied");
    assert_eq!(error.code, ErrorCode::HelperUnauthorized);
}

#[test]
fn invalid_operations_do_not_reach_the_handler() {
    struct Unreachable;
    impl PrivilegedRequestHandler for Unreachable {
        fn handle(&mut self, _request: PrivilegedRequest) -> PrivilegedResponse {
            panic!("handler must not be called")
        }
    }
    let request = PrivilegedWireRequest {
        request_id: "r".into(),
        operation_id: "o".into(),
        operation: PrivilegedOperation::NicPrepareDpdk {
            pci_address: "eth0".to_owned(),
        },
        dry_run: false,
    };
    let identity = CallerIdentity {
        principal: "501".to_owned(),
        process_id: None,
    };
    assert!(serve_request(identity, request, &mut Handled::new(Unreachable)).is_err());
}

#[test]
fn frames_and_errors_have_their_shape() {
    let frame = frame_response(b"{}").expect("frame");
    assert_eq!(frame, [0, 0, 0, 2, b'{', b'}']);
    assert!(frame_response(&vec![0; MAX_HELPER_FRAME_LENGTH + 1]).is_err());
    let credentials = credentials_from_ids(501, Some(42));
    assert_eq!(credentials.principal, "501");
    assert_eq!(credentials.process_id, Some(42));
    assert_eq!(credentials_from_ids(501, Some(-1)).process_id, None);
    let error = transport_error("read", "gone", true);
    assert_eq!(error.code, ErrorCode::HelperTransportFailed);
    let response = error_response("request-9", &error);
    assert_eq!(response.request_id, "request-9");
    assert!(response.result.is_none());
    assert_eq!(response.error.expect("error").code, "HELPER.TRANSPORT_FAILED");
}

#[test]
fn operations_have_stable_names() {
    assert_eq!(
        PrivilegedOperation::SafeApplyListPending.name(),
        "safe_apply.list_pending"
    );
    assert_eq!(PrivilegedOperation::HostsRead.name(), "hosts.read");
}
