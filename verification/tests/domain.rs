use nettool::domain::{
    CaptureMode, DropCounters, NicBusType, Platform, SafetyPolicy, ValidatedJson,
};
use nettool::error::{ErrorCode, NetToolError};
use nettool::json::JsonValue;
use nettool::net::{format_address, mask_of, parse_address, prefix_of_mask, IpAddr};
use nettool::numbers::{advance, distance, is_power_of_two};

#[test]
fn safe_apply_is_enabled_by_default() {
    let policy = SafetyPolicy::default();
    assert!(policy.safe_apply);
    assert!(policy.confirm_timeout_seconds > 0);
}

#[test]
fn validated_json_rejects_non_object_payloads() {
    let object = JsonValue::Object(vec![(
        "backend".to_owned(),
        JsonValue::Text("socket".to_owned()),
    )]);
    assert!(ValidatedJson::try_from_value(object).is_ok());
    assert!(ValidatedJson::try_from_value(JsonValue::Null).is_err());
    let list = JsonValue::List(vec![JsonValue::Text("not-an-object".to_owned())]);
    assert!(ValidatedJson::try_from_value(list).is_err());
}

#[test]
fn helper_not_configured_code_is_stable() {
    assert_eq!(
        ErrorCode::HelperNotConfigured.as_str(),
        "HELPER.NOT_CONFIGURED"
    );
}

#[test]
fn errors_show_their_code_and_message() {
    let error = NetToolError::new(ErrorCode::CaptureReadFailed, "gone", true);
    assert_eq!(error.to_text(), "CAPTURE.READ_FAILED: gone");
    assert!(error.details.is_empty());
}

#[test]
fn names_of_platforms_and_buses_are_stable() {
    assert_eq!(Platform::MacOs.as_str(), "macos");
    assert_eq!(NicBusType::Usb.as_str(), "usb");
    assert!(CaptureMode::default() == CaptureMode::Off);
    assert_eq!(DropCounters::default().network_inferred_loss, 0);
}

#[test]
fn addresses_are_parsed_and_formatted() {
    assert_eq!(parse_address("192.0.2.1"), Some(IpAddr::v4(192, 0, 2, 1)));
    assert_eq!(parse_address("::1"), Some(IpAddr::V6(1)));
    assert_eq!(parse_address("192.0.2.256"), None);
    assert_eq!(parse_address("01.2.3.4"), None);
    assert_eq!(format_address(&IpAddr::v4(10, 0, 0, 255)), "10.0.0.255");
    let text = "2001:db8::10";
    let address = parse_address(text).expect("address");
    assert_eq!(format_address(&address), text);
    assert_eq!(mask_of(24), 0xffff_ff00);
    assert_eq!(prefix_of_mask(0xffff_ff00), Some(24));
    assert_eq!(prefix_of_mask(0xff00_ff00), None);
}

#[test]
fn addresses_agree_with_the_standard_library() {
    for text in [
        "::", "::ffff:1.2.3.4", "1::2:3", "fe80::1", "1:2:3:4:5:6:7:8", "0:0:1::", "1::",
        "2001:db8:0:0:1:0:0:1", "1:0:0:2:0:0:0:3",
    ] {
        let expected: core::net::IpAddr = text.parse().expect("address");
        let address = parse_address(text).expect("address");
        assert_eq!(format_address(&address), expected.to_string());
    }
    for text in ["", ":", ":::", "1", "1:2", "1.2.3", "g::1", "1:2:3:4:5:6:7:8:9", "::1%1"] {
        assert!(parse_address(text).is_none(), "{text}");
    }
}

#[test]
fn counters_wrap_around() {
    assert_eq!(advance(u32::MAX, 1), 0);
    assert_eq!(distance(1, u32::MAX), 2);
    assert_eq!(distance(7, 7), 0);
    assert!(is_power_of_two(1));
    assert!(is_power_of_two(0x8000_0000));
    assert!(!is_power_of_two(0));
    assert!(!is_power_of_two(0x8000_0001));
}

#[test]
fn validated_json_hands_its_value_out() {
    let object = JsonValue::Object(vec![("a".to_owned(), JsonValue::Bool(true))]);
    let validated = ValidatedJson::try_from_value(object.clone()).expect("object");
    assert_eq!(*validated.as_value(), object);
    assert_eq!(validated.into_value(), object);
}
