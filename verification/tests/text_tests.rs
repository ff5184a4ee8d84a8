use intiface_webhook::environment::{secs_or_zero, unix_time_secs};
use intiface_webhook::json::JsonValue;
use intiface_webhook::text::{concat3, starts_with, strip_prefix};
use intiface_webhook::webhook_server::{
    resolve_device_id, stop_device, apply_protocol_messages, WebhookAppState,
};

fn state_with_device(index: u64) -> WebhookAppState {
    let mut st = WebhookAppState::new();
    st.session_manager.add_session("u".to_string(), "s".to_string(), "t".to_string(), 1);
    let added = JsonValue::Object(vec![(
        "DeviceAdded".to_string(),
        JsonValue::Object(vec![
            ("DeviceIndex".to_string(), JsonValue::Number(Some(index))),
            ("DeviceName".to_string(), JsonValue::String("d".to_string())),
        ]),
    )]);
    apply_protocol_messages(&mut st, &vec![added]);
    st
}

/// The decimal numeral of `n`, as the library writes it into ids and messages.
fn u32_to_decimal(n: u32) -> String {
    let mut st = state_with_device(n as u64);
    let id = st.devices[&n].device_id.clone();
    let msg = stop_device(&mut st, Some("Bearer t"), &id).backdoor_message.unwrap();
    let digits = id.strip_prefix("device_").unwrap().to_string();
    assert_eq!(msg, format!(r#"[{{"StopDeviceCmd":{{"Id":1,"DeviceIndex":{}}}}}]"#, digits));
    digits
}

/// The index that `device_<text>` resolves to when a device is stored under 7.
fn parse_u32(text: &str) -> Option<u32> {
    let st = state_with_device(7);
    resolve_device_id(&format!("device_{}", text), &st)
}

#[test]
fn decimal_numerals() {
    assert_eq!(u32_to_decimal(0), "0");
    assert_eq!(u32_to_decimal(7), "7");
    assert_eq!(u32_to_decimal(1234), "1234");
    assert_eq!(u32_to_decimal(u32::MAX), "4294967295");
}

#[test]
fn parsing_u32() {
    assert_eq!(parse_u32("7"), Some(7));
    assert_eq!(parse_u32("+7"), Some(7));
    assert_eq!(parse_u32("007"), Some(7));
    assert_eq!(parse_u32("+007"), Some(7));
    assert_eq!(parse_u32("8"), None);
    assert_eq!(parse_u32("4294967303"), None);
    assert_eq!(parse_u32(""), None);
    assert_eq!(parse_u32("+"), None);
    assert_eq!(parse_u32("-1"), None);
    assert_eq!(parse_u32("-0"), None);
    assert_eq!(parse_u32(" 1"), None);
    assert_eq!(parse_u32("1 "), None);
    assert_eq!(parse_u32("1_000"), None);
    assert_eq!(parse_u32("x1"), None);
}

#[test]
fn decimal_numerals_parse_back() {
    for n in [0u32, 1, 9, 10, 99, 100, 65535, 4294967295] {
        let st = state_with_device(n as u64);
        let id = st.devices[&n].device_id.clone();
        assert_eq!(resolve_device_id(&id, &st), Some(n));
    }
}

#[test]
fn prefixes() {
    assert!(starts_with("Bearer abc", "Bearer "));
    assert!(starts_with("abc", ""));
    assert!(!starts_with("Bear", "Bearer "));
    assert!(!starts_with("bearer abc", "Bearer "));
    assert_eq!(strip_prefix("device_12", "device_"), Some("12"));
    assert_eq!(strip_prefix("device_", "device_"), Some(""));
    assert_eq!(strip_prefix("dev_12", "device_"), None);
    assert_eq!(strip_prefix("ünïcode-rest", "ünï"), Some("code-rest"));
}

#[test]
fn concatenation() {
    assert_eq!(concat3("a", "", "bc"), "abc");
    assert_eq!(concat3("", "", ""), "");
}

#[test]
fn clock_reads_after_2020() {
    assert!(unix_time_secs() > 1_600_000_000);
}

#[test]
fn json_member_lookup() {
    let v = JsonValue::Object(vec![
        ("a".to_string(), JsonValue::Number(Some(1))),
        ("b".to_string(), JsonValue::String("x".to_string())),
        ("a".to_string(), JsonValue::Number(Some(2))),
    ]);
    assert_eq!(v.get("a").unwrap().as_u64(), Some(1));
    assert_eq!(v.get("b").unwrap().as_str().map(|s| s.as_str()), Some("x"));
    assert!(v.get("c").is_none());
    assert!(v.get("b").unwrap().as_u64().is_none());
    assert!(v.get("a").unwrap().as_str().is_none());
    assert!(JsonValue::Array(vec![]).get("a").is_none());
    assert!(JsonValue::Null.as_u64().is_none());
    assert!(JsonValue::Number(None).as_u64().is_none());
}

#[test]
fn clock_readings_before_the_epoch_give_zero() {
    assert_eq!(secs_or_zero(None), 0);
    assert_eq!(secs_or_zero(Some(0)), 0);
    assert_eq!(secs_or_zero(Some(1_700_000_000)), 1_700_000_000);
    assert_eq!(secs_or_zero(Some(u64::MAX)), u64::MAX);
}
