use control_channel::pairing::get_connection_details;
use control_channel::pin::{
    digit_str, pin_from_millis, pin_to_string, push_decimal, signed_to_string, PIN_MAX, PIN_MIN,
};
use control_channel::secret::{AddressResolutionError, SharedSecret, PORT};

#[test]
fn pin_of_clock_zero_is_the_minimum() {
    assert_eq!(pin_from_millis(0), 100_000);
    assert_eq!(PIN_MIN, 100_000);
}

#[test]
fn pin_of_last_residue_is_the_maximum() {
    assert_eq!(pin_from_millis(899_999), 999_999);
    assert_eq!(PIN_MAX, 999_999);
}

#[test]
fn pin_wraps_every_nine_hundred_thousand_millis() {
    assert_eq!(pin_from_millis(900_000), 100_000);
    assert_eq!(pin_from_millis(900_001), 100_001);
    assert_eq!(pin_from_millis(1_700_000_000_123), 900_123);
}

#[test]
fn pin_of_largest_clock_reading_is_in_range() {
    let pin = pin_from_millis(u128::MAX);
    assert!((100_000..=999_999).contains(&pin));
    assert_eq!(pin as u128, u128::MAX % 900_000 + 100_000);
}

#[test]
fn pins_stay_in_range_over_many_readings() {
    let mut now: u128 = 1_690_000_000_000;
    for _ in 0..5_000 {
        let pin = pin_from_millis(now);
        assert!((100_000..=999_999).contains(&pin));
        assert_eq!(pin_to_string(pin).len(), 6);
        assert_eq!(pin_to_string(pin), pin.to_string());
        now += 7_919;
    }
}

#[test]
fn pin_text_has_six_digits() {
    assert_eq!(pin_to_string(123_456), "123456");
    assert_eq!(pin_to_string(100_000), "100000");
    assert_eq!(pin_to_string(999_999), "999999");
    assert_eq!(pin_to_string(907_010), "907010");
}

#[test]
fn digit_texts() {
    let expected = ["0", "1", "2", "3", "4", "5", "6", "7", "8", "9"];
    for d in 0..10u32 {
        assert_eq!(digit_str(d), expected[d as usize]);
    }
}

#[test]
fn fresh_secret_is_empty_and_accepts_nothing() {
    let secret = SharedSecret::new();
    assert_eq!(secret.current(), "");
    assert!(!secret.accepts(""));
    assert!(!secret.accepts("123456"));
}

#[test]
fn regenerate_stores_the_pin_text() {
    let mut secret = SharedSecret::new();
    let pin = secret.regenerate(23_456);
    assert_eq!(pin, 123_456);
    assert_eq!(secret.current(), "123456");
    assert!(secret.accepts("123456"));
    assert!(!secret.accepts("000000"));
    assert!(!secret.accepts("12345"));
    assert!(!secret.accepts("1234567"));
    assert!(!secret.accepts(""));
}

#[test]
fn regenerate_replaces_the_previous_secret() {
    let mut secret = SharedSecret::new();
    secret.regenerate(23_456);
    secret.regenerate(554_321);
    assert_eq!(secret.current(), "654321");
    assert!(!secret.accepts("123456"));
    assert!(secret.accepts("654321"));
}

#[test]
fn pair_writes_the_details() {
    let mut secret = SharedSecret::new();
    let details = secret.pair("192.168.1.5", 23_456);
    assert_eq!(details, "{\"ip\": \"192.168.1.5\", \"port\": 8765, \"token\": \"123456\"}");
    assert_eq!(secret.current(), "123456");
    assert_eq!(PORT, 8765);
}

#[test]
fn pair_details_are_json_with_the_three_members() {
    let mut secret = SharedSecret::new();
    let details = secret.pair("10.0.0.7", 554_321);
    let value: serde_json::Value = serde_json::from_str(&details).unwrap();
    assert_eq!(value.get("ip").and_then(|v| v.as_str()), Some("10.0.0.7"));
    assert_eq!(value.get("port").and_then(|v| v.as_u64()), Some(8765));
    assert_eq!(value.get("token").and_then(|v| v.as_str()), Some("654321"));
}

#[test]
fn address_failure_message() {
    let failure = AddressResolutionError { detail: String::from("no interface") };
    assert_eq!(failure.message(), "Failed to get local IP: no interface");
}

#[test]
fn connection_details_either_pair_or_report_the_failure() {
    let mut secret = SharedSecret::new();
    secret.regenerate(23_456);
    match get_connection_details(&mut secret) {
        Ok(details) => {
            let value: serde_json::Value = serde_json::from_str(&details).unwrap();
            let token = value.get("token").and_then(|v| v.as_str()).unwrap().to_string();
            assert_eq!(token, secret.current());
            assert_eq!(token.len(), 6);
            assert!(token.chars().all(|c| c.is_ascii_digit()));
            let pin: u32 = token.parse().unwrap();
            assert!((100_000..=999_999).contains(&pin));
            assert_eq!(value.get("port").and_then(|v| v.as_u64()), Some(8765));
            let ip = value.get("ip").and_then(|v| v.as_str()).unwrap();
            assert!(!ip.is_empty());
            assert!(details.starts_with("{\"ip\": \""));
        }
        Err(message) => {
            assert!(message.starts_with("Failed to get local IP: "));
            assert!(message.len() > "Failed to get local IP: ".len());
            assert_eq!(secret.current(), "123456");
        }
    }
}

#[test]
fn push_decimal_appends_the_digits() {
    let mut text = String::from("n=");
    push_decimal(&mut text, 0);
    assert_eq!(text, "n=0");
    push_decimal(&mut text, 10);
    assert_eq!(text, "n=010");
    push_decimal(&mut text, 4_294_967_295);
    assert_eq!(text, "n=0104294967295");
}

#[test]
fn signed_numbers_in_decimal() {
    assert_eq!(signed_to_string(0), "0");
    assert_eq!(signed_to_string(7), "7");
    assert_eq!(signed_to_string(-1), "-1");
    assert_eq!(signed_to_string(127), "127");
    assert_eq!(signed_to_string(-1073741819), "-1073741819");
    assert_eq!(signed_to_string(i32::MAX), "2147483647");
    assert_eq!(signed_to_string(i32::MIN), "-2147483648");
    for v in [-100_000, -99, -10, -9, 9, 10, 99, 100, 1_000_000] {
        assert_eq!(signed_to_string(v), v.to_string());
    }
}
