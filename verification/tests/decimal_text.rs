use amd::config::{bool_setting, owner_id_setting, EnvSetting, COMMAND_PREFIX};
use amd::decimal::{i32_to_decimal, parse_u64, u64_to_decimal};

#[test]
fn u64_decimal_matches_to_string() {
    for n in [0u64, 7, 9, 10, 42, 100, 999, 1000, 123456789, u64::MAX - 1, u64::MAX] {
        assert_eq!(u64_to_decimal(n), n.to_string());
    }
}

#[test]
fn i32_decimal_matches_to_string() {
    for i in [0i32, 1, -1, 9, -9, 10, -10, 2024, -2024, i32::MAX, i32::MIN] {
        assert_eq!(i32_to_decimal(i), i.to_string());
    }
}

#[test]
fn parse_u64_matches_std_parse() {
    let cases = [
        "", "+", "-", "0", "007", "+7", "-7", "-0", "12a", " 12", "12 ", "1_000",
        "18446744073709551615", "18446744073709551616", "99999999999999999999",
        "+18446744073709551615", "\u{0663}", "42",
    ];
    for text in cases {
        assert_eq!(parse_u64(text), text.parse::<u64>().ok(), "{text:?}");
    }
}

#[test]
fn decimal_round_trip() {
    for n in [0u64, 5, 10, 1234567890123, u64::MAX] {
        assert_eq!(parse_u64(&u64_to_decimal(n)), Some(n));
    }
}

#[test]
fn owner_id_setting_cases() {
    assert_eq!(owner_id_setting(None), EnvSetting::Unset);
    assert_eq!(owner_id_setting(Some("123456789012345678")), EnvSetting::Parsed(123456789012345678));
    assert_eq!(owner_id_setting(Some("+5")), EnvSetting::Parsed(5));
    assert_eq!(owner_id_setting(Some("abc")), EnvSetting::Invalid);
    assert_eq!(owner_id_setting(Some("")), EnvSetting::Invalid);
    assert_eq!(owner_id_setting(Some("-1")), EnvSetting::Invalid);
    assert!(owner_id_setting(Some("x")).is_invalid());
    assert_eq!(owner_id_setting(Some("x")).ok(), None);
    assert_eq!(owner_id_setting(Some("77")).ok(), Some(77));
}

#[test]
fn bool_setting_cases() {
    assert_eq!(bool_setting(None), EnvSetting::Unset);
    assert_eq!(bool_setting(Some("true")), EnvSetting::Parsed(true));
    assert_eq!(bool_setting(Some("false")), EnvSetting::Parsed(false));
    assert_eq!(bool_setting(Some("True")), EnvSetting::Invalid);
    assert_eq!(bool_setting(Some("1")), EnvSetting::Invalid);
    assert_eq!(bool_setting(Some("")), EnvSetting::Invalid);
    for text in ["true", "false", "TRUE", "yes", " true"] {
        assert_eq!(bool_setting(Some(text)).ok(), text.parse::<bool>().ok(), "{text:?}");
    }
    assert!(!bool_setting(None).value_or(false));
    assert!(!bool_setting(Some("nope")).value_or(false));
    assert!(bool_setting(Some("true")).value_or(false));
    assert!(bool_setting(Some("nope")).is_invalid());
    assert!(!bool_setting(None).is_invalid());
}

#[test]
fn command_prefix_is_dollar() {
    assert_eq!(COMMAND_PREFIX, "$");
}
