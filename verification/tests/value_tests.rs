use mpv_remote::error::MpvError;
use mpv_remote::fixed::Fixed;
use mpv_remote::value::PropertyValue;

#[test]
fn coercions_succeed_on_their_own_kind() {
    assert_eq!(PropertyValue::Bool(true).as_bool().unwrap(), true);
    assert_eq!(PropertyValue::Int(7).as_i64().unwrap(), 7);
    assert_eq!(PropertyValue::Num(Fixed { micros: 1_500_000 }).as_num().unwrap().micros, 1_500_000);
}

#[test]
fn whole_numbers_coerce_to_numbers_scaled() {
    assert_eq!(PropertyValue::Int(48).as_num().unwrap().micros, 48_000_000);
    assert_eq!(PropertyValue::Int(-2).as_num().unwrap().micros, -2_000_000);
}

#[test]
fn wrong_kinds_are_coercion_errors() {
    assert_eq!(PropertyValue::Int(1).as_bool().unwrap_err(), MpvError::Coercion);
    assert_eq!(PropertyValue::Null.as_num().unwrap_err(), MpvError::Coercion);
    assert_eq!(
        PropertyValue::Num(Fixed { micros: 3_000_000 }).as_i64().unwrap_err(),
        MpvError::Coercion
    );
    assert_eq!(
        PropertyValue::Str(String::from("48")).as_num().unwrap_err(),
        MpvError::Coercion
    );
}

#[test]
fn display_strings_render_each_kind() {
    assert_eq!(PropertyValue::Bool(true).to_display_string(), "true");
    assert_eq!(PropertyValue::Bool(false).to_display_string(), "false");
    assert_eq!(PropertyValue::Null.to_display_string(), "null");
    assert_eq!(PropertyValue::Int(-42).to_display_string(), "-42");
    assert_eq!(
        PropertyValue::Num(Fixed { micros: 120_500_000 }).to_display_string(),
        "120.5"
    );
    assert_eq!(PropertyValue::Str(String::from("Movie")).to_display_string(), "Movie");
}

#[test]
fn decimal_renderings_are_exact() {
    assert_eq!(Fixed { micros: 50_000_000 }.to_decimal_string(), "50");
    assert_eq!(Fixed { micros: 0 }.to_decimal_string(), "0");
    assert_eq!(Fixed { micros: 1 }.to_decimal_string(), "0.000001");
    assert_eq!(Fixed { micros: -1 }.to_decimal_string(), "-0.000001");
    assert_eq!(Fixed { micros: -2_500_000 }.to_decimal_string(), "-2.5");
    assert_eq!(Fixed { micros: 3_600_000_000 }.to_decimal_string(), "3600");
    assert_eq!(Fixed { micros: i64::MAX }.to_decimal_string(), "9223372036854.775807");
    assert_eq!(Fixed { micros: i64::MIN }.to_decimal_string(), "-9223372036854.775808");
}

#[test]
fn fixed_arithmetic_is_checked() {
    let a = Fixed { micros: 48_000_000 };
    let step = Fixed { micros: 2_000_000 };
    assert_eq!(a.checked_add(step).unwrap().micros, 50_000_000);
    assert_eq!(a.checked_sub(step).unwrap().micros, 46_000_000);
    assert!(Fixed { micros: i64::MAX }.checked_add(step).is_none());
    assert!(Fixed { micros: i64::MIN }.checked_sub(step).is_none());
    assert_eq!(Fixed::from_units(48).unwrap().micros, 48_000_000);
    assert!(Fixed::from_units(i64::MAX).is_none());
}

#[test]
fn error_descriptions_name_each_kind() {
    assert_eq!(MpvError::Connection.describe(), "connection refused or endpoint unreachable");
    assert_eq!(MpvError::Timeout.describe(), "no reply within the time bound");
}
