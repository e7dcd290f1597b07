use lilliput::value::integer::{IntValue, SignedIntValue, UnsignedIntValue};
use lilliput::value::{BoolValue, BytesValue, NullValue, StringValue, UnitValue};

#[test]
fn int_display() {
    assert_eq!(IntValue::from(42_u8).to_display_string(), "42");
    assert_eq!(IntValue::from(42_u16).to_display_string(), "42");
    assert_eq!(IntValue::from(42_u32).to_display_string(), "42");
    assert_eq!(IntValue::from(42_u64).to_display_string(), "42");

    assert_eq!(IntValue::from(42_i8).to_display_string(), "42");
    assert_eq!(IntValue::from(42_i16).to_display_string(), "42");
    assert_eq!(IntValue::from(42_i32).to_display_string(), "42");
    assert_eq!(IntValue::from(42_i64).to_display_string(), "42");
}

#[test]
fn int_debug() {
    assert_eq!(IntValue::from(42_u8).to_debug_string(false), "42");
    assert_eq!(IntValue::from(42_u16).to_debug_string(false), "42");
    assert_eq!(IntValue::from(42_u32).to_debug_string(false), "42");
    assert_eq!(IntValue::from(42_u64).to_debug_string(false), "42");

    assert_eq!(IntValue::from(42_i8).to_debug_string(false), "42");
    assert_eq!(IntValue::from(42_i16).to_debug_string(false), "42");
    assert_eq!(IntValue::from(42_i32).to_debug_string(false), "42");
    assert_eq!(IntValue::from(42_i64).to_debug_string(false), "42");

    assert_eq!(IntValue::from(42_u8).to_debug_string(true), "42_u8");
    assert_eq!(IntValue::from(42_u16).to_debug_string(true), "42_u16");
    assert_eq!(IntValue::from(42_u32).to_debug_string(true), "42_u32");
    assert_eq!(IntValue::from(42_u64).to_debug_string(true), "42_u64");

    assert_eq!(IntValue::from(42_i8).to_debug_string(true), "42_i8");
    assert_eq!(IntValue::from(42_i16).to_debug_string(true), "42_i16");
    assert_eq!(IntValue::from(42_i32).to_debug_string(true), "42_i32");
    assert_eq!(IntValue::from(42_i64).to_debug_string(true), "42_i64");
}

#[test]
fn signed_display() {
    assert_eq!(SignedIntValue::from(42_i8).to_display_string(), "42");
    assert_eq!(SignedIntValue::from(42_i16).to_display_string(), "42");
    assert_eq!(SignedIntValue::from(42_i32).to_display_string(), "42");
    assert_eq!(SignedIntValue::from(42_i64).to_display_string(), "42");
}

#[test]
fn signed_debug() {
    assert_eq!(SignedIntValue::from(42_i8).to_debug_string(false), "42");
    assert_eq!(SignedIntValue::from(42_i16).to_debug_string(false), "42");
    assert_eq!(SignedIntValue::from(42_i32).to_debug_string(false), "42");
    assert_eq!(SignedIntValue::from(42_i64).to_debug_string(false), "42");

    assert_eq!(SignedIntValue::from(42_i8).to_debug_string(true), "42_i8");
    assert_eq!(SignedIntValue::from(42_i16).to_debug_string(true), "42_i16");
    assert_eq!(SignedIntValue::from(42_i32).to_debug_string(true), "42_i32");
    assert_eq!(SignedIntValue::from(42_i64).to_debug_string(true), "42_i64");
}

#[test]
fn unsigned_display() {
    assert_eq!(UnsignedIntValue::from(42_u8).to_display_string(), "42");
    assert_eq!(UnsignedIntValue::from(42_u16).to_display_string(), "42");
    assert_eq!(UnsignedIntValue::from(42_u32).to_display_string(), "42");
    assert_eq!(UnsignedIntValue::from(42_u64).to_display_string(), "42");
}

#[test]
fn unsigned_debug() {
    assert_eq!(UnsignedIntValue::from(42_u8).to_debug_string(false), "42");
    assert_eq!(UnsignedIntValue::from(42_u16).to_debug_string(false), "42");
    assert_eq!(UnsignedIntValue::from(42_u32).to_debug_string(false), "42");
    assert_eq!(UnsignedIntValue::from(42_u64).to_debug_string(false), "42");

    assert_eq!(UnsignedIntValue::from(42_u8).to_debug_string(true), "42_u8");
    assert_eq!(UnsignedIntValue::from(42_u16).to_debug_string(true), "42_u16");
    assert_eq!(UnsignedIntValue::from(42_u32).to_debug_string(true), "42_u32");
    assert_eq!(UnsignedIntValue::from(42_u64).to_debug_string(true), "42_u64");
}

#[test]
fn extreme_integers_in_decimal() {
    assert_eq!(SignedIntValue::from(i64::MIN).to_display_string(), "-9223372036854775808");
    assert_eq!(SignedIntValue::from(i8::MIN).to_debug_string(true), "-128_i8");
    assert_eq!(SignedIntValue::from(0_i32).to_display_string(), "0");
    assert_eq!(UnsignedIntValue::from(u64::MAX).to_display_string(), "18446744073709551615");
    assert_eq!(UnsignedIntValue::from(0_u16).to_debug_string(true), "0_u16");
}

#[test]
fn bool_display() {
    assert_eq!(BoolValue::from(false).to_display_string(), "false");
    assert_eq!(BoolValue::from(true).to_display_string(), "true");
}

#[test]
fn bool_debug() {
    assert_eq!(BoolValue::from(false).to_debug_string(false), "false");
    assert_eq!(BoolValue::from(true).to_debug_string(false), "true");

    assert_eq!(BoolValue::from(false).to_debug_string(true), "false");
    assert_eq!(BoolValue::from(true).to_debug_string(true), "true");
}

#[test]
fn bytes_display() {
    assert_eq!(BytesValue::from(vec![1, 2, 3]).to_display_string(), "[01, 02, 03]");
}

#[test]
fn bytes_display_in_lower_case_hexadecimal() {
    assert_eq!(BytesValue::from(vec![]).to_display_string(), "[]");
    assert_eq!(
        BytesValue::from(vec![0x0a, 0x10, 0xff, 0x00]).to_display_string(),
        "[0a, 10, ff, 00]"
    );
}

#[test]
fn bytes_debug() {
    assert_eq!(
        BytesValue::from(vec![1, 2, 3]).to_debug_string(false),
        "[00000001, 00000010, 00000011]"
    );

    assert_eq!(
        BytesValue::from(vec![1, 2, 3]).to_debug_string(true),
        "[0b00000001, 0b00000010, 0b00000011]"
    );
}

#[test]
fn bytes_debug_of_empty_and_full_bytes() {
    assert_eq!(BytesValue::from(vec![]).to_debug_string(false), "[]");
    assert_eq!(BytesValue::from(vec![255]).to_debug_string(true), "[0b11111111]");
}

#[test]
fn null_display() {
    assert_eq!(NullValue.to_display_string(), "null");
}

#[test]
fn null_debug() {
    assert_eq!(NullValue.to_debug_string(false), "null");
    assert_eq!(NullValue.to_debug_string(true), "null");
}

#[test]
fn unit_display() {
    assert_eq!(UnitValue::default().to_display_string(), "unit");
}

#[test]
fn unit_debug() {
    assert_eq!(UnitValue::default().to_debug_string(false), "unit");
    assert_eq!(UnitValue::default().to_debug_string(true), "unit");
}

#[test]
fn string_display() {
    assert_eq!(
        StringValue::from("lorem ipsum".to_owned()).to_display_string(),
        "lorem ipsum"
    );
}

#[test]
fn string_debug() {
    assert_eq!(
        StringValue::from("lorem ipsum".to_owned()).to_debug_string(false),
        "\"lorem ipsum\""
    );

    assert_eq!(
        StringValue::from("lorem ipsum".to_owned()).to_debug_string(true),
        "\"lorem ipsum\""
    );
}

#[test]
fn string_debug_escapes_quotes_and_newlines() {
    assert_eq!(
        StringValue::from("a\"b\nc".to_owned()).to_debug_string(false),
        "\"a\\\"b\\nc\""
    );
}
