use flightvars::domain::Value;
use flightvars::error::ErrorKind;
use flightvars::offset::{Offset, OffsetAddr, OffsetLen};

#[test]
fn should_decode_unsigned_byte_offset_value() {
    assert_eq!(OffsetLen::UnsignedByte.decode_value(&[42, 0, 0, 0]), Value::UnsignedInt(42));
}

#[test]
fn should_decode_signed_byte_offset_value() {
    assert_eq!(OffsetLen::SignedByte.decode_value(&[42, 0, 0, 0]), Value::Int(42));
}

#[test]
fn should_decode_unsigned_word_offset_value() {
    assert_eq!(OffsetLen::UnsignedWord.decode_value(&[0x01, 0x02, 0, 0]), Value::UnsignedInt(0x0201));
}

#[test]
fn should_decode_signed_word_offset_value() {
    assert_eq!(OffsetLen::SignedWord.decode_value(&[0x01, 0x02, 0, 0]), Value::Int(0x0201));
}

#[test]
fn should_decode_unsigned_double_offset_value() {
    assert_eq!(
        OffsetLen::UnsignedDouble.decode_value(&[0x01, 0x02, 0x03, 0x04]),
        Value::UnsignedInt(0x04030201)
    );
}

#[test]
fn should_decode_signed_double_offset_value() {
    assert_eq!(OffsetLen::SignedDouble.decode_value(&[0x01, 0x02, 0x03, 0x04]), Value::Int(0x04030201));
}

#[test]
fn should_display_offset_addr() {
    assert_eq!(OffsetAddr::from(0x1234).to_string(), "1234");
    assert_eq!(OffsetAddr::from(0xabcd).to_string(), "abcd");
}

#[test]
fn should_get_offset_addr_from_hex() {
    assert_eq!(OffsetAddr::from_hex("1234").unwrap(), OffsetAddr::from(0x1234));
    assert_eq!(OffsetAddr::from_hex("abcd").unwrap(), OffsetAddr::from(0xabcd));
}

#[test]
fn should_fail_get_offset_addr_from_invalid_hex() {
    assert_eq!(OffsetAddr::from_hex("").unwrap_err().kind(), ErrorKind::InvalidInput);
    assert_eq!(OffsetAddr::from_hex("foobar").unwrap_err().kind(), ErrorKind::InvalidInput);
}

#[test]
fn should_display_offset_len() {
    assert_eq!(OffsetLen::UnsignedByte.to_string(), "UB");
    assert_eq!(OffsetLen::SignedByte.to_string(), "SB");
    assert_eq!(OffsetLen::UnsignedWord.to_string(), "UW");
    assert_eq!(OffsetLen::SignedWord.to_string(), "SW");
    assert_eq!(OffsetLen::UnsignedDouble.to_string(), "UD");
    assert_eq!(OffsetLen::SignedDouble.to_string(), "SD");
}

#[test]
fn should_get_offset_len_from_str() {
    assert_eq!(OffsetLen::from_str("UB").unwrap(), OffsetLen::UnsignedByte);
    assert_eq!(OffsetLen::from_str("SB").unwrap(), OffsetLen::SignedByte);
    assert_eq!(OffsetLen::from_str("UW").unwrap(), OffsetLen::UnsignedWord);
    assert_eq!(OffsetLen::from_str("SW").unwrap(), OffsetLen::SignedWord);
    assert_eq!(OffsetLen::from_str("UD").unwrap(), OffsetLen::UnsignedDouble);
    assert_eq!(OffsetLen::from_str("SD").unwrap(), OffsetLen::SignedDouble);
}

#[test]
fn should_fail_get_offset_len_from_invalid_str() {
    assert_eq!(OffsetLen::from_str("").unwrap_err().kind(), ErrorKind::InvalidInput);
    assert_eq!(OffsetLen::from_str("foobar").unwrap_err().kind(), ErrorKind::InvalidInput);
}

#[test]
fn should_display_offset() {
    assert_eq!(Offset::new(OffsetAddr::from(0x1234), OffsetLen::UnsignedWord).to_string(), "1234:UW");
    assert_eq!(Offset::new(OffsetAddr::from(0xabcd), OffsetLen::SignedByte).to_string(), "abcd:SB");
}

#[test]
fn should_get_offset_from_str() {
    assert_eq!(
        Offset::from_str("1234:UW").unwrap(),
        Offset::new(OffsetAddr::from(0x1234), OffsetLen::UnsignedWord)
    );
    assert_eq!(
        Offset::from_str("abcd:SB").unwrap(),
        Offset::new(OffsetAddr::from(0xabcd), OffsetLen::SignedByte)
    );
}

#[test]
fn should_fail_get_offset_from_invalid_str() {
    assert_eq!(Offset::from_str("").unwrap_err().kind(), ErrorKind::InvalidInput);
    assert_eq!(Offset::from_str("foobar").unwrap_err().kind(), ErrorKind::InvalidInput);
}

#[test]
fn offset_sizes_are_one_two_or_four() {
    assert_eq!(OffsetLen::UnsignedByte.byte_size(), 1);
    assert_eq!(OffsetLen::SignedWord.byte_size(), 2);
    assert_eq!(OffsetLen::SignedDouble.byte_size(), 4);
    assert_eq!(usize::from(OffsetLen::UnsignedByte), 1);
    assert_eq!(usize::from(OffsetLen::SignedWord), 2);
    assert_eq!(usize::from(OffsetLen::UnsignedDouble), 4);
}

#[test]
fn zero_bytes_decode_to_zero() {
    assert_eq!(OffsetLen::SignedByte.decode_value(&[0, 0, 0, 0]), Value::Int(0));
    assert_eq!(OffsetLen::UnsignedWord.decode_value(&[0, 0, 0, 0]), Value::UnsignedInt(0));
    assert_eq!(OffsetLen::SignedDouble.decode_value(&[0, 0, 0, 0]), Value::Int(0));
}

#[test]
fn negative_values_decode_in_twos_complement() {
    assert_eq!(OffsetLen::SignedByte.decode_value(&[0xff, 0, 0, 0]), Value::Int(-1));
    assert_eq!(OffsetLen::SignedWord.decode_value(&[0x00, 0x80, 0, 0]), Value::Int(-32768));
    assert_eq!(OffsetLen::SignedDouble.decode_value(&[0xfe, 0xff, 0xff, 0xff]), Value::Int(-2));
}

#[test]
fn encode_then_decode_is_identity() {
    let cases = [
        (OffsetLen::UnsignedByte, Value::UnsignedInt(200)),
        (OffsetLen::SignedByte, Value::Int(-100)),
        (OffsetLen::UnsignedWord, Value::UnsignedInt(0xbeef)),
        (OffsetLen::SignedWord, Value::Int(-12345)),
        (OffsetLen::UnsignedDouble, Value::UnsignedInt(0xdeadbeef)),
        (OffsetLen::SignedDouble, Value::Int(-2_000_000_000)),
    ];
    for (len, v) in cases.iter() {
        assert_eq!(len.decode_value(&len.encode_value(*v)), *v);
    }
}

#[test]
fn encoding_truncates_to_the_width() {
    assert_eq!(OffsetLen::UnsignedByte.encode_value(Value::UnsignedInt(0x1234)), [0x34, 0, 0, 0]);
    assert_eq!(OffsetLen::SignedWord.encode_value(Value::Int(-1)), [0xff, 0xff, 0, 0]);
    assert_eq!(OffsetLen::UnsignedDouble.encode_value(Value::Bool(true)), [1, 0, 0, 0]);
}

#[test]
fn offset_address_accepts_short_and_upper_case_hex() {
    assert_eq!(OffsetAddr::from_hex("330").unwrap(), OffsetAddr::from(0x330));
    assert_eq!(OffsetAddr::from_hex("ABCD").unwrap(), OffsetAddr::from(0xabcd));
    assert_eq!(OffsetAddr::from_hex("12345").unwrap_err().kind(), ErrorKind::InvalidInput);
}

#[test]
fn offset_needs_exactly_one_colon() {
    assert_eq!(Offset::from_str("12:34:UW").unwrap_err().kind(), ErrorKind::InvalidInput);
    assert_eq!(Offset::from_str("1234:XX").unwrap_err().kind(), ErrorKind::InvalidInput);
}

#[test]
fn offset_parses_values_by_signedness() {
    let signed = Offset::new(OffsetAddr::from(0x1234), OffsetLen::SignedWord);
    let unsigned = Offset::new(OffsetAddr::from(0x1234), OffsetLen::UnsignedWord);
    assert_eq!(signed.parse_value("-42").unwrap(), Value::Int(-42));
    assert_eq!(unsigned.parse_value("42").unwrap(), Value::UnsignedInt(42));
    assert_eq!(unsigned.parse_value("-42").unwrap_err().kind(), ErrorKind::InvalidInput);
    assert_eq!(signed.parse_value("4x").unwrap_err().kind(), ErrorKind::InvalidInput);
}
