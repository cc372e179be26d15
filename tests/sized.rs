use flightvars::error::ErrorKind;
use flightvars::sized::Offset;

#[test]
fn types_should_display_offset_addr() {
    assert_eq!(Offset(0x1234, 1).to_string(), "1234+1");
    assert_eq!(Offset(0xabcd, 2).to_string(), "abcd+2");
}

#[test]
fn should_get_offset_addr_from_str() {
    assert_eq!(Offset::from_str("1234+1").unwrap(), Offset(0x1234, 1));
    assert_eq!(Offset::from_str("abcd+2").unwrap(), Offset(0xabcd, 2));
}

#[test]
fn should_fail_get_offset_addr_from_invalid_str() {
    assert_eq!(Offset::from_str("").unwrap_err().kind(), ErrorKind::InvalidInput);
    assert_eq!(Offset::from_str("foobar").unwrap_err().kind(), ErrorKind::InvalidInput);
    assert_eq!(Offset::from_str("1234").unwrap_err().kind(), ErrorKind::InvalidInput);
}

#[test]
fn sized_offset_accepts_only_sizes_one_two_four() {
    assert_eq!(Offset::from(0x330, 4), Some(Offset(0x330, 4)));
    assert_eq!(Offset::from(0x330, 2), Some(Offset(0x330, 2)));
    assert_eq!(Offset::from(0x330, 8), None);
    assert_eq!(Offset::from(0x330, 3), None);
    assert_eq!(Offset::from(0x330, 0), None);
}

#[test]
fn sized_offset_rejects_out_of_range_parts() {
    assert_eq!(Offset::from_str("10000+1").unwrap_err().kind(), ErrorKind::InvalidInput);
    assert_eq!(Offset::from_str("0001234+256").unwrap_err().kind(), ErrorKind::InvalidInput);
    assert_eq!(Offset::from_str("0001234+2").unwrap(), Offset(0x1234, 2));
    assert_eq!(Offset::from_str("1234+3").unwrap_err().kind(), ErrorKind::InvalidInput);
    assert_eq!(Offset::from_str("1234+8").unwrap_err().kind(), ErrorKind::InvalidInput);
    assert_eq!(Offset::from_str("1234+4").unwrap(), Offset(0x1234, 4));
}
