use flightvars::error::ErrorKind;
use flightvars::oacsp::{Message, Offset, OffsetAddr, OffsetLen};

#[test]
fn should_encode_begin_msg() {
    let msg = Message::begin(1, "arduino");
    let buf = msg.encode().into_bytes();
    assert_eq!(buf, b"BEGIN 1 arduino\n")
}

#[test]
fn should_decode_begin_msg() {
    let msg = Message::decode("BEGIN 1 arduino\n").unwrap();
    assert_eq!(msg, Message::begin(1, "arduino"));
}

#[test]
fn should_encode_write_lvar_msg() {
    let msg = Message::write_lvar("foobar", 42);
    let buf = msg.encode().into_bytes();
    assert_eq!(buf, b"WRITE_LVAR foobar 42\n")
}

#[test]
fn should_decode_write_lvar_msg() {
    let msg = Message::decode("WRITE_LVAR foobar 42\n").unwrap();
    assert_eq!(msg, Message::write_lvar("foobar", 42));
}

#[test]
fn should_encode_write_offset_msg() {
    let msg = Message::write_offset(Offset(OffsetAddr(0x1234), OffsetLen::Uw), 42);
    let buf = msg.encode().into_bytes();
    assert_eq!(buf, b"WRITE_OFFSET 1234:UW 42\n")
}

#[test]
fn should_decode_write_offset_msg() {
    let msg = Message::decode("WRITE_OFFSET 1234:UW 42\n").unwrap();
    assert_eq!(msg, Message::write_offset(Offset(OffsetAddr(0x1234), OffsetLen::Uw), 42));
}

#[test]
fn should_encode_obs_lvar_msg() {
    let msg = Message::obs_lvar("foobar");
    let buf = msg.encode().into_bytes();
    assert_eq!(buf, b"OBS_LVAR foobar\n")
}

#[test]
fn should_decode_obs_lvar_msg() {
    let msg = Message::decode("OBS_LVAR foobar\n").unwrap();
    assert_eq!(msg, Message::obs_lvar("foobar"));
}

#[test]
fn decoding_an_encoded_message_gives_it_back() {
    let msgs = vec![
        Message::begin(65535, "client-a"),
        Message::write_lvar("gear", -9_223_372_036_854_775_808),
        Message::write_offset(Offset(OffsetAddr(0xabcd), OffsetLen::Sd), -1),
        Message::obs_lvar("flaps"),
    ];
    for m in msgs {
        let line = m.encode();
        assert_eq!(Message::decode(&line).unwrap(), m);
    }
}

#[test]
fn decoding_ignores_case_and_extra_whitespace() {
    let msg = Message::decode("  begin\t7   x  \n").unwrap();
    assert_eq!(msg, Message::begin(7, "x"));
}

#[test]
fn decoding_rejects_malformed_lines() {
    assert_eq!(Message::decode("").unwrap_err().kind(), ErrorKind::InvalidInput);
    assert_eq!(Message::decode("BEGIN 1\n").unwrap_err().kind(), ErrorKind::InvalidInput);
    assert_eq!(Message::decode("BEGIN 70000 x\n").unwrap_err().kind(), ErrorKind::InvalidInput);
    assert_eq!(Message::decode("HELLO x\n").unwrap_err().kind(), ErrorKind::InvalidInput);
    assert_eq!(Message::decode("WRITE_OFFSET 12345:UW 1\n").unwrap_err().kind(), ErrorKind::InvalidInput);
    assert_eq!(Message::decode("OBS_OFFSET 330\n").unwrap_err().kind(), ErrorKind::InvalidInput);
}

#[test]
fn offset_address_takes_one_to_four_hex_digits() {
    assert_eq!(OffsetAddr::from_hex("0330").unwrap(), OffsetAddr(0x330));
    assert_eq!(OffsetAddr::from_hex("330").unwrap(), OffsetAddr(0x330));
    assert_eq!(OffsetAddr::from_hex("A").unwrap(), OffsetAddr(0xa));
    assert_eq!(OffsetAddr::from_hex("12345").unwrap_err().kind(), ErrorKind::InvalidInput);
    assert_eq!(OffsetAddr::from_hex("").unwrap_err().kind(), ErrorKind::InvalidInput);
    assert_eq!(OffsetAddr::from_hex("zz00").unwrap_err().kind(), ErrorKind::InvalidInput);
}

#[test]
fn observe_offset_requests_round_trip() {
    let m = Message::obs_offset(Offset(OffsetAddr(0x330), OffsetLen::Uw));
    assert_eq!(m.encode().into_bytes(), b"OBS_OFFSET 330:UW\n");
    assert_eq!(Message::decode("obs_offset 0330:UW\n").unwrap(), m);
    assert_eq!(Message::decode("OBS_OFFSET 330:UW\n").unwrap(), m);
    assert_eq!(Message::decode("Begin 1 c\n").unwrap(), Message::begin(1, "c"));
    let w = Message::write_offset(Offset(OffsetAddr(0x7), OffsetLen::Sb), -3);
    assert_eq!(Message::decode(&w.encode()).unwrap(), w);
}

#[test]
fn decoded_canonical_lines_encode_with_single_spaces() {
    let m = Message::decode("WRITE_LVAR   foobar\t 42  \n").unwrap();
    assert_eq!(m.encode(), "WRITE_LVAR foobar 42\n");
    let m = Message::decode(" OBS_OFFSET  330:UW\n").unwrap();
    assert_eq!(m.encode(), "OBS_OFFSET 330:UW\n");
}
