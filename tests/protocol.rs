use flightvars::domain::Value;
use flightvars::offset::{Offset, OffsetAddr, OffsetLen};
use flightvars::protocol::{RawInputMessage, RawOutputMessage};

#[test]
fn should_parse_begin_msg() {
    let buf = "BEGIN 1 arduino";
    let msg = RawInputMessage::from_str(&buf).unwrap();
    assert_eq!(msg, RawInputMessage::begin(1, "arduino"));
}

#[test]
fn should_parse_write_lvar_msg() {
    let buf = "WRITE_LVAR foobar 42";
    let msg = RawInputMessage::from_str(&buf).unwrap();
    assert_eq!(msg, RawInputMessage::write_lvar("foobar", Value::Int(42)));
}

#[test]
fn should_parse_write_offset_msg() {
    let buf = "WRITE_OFFSET 1234:UW 42";
    let msg = RawInputMessage::from_str(&buf).unwrap();
    assert_eq!(
        msg,
        RawInputMessage::write_offset(
            Offset::new(OffsetAddr::from(0x1234), OffsetLen::UnsignedWord),
            Value::UnsignedInt(42)
        )
    );
}

#[test]
fn should_parse_obs_lvar_msg() {
    let buf = "OBS_LVAR foobar";
    let msg = RawInputMessage::from_str(&buf).unwrap();
    assert_eq!(msg, RawInputMessage::obs_lvar("foobar"));
}

#[test]
fn should_parse_obs_offset_msg() {
    let buf = "OBS_OFFSET 330:UW";
    let msg = RawInputMessage::from_str(&buf).unwrap();
    assert_eq!(msg, RawInputMessage::obs_offset(Offset::new(OffsetAddr::from(0x0330), OffsetLen::UnsignedWord)));
}

#[test]
fn should_fail_to_parse_empty_line() {
    let buf = "";
    assert!(RawInputMessage::from_str(&buf).is_err());
}

#[test]
fn should_display_event_lvar_msg() {
    let msg = RawOutputMessage::event_lvar("foobar", Value::Int(42));
    let buf = msg.to_string();
    assert_eq!(buf, "EVENT_LVAR foobar 42")
}

#[test]
fn should_display_event_offset_msg() {
    let msg = RawOutputMessage::event_offset(
        Offset::new(OffsetAddr::from(0x1234), OffsetLen::UnsignedWord),
        Value::Int(42),
    );
    let buf = msg.to_string();
    assert_eq!(buf, "EVENT_OFFSET 1234 42")
}
