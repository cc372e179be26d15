use flightvars::buffer::Buffer;

#[test]
fn should_init_empty() {
    let buf = Buffer::with_capacity(16);
    assert_eq!(buf.len(), 0);
}

#[test]
fn should_extend() {
    let mut buf = Buffer::with_capacity(16);
    buf.extend(4);
    assert_eq!(buf.len(), 4);
    buf.extend(2);
    assert_eq!(buf.len(), 6);
}

#[test]
fn buffer_reports_remaining_room_and_consumes_from_front() {
    let mut buf = Buffer::with_capacity(16);
    buf.extend(6);
    assert_eq!(buf.remaining(), 10);
    buf.consume(4);
    assert_eq!(buf.len(), 2);
    assert_eq!(buf.remaining(), 14);
    buf.clear();
    assert_eq!(buf.as_slice().len(), 0);
}
