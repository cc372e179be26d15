use std::sync::mpsc;

use flightvars::connection::{reader_step, ReaderAction};
use flightvars::domain::{Client, Command, Event, Value, Var};
use flightvars::error::{normalize_interrupt, Error, ErrorKind};
use flightvars::fsuipc::{self, WriteOp};
use flightvars::lvar;
use flightvars::offset::{Offset, OffsetAddr, OffsetLen};
use flightvars::protocol::{encode_event, MessageParser, RawInputMessage, Session};
use flightvars::router::{route, Route};
use flightvars::worker::{Envelope, Step, Worker};

fn client(name: &str) -> (Client, mpsc::Receiver<Event>) {
    let (tx, rx) = mpsc::channel();
    (Client::new(name, tx), rx)
}

fn offset(addr: u16, len: OffsetLen) -> Offset {
    Offset::new(OffsetAddr::from(addr), len)
}

fn deliver(handler: &mut fsuipc::Handler, events: &[(usize, Event)]) {
    for (i, e) in events {
        if let Event::Update(_, v) = e {
            handler.mark_reported(*i, *v);
        }
    }
}

fn deliver_lvar(handler: &mut lvar::Handler, events: &[(usize, Event)]) {
    for (i, e) in events {
        if let Event::Update(_, v) = e {
            handler.mark_reported(*i, *v);
        }
    }
}

fn lines(events: &[(usize, Event)]) -> Vec<String> {
    events.iter().map(|(_, e)| encode_event(e).unwrap()).collect()
}

#[test]
fn handshake_rejection_closes_the_connection() {
    let (c, _rx) = client("10.0.0.1:5000");
    let mut session = Session::new(c);
    let read = session.process_line("WRITE_LVAR foo 1\n");
    assert_eq!(read.as_ref().err().map(|e| e.kind()), Some(ErrorKind::InvalidData));
    match reader_step(false, read, "10.0.0.1:5000") {
        ReaderAction::Close(Command::Close(name)) => assert_eq!(name, "10.0.0.1:5000"),
        _ => panic!("the reader must close the connection"),
    }
}

#[test]
fn basic_write_reaches_the_fsuipc_domain() {
    let (c, _rx) = client("client-a");
    let mut session = Session::new(c);
    assert!(session.process_line("BEGIN 1 client-a\n").unwrap().is_none());
    let cmd = session.process_line("WRITE_OFFSET 1234:UW 42\n").unwrap().unwrap();
    assert_eq!(route(&cmd), Route::Fsuipc);
    match &cmd {
        Command::Write(v, x) => {
            assert_eq!(*v, Var::FsuipcOffset(offset(0x1234, OffsetLen::UnsignedWord)));
            assert_eq!(*x, Value::UnsignedInt(42));
        },
        _ => panic!("expected a write"),
    }
    let mut handler = fsuipc::Handler::new();
    handler.command(cmd);
    assert_eq!(handler.next_write(), Some(WriteOp::Word(0x1234, 42)));
    assert_eq!(handler.next_write(), None);
}

fn observe_offset_0330(handler: &mut fsuipc::Handler, name: &str) {
    let (c, _rx) = client(name);
    let mut session = Session::new(c);
    session.process_line("BEGIN 1 c\n").unwrap();
    let cmd = session.process_line("OBS_OFFSET 0330:UW\n").unwrap().unwrap();
    assert_eq!(route(&cmd), Route::Fsuipc);
    handler.command(cmd);
}

#[test]
fn subscription_fires_once_then_is_silent() {
    let mut handler = fsuipc::Handler::new();
    observe_offset_0330(&mut handler, "c");
    assert_eq!(handler.read_requests(), vec![(0x330, 2)]);
    let first = handler.poll(&vec![[7, 0, 0, 0]]);
    deliver(&mut handler, &first);
    let second = handler.poll(&vec![[7, 0, 0, 0]]);
    assert_eq!(lines(&first), vec!["EVENT_OFFSET 330 7\n".to_string()]);
    assert!(second.is_empty());
}

#[test]
fn change_triggers_emission() {
    let mut handler = fsuipc::Handler::new();
    observe_offset_0330(&mut handler, "c");
    let first = handler.poll(&vec![[7, 0, 0, 0]]);
    deliver(&mut handler, &first);
    let second = handler.poll(&vec![[8, 0, 0, 0]]);
    assert_eq!(lines(&first), vec!["EVENT_OFFSET 330 7\n".to_string()]);
    assert_eq!(lines(&second), vec!["EVENT_OFFSET 330 8\n".to_string()]);
}

#[test]
fn close_stops_events_to_that_client() {
    let mut handler = fsuipc::Handler::new();
    observe_offset_0330(&mut handler, "a");
    observe_offset_0330(&mut handler, "b");
    handler.command(Command::Close("a".to_string()));
    assert_eq!(handler.subscription_count(), 1);
    let out = handler.poll(&vec![[1, 0, 0, 0]]);
    assert_eq!(out.len(), 1);
    assert_eq!(handler.client(out[0].0).name(), "b");
}

#[test]
fn write_then_poll_reports_the_written_value_once() {
    let mut handler = fsuipc::Handler::new();
    observe_offset_0330(&mut handler, "a");
    let first = handler.poll(&vec![[5, 0, 0, 0]]);
    deliver(&mut handler, &first);
    let o = offset(0x330, OffsetLen::UnsignedWord);
    handler.command(Command::Write(Var::FsuipcOffset(o), Value::UnsignedInt(9)));
    assert_eq!(handler.next_write(), Some(WriteOp::Word(0x330, 9)));
    let written = OffsetLen::UnsignedWord.encode_value(Value::UnsignedInt(9));
    let out = handler.poll(&vec![written]);
    assert_eq!(lines(&out), vec!["EVENT_OFFSET 330 9\n".to_string()]);
    deliver(&mut handler, &out);
    assert!(handler.poll(&vec![written]).is_empty());
}

#[test]
fn timed_out_write_is_retried_first() {
    let mut handler = fsuipc::Handler::new();
    let o1 = offset(0x100, OffsetLen::UnsignedByte);
    let o2 = offset(0x200, OffsetLen::SignedDouble);
    handler.command(Command::Write(Var::FsuipcOffset(o1), Value::UnsignedInt(0x1ff)));
    handler.command(Command::Write(Var::FsuipcOffset(o2), Value::Int(-1)));
    let op = handler.next_write().unwrap();
    assert_eq!(op, WriteOp::Byte(0x100, 0xff));
    assert!(!handler.finish_write(op, Some(ErrorKind::TimedOut)));
    assert_eq!(handler.next_write(), Some(WriteOp::Byte(0x100, 0xff)));
    assert!(handler.finish_write(op, None));
    let op2 = handler.next_write().unwrap();
    assert_eq!(op2, WriteOp::DWord(0x200, 0xffff_ffff));
    assert!(!handler.finish_write(op2, Some(ErrorKind::Other)));
    assert_eq!(handler.next_write(), None);
}

#[test]
fn lvar_domain_reports_changes_and_hands_back_writes() {
    let mut handler = lvar::Handler::new();
    let (c, _rx) = client("a");
    assert!(handler.command(Command::Observe(Var::lvar("gear"), c)).is_none());
    let w = handler.command(Command::Write(Var::lvar("gear"), Value::Bool(true)));
    assert_eq!(w, Some(("gear".to_string(), Value::Bool(true))));
    assert_eq!(handler.lvar(0), "gear");
    let first = handler.poll(&vec![Some(1)]);
    assert_eq!(lines(&first), vec!["EVENT_LVAR gear 1\n".to_string()]);
    deliver_lvar(&mut handler, &first);
    assert!(handler.poll(&vec![Some(1)]).is_empty());
    assert!(handler.poll(&vec![None]).is_empty());
    assert_eq!(handler.poll(&vec![Some(-3)]).len(), 1);
    assert!(handler.command(Command::Close("a".to_string())).is_none());
    assert_eq!(handler.subscription_count(), 0);
}

#[test]
fn reader_keeps_waiting_on_timeouts() {
    let (c, _rx) = client("c");
    let mut session = Session::new(c);
    let begin = session.process_line("BEGIN 1 c\n");
    assert!(matches!(reader_step(false, begin, "c"), ReaderAction::Continue));
    let timeout: Result<Option<Command>, Error> = Err(Error::new(ErrorKind::TimedOut));
    assert!(matches!(reader_step(false, timeout, "c"), ReaderAction::Continue));
    let aborted: Result<Option<Command>, Error> = Err(Error::new(ErrorKind::ConnectionAborted));
    assert!(matches!(reader_step(true, aborted, "c"), ReaderAction::Exit));
    assert!(session.is_begun());
}

#[test]
fn repeated_begin_is_a_handshake_violation() {
    let (c, _rx) = client("c");
    let mut session = Session::new(c);
    session.process_line("BEGIN 1 c\n").unwrap();
    let again = session.process_line("BEGIN 1 c\n");
    assert_eq!(again.err().map(|e| e.kind()), Some(ErrorKind::InvalidData));
}

#[test]
fn parser_reads_every_verb() {
    match MessageParser::new("begin 1 arduino").parse().unwrap() {
        RawInputMessage::Begin { version, client_id } => {
            assert_eq!(version, 1);
            assert_eq!(client_id, "arduino");
        },
        _ => panic!("expected BEGIN"),
    }
    match MessageParser::new("WRITE_LVAR foobar -42").parse().unwrap() {
        RawInputMessage::WriteLvar { lvar, value } => {
            assert_eq!(lvar, "foobar");
            assert_eq!(value, Value::Int(-42));
        },
        _ => panic!("expected WRITE_LVAR"),
    }
    match MessageParser::new("WRITE_OFFSET 1234:SW -2").parse().unwrap() {
        RawInputMessage::WriteOffset { offset: o, value } => {
            assert_eq!(o, offset(0x1234, OffsetLen::SignedWord));
            assert_eq!(value, Value::Int(-2));
        },
        _ => panic!("expected WRITE_OFFSET"),
    }
    assert!(matches!(MessageParser::new("OBS_LVAR foobar").parse().unwrap(), RawInputMessage::ObserveLvar { .. }));
    assert!(matches!(MessageParser::new("obs_offset 330:UB").parse().unwrap(), RawInputMessage::ObserveOffset { .. }));
}

#[test]
fn parser_rejects_malformed_lines() {
    for line in ["", "   ", "FOO 1", "OBS_LVAR", "OBS_LVAR a b", "WRITE_LVAR x y", "WRITE_OFFSET 1234:UW -1", "BEGIN -1 c"] {
        let e = MessageParser::new(line).parse().err().unwrap();
        assert_eq!(e.kind(), ErrorKind::InvalidInput);
    }
}

#[test]
fn close_is_routed_to_both_domains() {
    let (c, _rx) = client("a");
    assert_eq!(route(&Command::Close("a".to_string())), Route::Both);
    assert_eq!(route(&Command::Observe(Var::lvar("x"), c)), Route::LVar);
    assert_eq!(route(&Command::Write(Var::lvar("x"), Value::Int(1))), Route::LVar);
}

#[test]
fn events_render_as_protocol_lines() {
    let e = Event::Update(Var::lvar("foobar"), Value::Int(42));
    assert_eq!(encode_event(&e).unwrap(), "EVENT_LVAR foobar 42\n");
    let e = Event::Update(Var::FsuipcOffset(offset(0x1234, OffsetLen::SignedByte)), Value::Int(-5));
    assert_eq!(encode_event(&e).unwrap(), "EVENT_OFFSET 1234 -5\n");
    let e = Event::Update(Var::lvar("x"), Value::Bool(false));
    assert_eq!(encode_event(&e).unwrap(), "EVENT_LVAR x false\n");
    assert!(encode_event(&Event::Close).is_none());
}

#[test]
fn worker_steps_follow_the_queue() {
    let mut worker = Worker::new();
    let tx = worker.sender();
    assert!(matches!(worker.step(Ok(None)), Step::Poll));
    tx.send(Envelope::Cmd(Command::Write(Var::lvar("foobar"), Value::Bool(true)))).unwrap();
    let got = worker.receive(std::time::Duration::from_millis(10));
    assert!(matches!(worker.step(got), Step::Handle(Command::Write(_, Value::Bool(true)))));
    tx.send(Envelope::Shutdown).unwrap();
    let got = worker.receive(std::time::Duration::from_millis(10));
    assert!(matches!(worker.step(got), Step::Stop));
    assert!(!worker.is_running());
}

#[test]
fn values_render_and_parse() {
    assert_eq!(Value::Int(-17).to_string(), "-17");
    assert_eq!(Value::UnsignedInt(0).to_string(), "0");
    assert_eq!(Value::Bool(true).to_string(), "true");
    assert_eq!(Value::parse_int("+12").unwrap(), Value::Int(12));
    assert_eq!(Value::parse_uint("18446744073709551616").unwrap_err().kind(), ErrorKind::InvalidInput);
    assert_eq!(Value::parse_int("-9223372036854775808").unwrap(), Value::Int(isize::MIN));
}

#[test]
fn closed_socket_errors_count_as_aborted() {
    assert_eq!(normalize_interrupt(ErrorKind::Other, Some(9)), ErrorKind::ConnectionAborted);
    assert_eq!(normalize_interrupt(ErrorKind::Other, Some(10004)), ErrorKind::ConnectionAborted);
    assert_eq!(normalize_interrupt(ErrorKind::Other, Some(5)), ErrorKind::Other);
    assert_eq!(normalize_interrupt(ErrorKind::TimedOut, Some(9)), ErrorKind::TimedOut);
}

#[test]
fn raw_input_builders_match_parsed_lines() {
    match RawInputMessage::obs_offset(offset(0x330, OffsetLen::UnsignedWord)) {
        RawInputMessage::ObserveOffset { offset: o } => assert_eq!(o, offset(0x330, OffsetLen::UnsignedWord)),
        _ => panic!("expected OBS_OFFSET"),
    }
    match RawInputMessage::begin(1, "arduino") {
        RawInputMessage::Begin { version, client_id } => {
            assert_eq!(version, 1);
            assert_eq!(client_id, "arduino");
        },
        _ => panic!("expected BEGIN"),
    }
}

#[test]
fn undelivered_report_is_owed_again() {
    let mut handler = fsuipc::Handler::new();
    observe_offset_0330(&mut handler, "c");
    let first = handler.poll(&vec![[7, 0, 0, 0]]);
    assert_eq!(first.len(), 1);
    let again = handler.poll(&vec![[7, 0, 0, 0]]);
    assert_eq!(lines(&again), vec!["EVENT_OFFSET 330 7\n".to_string()]);
    deliver(&mut handler, &again);
    assert!(handler.poll(&vec![[7, 0, 0, 0]]).is_empty());
}
