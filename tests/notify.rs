use std::time;

use flightvars::channel::Received;
use flightvars::notify::{notification, received, NotifyError};

#[test]
fn should_send_and_receive() {
    let (tx, rx) = notification();
    assert!(tx.send(42).is_ok());
    let msg = rx.recv_timeout(time::Duration::new(1, 0)).unwrap();
    assert_eq!(msg, Some(42));
}

#[test]
fn should_timeout_if_no_msg_was_received() {
    let (_tx, rx) = notification::<isize>();
    let msg = rx.recv_timeout(time::Duration::from_millis(50)).unwrap();
    assert_eq!(msg, None);
}

#[test]
fn should_fail_when_producer_is_closed() {
    let rx;
    {
        let (_tx, r) = notification::<isize>();
        rx = r;
    }
    let result = rx.recv_timeout(time::Duration::from_millis(50));
    assert_eq!(result.unwrap_err(), NotifyError);
}

#[test]
fn should_fail_when_consumer_is_closed() {
    let (tx, _) = notification();
    assert_eq!(tx.send(42).unwrap_err(), NotifyError);
}

#[test]
fn cloned_senders_feed_the_same_receiver() {
    let (tx, rx) = notification();
    let tx2 = tx.clone();
    tx2.send(7).unwrap();
    assert_eq!(rx.recv().unwrap(), Some(7));
    assert_eq!(rx.recv().unwrap(), None);
}

#[test]
fn receive_outcomes_map_to_results() {
    assert_eq!(received(Received::Item(3)), Ok(Some(3)));
    assert_eq!(received::<i32>(Received::Empty), Ok(None));
    assert_eq!(received::<i32>(Received::Disconnected), Err(NotifyError));
}

#[test]
fn send_outcome_maps_to_result() {
    assert_eq!(flightvars::notify::sent(true), Ok(()));
    assert_eq!(flightvars::notify::sent(false), Err(NotifyError));
}

#[test]
fn only_an_empty_first_look_waits_again() {
    assert!(flightvars::notify::needs_retry::<i32>(&Ok(None)));
    assert!(!flightvars::notify::needs_retry(&Ok(Some(1))));
    assert!(!flightvars::notify::needs_retry::<i32>(&Err(NotifyError)));
    assert!(flightvars::notify::wakes(&Ok(())));
    assert!(!flightvars::notify::wakes(&Err(NotifyError)));
}
