use std::sync::mpsc;

use flightvars::bus::{delivered, Error, Publish, Result, Subscribe};

#[derive(Debug, PartialEq)]
enum ConsumerMsg {
    Pub(i32),
}

impl From<i32> for ConsumerMsg {
    fn from(n: i32) -> ConsumerMsg {
        ConsumerMsg::Pub(n)
    }
}

#[derive(Debug, PartialEq)]
struct FakeConsumer;

impl Publish<i32> for FakeConsumer {
    fn publish(&mut self, _: i32) -> Result<()> {
        Ok(())
    }
}

#[derive(Debug, PartialEq)]
enum SubscriberMsg {
    Sub(FakeConsumer),
}

impl From<FakeConsumer> for SubscriberMsg {
    fn from(c: FakeConsumer) -> SubscriberMsg {
        SubscriberMsg::Sub(c)
    }
}

#[test]
fn should_wrap_sender_with_publish() {
    let (mut tx, rx) = mpsc::channel::<ConsumerMsg>();
    let p: &mut dyn Publish<i32> = &mut tx;
    p.publish(42).ok().unwrap();
    assert_eq!(rx.recv().unwrap(), ConsumerMsg::Pub(42));
}

#[test]
fn should_wrap_sender_with_subscribe() {
    let (mut tx, rx) = mpsc::channel::<SubscriberMsg>();
    let p: &mut dyn Subscribe<i32, FakeConsumer> = &mut tx;
    p.subscribe(FakeConsumer).ok().unwrap();
    assert_eq!(rx.recv().unwrap(), SubscriberMsg::Sub(FakeConsumer));
}

#[test]
fn publishing_to_a_closed_channel_is_unavailable() {
    let (mut tx, rx) = mpsc::channel::<ConsumerMsg>();
    drop(rx);
    assert_eq!(tx.publish(1), Err(Error::Unavailable));
    assert_eq!(delivered(true), Ok(()));
}
