//! Publishing values, and subscribing consumers, over a channel whose
//! messages are built from what is published.
use vstd::prelude::*;

use crate::channel::send_value;

verus! {

/// The other end of the channel has gone away.
#[derive(Clone, Copy, Debug, PartialEq, Eq, Structural)]
pub enum Error {
    Unavailable,
}

pub type Result<T> = core::result::Result<T, Error>;

/// How a publish reports whether the channel took the message.
pub fn delivered(queued: bool) -> (r: Result<()>)
    ensures
        queued ==> r == Ok::<(), Error>(()),
        !queued ==> r == Err::<(), Error>(Error::Unavailable),
{
    if queued {
        Ok(())
    } else {
        Err(Error::Unavailable)
    }
}

/// Something that values can be published to.
pub trait Publish<T> {
    fn publish(&mut self, value: T) -> Result<()>;
}

/// Something that consumers of type `P` can be subscribed to.
pub trait Subscribe<T, P: Publish<T>> {
    fn subscribe(&mut self, subs: P) -> Result<()>;
}

impl<T, M: From<T>> Publish<T> for std::sync::mpsc::Sender<M> {
    /// Sends the message made from `value`.
    fn publish(&mut self, value: T) -> Result<()> {
        let msg = M::from(value);
        delivered(send_value(self, msg))
    }
}

impl<T, C: Publish<T>, M: From<C>> Subscribe<T, C> for std::sync::mpsc::Sender<M> {
    /// Sends the message made from the consumer `subs`.
    fn subscribe(&mut self, subs: C) -> Result<()> {
        let msg = M::from(subs);
        delivered(send_value(self, msg))
    }
}

} // verus!
