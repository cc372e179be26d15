//! A channel whose receiver can wait with a timeout: each send wakes the
//! receiver through a condition variable, so that a worker wakes either on a
//! new message or on its polling tick.
use vstd::prelude::*;

use crate::channel::{
    clone_sender, lock_unit, new_channel, new_condvar, new_mutex, notify_all, send_value, share, try_receive,
    wait_timeout, Received,
};

verus! {

/// The receiving side has gone away, or every sending side has.
#[derive(Debug, Clone, Copy, Eq, PartialEq, Structural)]
pub struct NotifyError;

pub type NotifyResult<T> = Result<T, NotifyError>;

/// A condition that a receiver waits on and senders signal.
pub struct Sleep {
    mutex: std::sync::Mutex<()>,
    condition: std::sync::Condvar,
}

impl Sleep {
    pub fn new() -> Sleep {
        Sleep { mutex: new_mutex(), condition: new_condvar() }
    }

    /// Wakes every waiter.
    pub fn awake(&self) {
        notify_all(&self.condition)
    }

    /// Waits for a wake-up or for `timeout`; true when the time ran out.
    pub fn wait(&self, timeout: std::time::Duration) -> bool {
        let lock = lock_unit(&self.mutex);
        wait_timeout(&self.condition, lock, timeout)
    }
}

/// The sending side of a notification channel.
#[verifier::reject_recursive_types(T)]
pub struct NotifySender<T: Send> {
    tx: std::sync::mpsc::Sender<T>,
    sleep: std::sync::Arc<Sleep>,
}

/// The receiving side of a notification channel.
#[verifier::reject_recursive_types(T)]
pub struct NotifyReceiver<T: Send> {
    rx: std::sync::mpsc::Receiver<T>,
    sleep: std::sync::Arc<Sleep>,
}

/// A new notification channel.
pub fn notification<T: Send>() -> (NotifySender<T>, NotifyReceiver<T>) {
    let (tx, rx) = new_channel();
    let sleep = std::sync::Arc::new(Sleep::new());
    let sender = NotifySender { tx, sleep: share(&sleep) };
    let receiver = NotifyReceiver { rx, sleep };
    (sender, receiver)
}

/// The result that a receive reports for what the queue held.
pub open spec fn received_result<T>(r: Received<T>) -> NotifyResult<Option<T>> {
    match r {
        Received::Item(v) => Ok(Some(v)),
        Received::Empty => Ok(None),
        Received::Disconnected => Err(NotifyError),
    }
}

/// How a receive reports what the queue held: a message, nothing yet, or a
/// channel whose senders are all gone.
pub fn received<T>(r: Received<T>) -> (out: NotifyResult<Option<T>>)
    ensures
        out == received_result(r),
{
    match r {
        Received::Item(v) => Ok(Some(v)),
        Received::Empty => Ok(None),
        Received::Disconnected => Err(NotifyError),
    }
}

/// How a send reports whether the channel took the value: refused only
/// once the receiver is gone.
pub fn sent(queued: bool) -> (r: NotifyResult<()>)
    ensures
        queued ==> r == Ok::<(), NotifyError>(()),
        !queued ==> r == Err::<(), NotifyError>(NotifyError),
{
    if queued {
        Ok(())
    } else {
        Err(NotifyError)
    }
}

/// Whether a send wakes the receiver: only once the value was queued.
pub fn wakes(result: &NotifyResult<()>) -> (r: bool)
    ensures
        r == (*result is Ok),
{
    result.is_ok()
}

/// Whether a receive with a timeout waits and looks once more: only when the
/// first look found the queue empty with senders still alive.
pub fn needs_retry<T>(first: &NotifyResult<Option<T>>) -> (r: bool)
    ensures
        r == (*first matches Ok(None)),
{
    match first {
        Ok(None) => true,
        _ => false,
    }
}

impl<T: Send> NotifySender<T> {
    /// Queues `value` and wakes the receiver; fails once the receiver is gone.
    pub fn send(&self, value: T) -> NotifyResult<()> {
        let result = sent(send_value(&self.tx, value));
        if wakes(&result) {
            self.sleep.awake();
        }
        result
    }
}

impl<T: Send> Clone for NotifySender<T> {
    /// Another sending handle on the same channel.
    fn clone(&self) -> NotifySender<T> {
        NotifySender { tx: clone_sender(&self.tx), sleep: share(&self.sleep) }
    }
}

impl<T: Send> NotifyReceiver<T> {
    /// Takes a queued message without waiting: `Ok(None)` when there is none,
    /// `Err` when every sender is gone.
    pub fn recv(&self) -> NotifyResult<Option<T>> {
        received(try_receive(&self.rx))
    }

    /// Like `recv`, but when nothing is queued waits up to `timeout` for a
    /// send and then looks once more.
    pub fn recv_timeout(&self, timeout: std::time::Duration) -> (r: NotifyResult<Option<T>>) {
        let first = self.recv();
        if needs_retry(&first) {
            self.sleep.wait(timeout);
            self.recv()
        } else {
            first
        }
    }
}

} // verus!
