//! The standard library's channels and wait primitives, as the runtime core
//! uses them.
use vstd::prelude::*;

verus! {

#[verifier::external_type_specification]
#[verifier::external_body]
#[verifier::reject_recursive_types(T)]
pub struct ExSender<T>(std::sync::mpsc::Sender<T>);

#[verifier::external_type_specification]
#[verifier::external_body]
#[verifier::reject_recursive_types(T)]
pub struct ExReceiver<T>(std::sync::mpsc::Receiver<T>);

#[verifier::external_type_specification]
#[verifier::external_body]
pub struct ExCondvar(std::sync::Condvar);

#[verifier::external_type_specification]
#[verifier::external_body]
#[verifier::reject_recursive_types(T)]
pub struct ExMutex<T: ?Sized>(std::sync::Mutex<T>);

#[verifier::external_type_specification]
#[verifier::external_body]
#[verifier::reject_recursive_types(T)]
pub struct ExMutexGuard<'a, T: ?Sized + 'a>(std::sync::MutexGuard<'a, T>);

/// What a non-blocking receive found.
pub enum Received<T> {
    Item(T),
    Empty,
    Disconnected,
}

/// Relies on `mpsc::channel`: a new channel, its sending and its receiving half.
#[verifier::external_body]
pub(crate) fn new_channel<T>() -> (std::sync::mpsc::Sender<T>, std::sync::mpsc::Receiver<T>) {
    std::sync::mpsc::channel()
}

/// Relies on `Sender::send`: whether the value was queued, which fails once
/// the receiving half is gone.
#[verifier::external_body]
pub(crate) fn send_value<T>(tx: &std::sync::mpsc::Sender<T>, value: T) -> bool {
    tx.send(value).is_ok()
}

/// Relies on `Sender::clone`: a second sending handle on the same channel.
#[verifier::external_body]
pub(crate) fn clone_sender<T>(s: &std::sync::mpsc::Sender<T>) -> std::sync::mpsc::Sender<T> {
    s.clone()
}

/// Relies on `Receiver::try_recv`: a queued value, or why there is none.
#[verifier::external_body]
pub(crate) fn try_receive<T>(rx: &std::sync::mpsc::Receiver<T>) -> Received<T> {
    match rx.try_recv() {
        Ok(v) => Received::Item(v),
        Err(std::sync::mpsc::TryRecvError::Empty) => Received::Empty,
        Err(std::sync::mpsc::TryRecvError::Disconnected) => Received::Disconnected,
    }
}

/// Relies on `Arc::clone`: a second handle on the same shared value.
#[verifier::external_body]
pub(crate) fn share<T>(a: &std::sync::Arc<T>) -> (r: std::sync::Arc<T>)
    ensures
        *r == **a,
{
    std::sync::Arc::clone(a)
}

/// Relies on `Mutex::new`.
#[verifier::external_body]
pub(crate) fn new_mutex() -> std::sync::Mutex<()> {
    std::sync::Mutex::new(())
}

/// Relies on `Condvar::new`.
#[verifier::external_body]
pub(crate) fn new_condvar() -> std::sync::Condvar {
    std::sync::Condvar::new()
}

/// Relies on `Condvar::notify_all`: wakes every thread waiting on the condition.
#[verifier::external_body]
pub(crate) fn notify_all(c: &std::sync::Condvar) {
    c.notify_all()
}

/// Relies on `Mutex::lock`, taking the guard back from a poisoned lock.
#[verifier::external_body]
pub(crate) fn lock_unit(m: &std::sync::Mutex<()>) -> std::sync::MutexGuard<'_, ()> {
    m.lock().unwrap_or_else(|e| e.into_inner())
}

/// Relies on `Condvar::wait_timeout`: whether the wait ended by running out of time.
#[verifier::external_body]
pub(crate) fn wait_timeout(c: &std::sync::Condvar, g: std::sync::MutexGuard<'_, ()>, d: std::time::Duration) -> bool {
    match c.wait_timeout(g, d) {
        Ok((_, t)) => t.timed_out(),
        Err(e) => e.into_inner().1.timed_out(),
    }
}

} // verus!
