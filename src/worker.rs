//! The decisions of a domain worker's loop: what to do with each thing that
//! its queue yields within a polling tick.
use vstd::prelude::*;

use crate::domain::Command;
use crate::notify::{notification, NotifyError, NotifyReceiver, NotifyResult, NotifySender};

verus! {

/// How long a domain worker waits for a message before it polls.
pub const POLLING_DELAY_MS: u64 = 20;

/// What a domain worker's queue carries.
pub enum Envelope {
    Cmd(Command),
    Shutdown,
}

/// What a worker does next.
pub enum Step {
    /// Hand the command to the handler.
    Handle(Command),
    /// The tick passed without a message: poll the simulator.
    Poll,
    /// Shut down.
    Stop,
    /// The queue failed; log it and wait again.
    Skip,
}

/// The queue of a domain worker and whether it still runs.
pub struct Worker {
    tx: NotifySender<Envelope>,
    rx: NotifyReceiver<Envelope>,
    run: bool,
}

impl Worker {
    pub closed spec fn running(&self) -> bool {
        self.run
    }

    pub fn new() -> (r: Worker)
        ensures
            r.running(),
    {
        let (tx, rx) = notification();
        Worker { tx, rx, run: true }
    }

    /// A sending handle on this worker's queue, for the router.
    pub fn sender(&self) -> NotifySender<Envelope> {
        self.tx.clone()
    }

    pub fn is_running(&self) -> (r: bool)
        ensures
            r == self.running(),
    {
        self.run
    }

    /// Waits up to `timeout` for the next message.
    pub fn receive(&self, timeout: std::time::Duration) -> NotifyResult<Option<Envelope>> {
        self.rx.recv_timeout(timeout)
    }

    /// Decides what to do with what the queue yielded: a command is handled,
    /// a timeout polls, `Shutdown` stops the worker.
    pub fn step(&mut self, received: NotifyResult<Option<Envelope>>) -> (s: Step)
        ensures
            match received {
                Ok(Some(Envelope::Cmd(c))) => s == Step::Handle(c) && final(self).running() == old(self).running(),
                Ok(Some(Envelope::Shutdown)) => s is Stop && !final(self).running(),
                Ok(None) => s is Poll && final(self).running() == old(self).running(),
                Err(_) => s is Skip && final(self).running() == old(self).running(),
            },
    {
        match received {
            Ok(Some(Envelope::Cmd(c))) => Step::Handle(c),
            Ok(Some(Envelope::Shutdown)) => {
                self.shutdown();
                Step::Stop
            },
            Ok(None) => Step::Poll,
            Err(NotifyError) => Step::Skip,
        }
    }

    pub fn shutdown(&mut self)
        ensures
            !final(self).running(),
    {
        self.run = false;
    }
}

} // verus!
