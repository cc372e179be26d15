//! The FSUIPC domain: observers of offsets and a queue of pending writes.
//!
//! The simulator's memory is reached through a session that only the caller
//! holds: it performs the writes that `next_write` hands out, reads the bytes
//! that `read_requests` names, and gives them back to `poll`.
use vstd::prelude::*;
use vstd::string::*;
use std::collections::VecDeque;

use crate::domain::{Client, Command, Event, Value, Var};
use crate::error::ErrorKind;
use crate::offset::{decoded, narrowed, encoded, lemma_encode_decode, value_fits, Offset};
use crate::subscription::{mark, 
    changes, lemma_change_reported, lemma_changes_ordered, without_client,
    Subscription, Subscriptions,
};

verus! {

/// A write to the simulator, tagged by its width.
#[derive(Clone, Copy, Debug, PartialEq, Eq, Structural)]
pub enum WriteOp {
    Byte(u16, u8),
    Word(u16, u16),
    DWord(u16, u32),
}

/// The write that stores `v` at offset `o`, truncated to the offset's width.
pub open spec fn write_op_of(o: Offset, v: Value) -> WriteOp {
    let n = narrowed(o.1, v);
    if o.1.size() == 1 {
        WriteOp::Byte(o.0.0, n as u8)
    } else if o.1.size() == 2 {
        WriteOp::Word(o.0.0, n as u16)
    } else {
        WriteOp::DWord(o.0.0, n as u32)
    }
}

/// The value each observer reads from the bytes fetched for it.
pub open spec fn offset_values(subs: Seq<Subscription<Offset>>, buffers: Seq<[u8; 4]>) -> Seq<Option<Value>> {
    Seq::new(subs.len(), |i: int| Some(decoded(subs[i].target.1, buffers[i]@)))
}

/// The event that reports `v` to the observer of `o`.
pub open spec fn offset_update(o: Offset, v: Value) -> Event {
    Event::Update(Var::FsuipcOffset(o), v)
}

/// The FSUIPC domain handler.
pub struct Handler {
    subscriptions: Subscriptions<Offset>,
    writes: VecDeque<WriteOp>,
}

impl Handler {
    pub closed spec fn subs(&self) -> Seq<Subscription<Offset>> {
        self.subscriptions@
    }

    pub closed spec fn pending(&self) -> Seq<WriteOp> {
        self.writes@
    }

    pub fn new() -> (r: Handler)
        ensures
            r.subs().len() == 0,
            r.pending().len() == 0,
    {
        Handler { subscriptions: Subscriptions::new(), writes: VecDeque::with_capacity(1024) }
    }

    pub fn description() -> (r: String)
        ensures
            r@ == "fsuipc domain handler"@,
    {
        String::from_str("fsuipc domain handler")
    }

    /// Applies a command: a write is queued, an observation recorded, and a
    /// close drops the observations of that client. Commands for other
    /// domains change nothing.
    pub fn command(&mut self, cmd: Command)
        ensures
            match cmd {
                Command::Write(Var::FsuipcOffset(o), v) => final(self).pending() == old(self).pending().push(write_op_of(o, v))
                    && final(self).subs() == old(self).subs(),
                Command::Observe(Var::FsuipcOffset(o), c) => final(self).subs()
                    == old(self).subs().push(Subscription { client: c, target: o, retain: None })
                    && final(self).pending() == old(self).pending(),
                Command::Close(name) => final(self).subs() == without_client(old(self).subs(), name@)
                    && final(self).pending() == old(self).pending(),
                _ => final(self).subs() == old(self).subs() && final(self).pending() == old(self).pending(),
            },
    {
        match cmd {
            Command::Write(Var::FsuipcOffset(o), v) => {
                let op = write_op(o, v);
                self.writes.push_back(op);
            },
            Command::Observe(Var::FsuipcOffset(o), c) => {
                self.subscriptions.add(c, o);
            },
            Command::Close(name) => {
                self.subscriptions.remove_client(name.as_str());
            },
            _ => {},
        }
    }

    /// Takes the oldest pending write, to be performed by the caller.
    pub fn next_write(&mut self) -> (r: Option<WriteOp>)
        ensures
            old(self).pending().len() == 0 ==> r is None && final(self).pending() == old(self).pending(),
            old(self).pending().len() > 0 ==> r == Some(old(self).pending()[0])
                && final(self).pending() == old(self).pending().drop_first(),
            final(self).subs() == old(self).subs(),
    {
        self.writes.pop_front()
    }

    /// Takes the outcome of performing `op`. A write that timed out goes back
    /// to the front of the queue to be retried on the next tick; the result
    /// says whether draining may go on.
    pub fn finish_write(&mut self, op: WriteOp, outcome: Option<ErrorKind>) -> (go_on: bool)
        ensures
            go_on == (outcome is None),
            outcome == Some(ErrorKind::TimedOut) ==> final(self).pending() == seq![op] + old(self).pending(),
            outcome != Some(ErrorKind::TimedOut) ==> final(self).pending() == old(self).pending(),
            final(self).subs() == old(self).subs(),
    {
        match outcome {
            None => true,
            Some(ErrorKind::TimedOut) => {
                self.writes.push_front(op);
                assert(self.writes@ =~= seq![op] + old(self).pending());
                false
            },
            Some(_) => false,
        }
    }

    /// Records that the value `v` of a report for observer `i` reached its
    /// client; only then is it the value last reported.
    pub fn mark_reported(&mut self, i: usize, v: Value)
        requires
            i < old(self).subs().len(),
        ensures
            final(self).subs() == mark(old(self).subs(), i as int, v),
            final(self).pending() == old(self).pending(),
    {
        self.subscriptions.mark_reported(i, v);
    }

    pub fn subscription_count(&self) -> (r: usize)
        ensures
            r == self.subs().len(),
    {
        self.subscriptions.len()
    }

    pub fn client(&self, i: usize) -> (r: &Client)
        requires
            i < self.subs().len(),
        ensures
            *r == self.subs()[i as int].client,
    {
        &self.subscriptions.get(i).client
    }

    /// The address and the byte count to read for each observer, in order.
    pub fn read_requests(&self) -> (r: Vec<(u16, usize)>)
        ensures
            r@.len() == self.subs().len(),
            forall|i: int| 0 <= i < r@.len() ==> (#[trigger] r@[i]).0 == self.subs()[i].target.0.0
                && r@[i].1 == self.subs()[i].target.1.size(),
    {
        let n = self.subscriptions.len();
        let mut out: Vec<(u16, usize)> = Vec::new();
        let mut i: usize = 0;
        while i < n
            invariant
                n == self.subs().len(),
                i <= n,
                out@.len() == i,
                forall|k: int| 0 <= k < i ==> (#[trigger] out@[k]).0 == self.subs()[k].target.0.0
                    && out@[k].1 == self.subs()[k].target.1.size(),
            decreases n - i,
        {
            let o = self.subscriptions.get(i).target;
            out.push((o.0.0, o.1.byte_size()));
            i = i + 1;
        }
        out
    }

    /// Takes the bytes read for each observer, in order, and returns the
    /// updates owed: one for each observer whose decoded value differs from
    /// the one last reported to it, as `(observer index, event)`.
    pub fn poll(&self, buffers: &Vec<[u8; 4]>) -> (r: Vec<(usize, Event)>)
        requires
            buffers@.len() == self.subs().len(),
        ensures
            r@.len() == changes(self.subs(), offset_values(self.subs(), buffers@), buffers@.len() as int).len(),
            forall|k: int| 0 <= k < r@.len() ==> {
                let c = changes(self.subs(), offset_values(self.subs(), buffers@), buffers@.len() as int)[k];
                &&& (#[trigger] r@[k]).0 as int == c.0
                &&& r@[k].1 == offset_update(self.subs()[c.0].target, c.1)
            },
    {
        let ghost subs = self.subscriptions@;
        let n = self.subscriptions.len();
        let mut values: Vec<Option<Value>> = Vec::new();
        let mut i: usize = 0;
        while i < n
            invariant
                n == subs.len(),
                subs == self.subscriptions@,
                buffers@.len() == n,
                i <= n,
                values@.len() == i,
                forall|k: int| 0 <= k < i ==> #[trigger] values@[k] == offset_values(subs, buffers@)[k],
            decreases n - i,
        {
            let len = self.subscriptions.get(i).target.1;
            values.push(Some(len.decode_value(&buffers[i])));
            i = i + 1;
        }
        assert(values@ =~= offset_values(subs, buffers@));
        let reports = self.subscriptions.report(&values);
        let ghost c = changes(subs, values@, n as int);
        proof {
            lemma_changes_ordered(subs, values@, n as int);
        }
        let mut out: Vec<(usize, Event)> = Vec::new();
        let mut k: usize = 0;
        while k < reports.len()
            invariant
                n == subs.len(),
                reports@.len() == c.len(),
                forall|j: int| 0 <= j < reports@.len() ==> (#[trigger] reports@[j]).0 as int == c[j].0 && reports@[j].1 == c[j].1,
                forall|j: int| 0 <= j < c.len() ==> 0 <= (#[trigger] c[j]).0 < n,
                self.subscriptions@.len() == n,
                forall|j: int| 0 <= j < n ==> (#[trigger] self.subscriptions@[j]).target == subs[j].target,
                k <= reports@.len(),
                out@.len() == k,
                forall|j: int| 0 <= j < k ==> (#[trigger] out@[j]).0 as int == c[j].0
                    && out@[j].1 == offset_update(subs[c[j].0].target, c[j].1),
            decreases reports@.len() - k,
        {
            let (idx, v) = reports[k];
            let o = self.subscriptions.get(idx).target;
            out.push((idx, Event::Update(Var::FsuipcOffset(o), v)));
            k = k + 1;
        }
        out
    }
}

/// The write that stores `v` at `o`.
pub fn write_op(o: Offset, v: Value) -> (r: WriteOp)
    ensures
        r == write_op_of(o, v),
{
    let n = o.1.narrow(v);
    let size = o.1.byte_size();
    if size == 1 {
        WriteOp::Byte(o.0.0, n as u8)
    } else if size == 2 {
        WriteOp::Word(o.0.0, n as u16)
    } else {
        WriteOp::DWord(o.0.0, n as u32)
    }
}

/// A written value that fits its offset, read back by a substrate that
/// reflects the write, is what every observer of that offset reads.
pub proof fn lemma_written_value_read_back(subs: Seq<Subscription<Offset>>, buffers: Seq<[u8; 4]>, o: Offset, v: Value, i: int)
    requires
        value_fits(o.1, v),
        0 <= i < subs.len(),
        buffers.len() == subs.len(),
        subs[i].target == o,
        buffers[i]@ == encoded(o.1, v),
    ensures
        offset_values(subs, buffers)[i] == Some(v),
{
    lemma_encode_decode(o.1, v);
}

/// After a write of `v` to `o` that the substrate reflects, a poll reports
/// `v` once to each observer of `o` that was last told something else, to no
/// observer of `o` a second time, and nothing else about them.
pub proof fn lemma_write_then_poll(subs: Seq<Subscription<Offset>>, buffers: Seq<[u8; 4]>, o: Offset, v: Value)
    requires
        value_fits(o.1, v),
        buffers.len() == subs.len(),
        forall|i: int| 0 <= i < subs.len() && (#[trigger] subs[i]).target == o ==> buffers[i]@ == encoded(o.1, v),
    ensures
        forall|i: int| 0 <= i < subs.len() && (#[trigger] subs[i]).target == o && subs[i].retain != Some(v)
            ==> exists|a: int| 0 <= a < changes(subs, offset_values(subs, buffers), subs.len() as int).len()
                && #[trigger] changes(subs, offset_values(subs, buffers), subs.len() as int)[a] == (i, v),
        forall|a: int| 0 <= a < changes(subs, offset_values(subs, buffers), subs.len() as int).len()
            && subs[(#[trigger] changes(subs, offset_values(subs, buffers), subs.len() as int)[a]).0].target == o
            ==> changes(subs, offset_values(subs, buffers), subs.len() as int)[a].1 == v
                && subs[changes(subs, offset_values(subs, buffers), subs.len() as int)[a].0].retain != Some(v),
        forall|a: int, b: int| 0 <= a < b < changes(subs, offset_values(subs, buffers), subs.len() as int).len()
            ==> (#[trigger] changes(subs, offset_values(subs, buffers), subs.len() as int)[a]).0
                != (#[trigger] changes(subs, offset_values(subs, buffers), subs.len() as int)[b]).0,
{
    let vals = offset_values(subs, buffers);
    let n = subs.len() as int;
    lemma_changes_ordered(subs, vals, n);
    assert forall|i: int| 0 <= i < subs.len() && (#[trigger] subs[i]).target == o && subs[i].retain != Some(v)
        implies exists|a: int| 0 <= a < changes(subs, vals, n).len() && #[trigger] changes(subs, vals, n)[a] == (i, v) by {
        lemma_written_value_read_back(subs, buffers, o, v, i);
        lemma_change_reported(subs, vals, n, i, v);
    }
    assert forall|a: int| 0 <= a < changes(subs, vals, n).len()
        && subs[(#[trigger] changes(subs, vals, n)[a]).0].target == o
        implies changes(subs, vals, n)[a].1 == v && subs[changes(subs, vals, n)[a].0].retain != Some(v) by {
        let i = changes(subs, vals, n)[a].0;
        lemma_written_value_read_back(subs, buffers, o, v, i);
    }
}

} // verus!
