//! The LVar domain: observers of named panel variables.
//!
//! Resolving a name and reading or setting a panel variable are calls into
//! the simulator that only the caller can make: `command` hands back the
//! write to perform, and `poll` takes the value read for each observer.
use vstd::prelude::*;
use vstd::string::*;

use crate::domain::{Client, Command, Event, Value, Var};
use crate::subscription::{mark, changes, without_client, Subscription, Subscriptions};

verus! {

/// What each observer reads: the variable's value as an integer, or nothing
/// where its name could not be resolved.
pub open spec fn lvar_values(readings: Seq<Option<isize>>) -> Seq<Option<Value>> {
    Seq::new(readings.len(), |i: int| match readings[i] {
        Some(x) => Some(Value::Int(x)),
        None => None,
    })
}

/// The event that reports `v` to an observer of the variable named `name`.
pub open spec fn lvar_update(name: String, v: Value) -> Event {
    Event::Update(Var::LVar(name), v)
}

/// The LVar domain handler.
pub struct Handler {
    subscriptions: Subscriptions<String>,
}

impl Handler {
    pub closed spec fn subs(&self) -> Seq<Subscription<String>> {
        self.subscriptions@
    }

    pub fn new() -> (r: Handler)
        ensures
            r.subs().len() == 0,
    {
        Handler { subscriptions: Subscriptions::new() }
    }

    pub fn description() -> (r: String)
        ensures
            r@ == "lvar domain handler"@,
    {
        String::from_str("lvar domain handler")
    }

    /// Applies a command. An observation is recorded and a close drops the
    /// observations of that client; a write is handed back as the variable
    /// name and the value that the caller sets on the simulator.
    pub fn command(&mut self, cmd: Command) -> (r: Option<(String, Value)>)
        ensures
            match cmd {
                Command::Write(Var::LVar(name), v) => r == Some((name, v)) && final(self).subs() == old(self).subs(),
                Command::Observe(Var::LVar(name), c) => r is None && final(self).subs()
                    == old(self).subs().push(Subscription { client: c, target: name, retain: None }),
                Command::Close(name) => r is None && final(self).subs() == without_client(old(self).subs(), name@),
                _ => r is None && final(self).subs() == old(self).subs(),
            },
    {
        match cmd {
            Command::Write(Var::LVar(name), v) => Some((name, v)),
            Command::Observe(Var::LVar(name), c) => {
                self.subscriptions.add(c, name);
                None
            },
            Command::Close(name) => {
                self.subscriptions.remove_client(name.as_str());
                None
            },
            _ => None,
        }
    }

    /// Records that the value `v` of a report for observer `i` reached its
    /// client; only then is it the value last reported.
    pub fn mark_reported(&mut self, i: usize, v: Value)
        requires
            i < old(self).subs().len(),
        ensures
            final(self).subs() == mark(old(self).subs(), i as int, v),
    {
        self.subscriptions.mark_reported(i, v);
    }

    pub fn subscription_count(&self) -> (r: usize)
        ensures
            r == self.subs().len(),
    {
        self.subscriptions.len()
    }

    /// The name of the variable that observer `i` watches.
    pub fn lvar(&self, i: usize) -> (r: &String)
        requires
            i < self.subs().len(),
        ensures
            *r == self.subs()[i as int].target,
    {
        &self.subscriptions.get(i).target
    }

    pub fn client(&self, i: usize) -> (r: &Client)
        requires
            i < self.subs().len(),
        ensures
            *r == self.subs()[i as int].client,
    {
        &self.subscriptions.get(i).client
    }

    /// Takes the value read for each observer, in order, and returns the
    /// updates owed as `(observer index, event)`.
    pub fn poll(&self, readings: &Vec<Option<isize>>) -> (r: Vec<(usize, Event)>)
        requires
            readings@.len() == self.subs().len(),
        ensures
            r@.len() == changes(self.subs(), lvar_values(readings@), readings@.len() as int).len(),
            forall|k: int| 0 <= k < r@.len() ==> {
                let c = changes(self.subs(), lvar_values(readings@), readings@.len() as int)[k];
                &&& (#[trigger] r@[k]).0 as int == c.0
                &&& r@[k].1 == lvar_update(self.subs()[c.0].target, c.1)
            },
    {
        let ghost subs = self.subscriptions@;
        let n = self.subscriptions.len();
        let mut values: Vec<Option<Value>> = Vec::new();
        let mut i: usize = 0;
        while i < n
            invariant
                n == subs.len(),
                readings@.len() == n,
                i <= n,
                values@.len() == i,
                forall|k: int| 0 <= k < i ==> #[trigger] values@[k] == lvar_values(readings@)[k],
            decreases n - i,
        {
            values.push(match readings[i] {
                Some(x) => Some(Value::Int(x)),
                None => None,
            });
            i = i + 1;
        }
        assert(values@ =~= lvar_values(readings@));
        let reports = self.subscriptions.report(&values);
        let ghost c = changes(subs, values@, n as int);
        proof {
            crate::subscription::lemma_changes_ordered(subs, values@, n as int);
        }
        let mut out: Vec<(usize, Event)> = Vec::new();
        let mut k: usize = 0;
        while k < reports.len()
            invariant
                n == subs.len(),
                reports@.len() == c.len(),
                forall|j: int| 0 <= j < reports@.len() ==> (#[trigger] reports@[j]).0 as int == c[j].0 && reports@[j].1 == c[j].1,
                forall|j: int| 0 <= j < c.len() ==> 0 <= (#[trigger] c[j]).0 < n,
                self.subscriptions@.len() == n,
                forall|j: int| 0 <= j < n ==> (#[trigger] self.subscriptions@[j]).target == subs[j].target,
                k <= reports@.len(),
                out@.len() == k,
                forall|j: int| 0 <= j < k ==> (#[trigger] out@[j]).0 as int == c[j].0
                    && out@[j].1 == lvar_update(subs[c[j].0].target, c[j].1),
            decreases reports@.len() - k,
        {
            let (idx, v) = reports[k];
            let name = self.subscriptions.get(idx).target.clone();
            out.push((idx, Event::Update(Var::LVar(name), v)));
            k = k + 1;
        }
        out
    }
}

} // verus!
