//! The subscription list that each domain keeps: who observes what, and the
//! value last reported to them.
use vstd::prelude::*;

use crate::domain::{Client, Value};

verus! {

/// A client's interest in a target, with the value last reported to it.
pub struct Subscription<T> {
    pub client: Client,
    pub target: T,
    pub retain: Option<Value>,
}

/// The subscriptions of one domain, in the order they were made.
pub struct Subscriptions<T> {
    items: Vec<Subscription<T>>,
}

/// The reports that one poll owes: for each subscription `i` in order whose
/// new value `values[i]` is known and differs from the one last reported,
/// the pair `(i, value)`.
pub open spec fn changes<T>(subs: Seq<Subscription<T>>, values: Seq<Option<Value>>, k: int) -> Seq<(int, Value)>
    decreases k,
{
    if k <= 0 {
        seq![]
    } else {
        let prev = changes(subs, values, k - 1);
        match values[k - 1] {
            Some(v) => if subs[k - 1].retain == Some(v) { prev } else { prev.push((k - 1, v)) },
            None => prev,
        }
    }
}

/// The subscriptions after a poll has reported `values`.
pub open spec fn after_report<T>(subs: Seq<Subscription<T>>, values: Seq<Option<Value>>, next: Seq<Subscription<T>>) -> bool {
    &&& next.len() == subs.len()
    &&& forall|i: int| 0 <= i < subs.len() ==> {
        &&& (#[trigger] next[i]).client == subs[i].client
        &&& next[i].target == subs[i].target
        &&& next[i].retain == match values[i] {
            Some(v) => Some(v),
            None => subs[i].retain,
        }
    }
}

/// The subscriptions that do not belong to the client named `name`.
pub open spec fn without_client<T>(subs: Seq<Subscription<T>>, name: Seq<char>) -> Seq<Subscription<T>> {
    subs.filter(|s: Subscription<T>| s.client.name_view() != name)
}

impl<T> View for Subscriptions<T> {
    type V = Seq<Subscription<T>>;

    closed spec fn view(&self) -> Seq<Subscription<T>> {
        self.items@
    }
}

impl<T> Subscriptions<T> {
    pub fn new() -> (r: Subscriptions<T>)
        ensures
            r@ == Seq::<Subscription<T>>::empty(),
    {
        Subscriptions { items: Vec::new() }
    }

    pub fn len(&self) -> (r: usize)
        ensures
            r == self@.len(),
    {
        self.items.len()
    }

    pub fn get(&self, i: usize) -> (r: &Subscription<T>)
        requires
            i < self@.len(),
        ensures
            *r == self@[i as int],
    {
        &self.items[i]
    }

    /// Records a new subscription, which has reported nothing yet.
    pub fn add(&mut self, client: Client, target: T)
        ensures
            final(self)@ == old(self)@.push(Subscription { client, target, retain: None }),
    {
        self.items.push(Subscription { client, target, retain: None });
    }

    /// Drops every subscription of the client named `name`.
    pub fn remove_client(&mut self, name: &str)
        ensures
            final(self)@ == without_client(old(self)@, name@),
    {
        let ghost orig = self.items@;
        let ghost pred = |s: Subscription<T>| s.client.name_view() != name@;
        let mut i: usize = 0;
        let mut j: usize = 0;
        let total = self.items.len();
        while i < self.items.len()
            invariant
                total == orig.len(),
                j <= orig.len(),
                i <= self.items@.len(),
                i == orig.subrange(0, j as int).filter(pred).len(),
                self.items@ == orig.subrange(0, j as int).filter(pred) + orig.subrange(j as int, orig.len() as int),
                pred == (|s: Subscription<T>| s.client.name_view() != name@),
            decreases self.items@.len() - i,
        {
            let ghost kept = orig.subrange(0, j as int).filter(pred);
            assert(j < orig.len()) by {
                if j >= orig.len() {
                    assert(orig.subrange(j as int, orig.len() as int).len() == 0);
                }
            }
            let ghost x = orig[j as int];
            assert(self.items@[i as int] == x);
            assert(orig.subrange(0, j + 1) =~= orig.subrange(0, j as int).push(x));
            proof {
                orig.subrange(0, j as int).lemma_filter_push(x, pred);
            }
            let drop = self.items[i].client.name_eq(name);
            if drop {
                self.items.remove(i);
                assert(self.items@ =~= kept + orig.subrange(j + 1, orig.len() as int));
            } else {
                i = i + 1;
                assert(self.items@ =~= kept.push(x) + orig.subrange(j + 1, orig.len() as int));
            }
            j = j + 1;
        }
        assert(j == orig.len()) by {
            if j < orig.len() {
                assert((orig.subrange(0, j as int).filter(pred) + orig.subrange(j as int, orig.len() as int)).len() > i);
            }
        }
        assert(orig.subrange(0, orig.len() as int) =~= orig);
        assert(self.items@ =~= orig.filter(pred));
    }

    /// Takes the newly read value of each subscription (`None` where it could
    /// not be read) and returns the reports that are owed. Nothing is
    /// remembered here: a report counts once `mark_reported` records it.
    pub fn report(&self, values: &Vec<Option<Value>>) -> (r: Vec<(usize, Value)>)
        requires
            values@.len() == self@.len(),
        ensures
            r@.len() == changes(self@, values@, values@.len() as int).len(),
            forall|k: int| 0 <= k < r@.len() ==> (#[trigger] r@[k]).0 as int == changes(self@, values@, values@.len() as int)[k].0
                && r@[k].1 == changes(self@, values@, values@.len() as int)[k].1,
    {
        let n = self.items.len();
        let mut out: Vec<(usize, Value)> = Vec::new();
        let mut i: usize = 0;
        while i < n
            invariant
                n == self@.len(),
                values@.len() == n,
                i <= n,
                out@.len() == changes(self@, values@, i as int).len(),
                forall|k: int| 0 <= k < out@.len() ==> (#[trigger] out@[k]).0 as int == changes(self@, values@, i as int)[k].0
                    && out@[k].1 == changes(self@, values@, i as int)[k].1,
            decreases n - i,
        {
            match values[i] {
                Some(v) => {
                    let changed = match self.items[i].retain {
                        Some(old_value) => old_value != v,
                        None => true,
                    };
                    if changed {
                        out.push((i, v));
                    }
                },
                None => {},
            }
            i = i + 1;
        }
        out
    }

    /// Records that `v` reached the client of subscription `i`.
    pub fn mark_reported(&mut self, i: usize, v: Value)
        requires
            i < old(self)@.len(),
        ensures
            final(self)@ == mark(old(self)@, i as int, v),
    {
        self.items[i].retain = Some(v);
        assert(self.items@ =~= mark(old(self)@, i as int, v));
    }
}

/// Subscription `i` with `v` recorded as the value last reported to it.
pub open spec fn mark<T>(subs: Seq<Subscription<T>>, i: int, v: Value) -> Seq<Subscription<T>> {
    subs.update(i, Subscription { client: subs[i].client, target: subs[i].target, retain: Some(v) })
}

/// The subscriptions once each of `reports` has been recorded, in order.
pub open spec fn marked_all<T>(subs: Seq<Subscription<T>>, reports: Seq<(int, Value)>) -> Seq<Subscription<T>>
    decreases reports.len(),
{
    if reports.len() == 0 {
        subs
    } else {
        mark(marked_all(subs, reports.drop_last()), reports.last().0, reports.last().1)
    }
}

/// Recording every report of a poll as delivered leaves each subscription
/// remembering the value it was just told, or its earlier one where nothing
/// was read.
pub proof fn lemma_marking_reports<T>(subs: Seq<Subscription<T>>, values: Seq<Option<Value>>)
    requires
        values.len() == subs.len(),
    ensures
        after_report(subs, values, marked_all(subs, changes(subs, values, values.len() as int))),
{
    lemma_marking_prefix(subs, values, values.len() as int);
}

proof fn lemma_marking_prefix<T>(subs: Seq<Subscription<T>>, values: Seq<Option<Value>>, k: int)
    requires
        values.len() == subs.len(),
        0 <= k <= values.len(),
    ensures
        ({
            let next = marked_all(subs, changes(subs, values, k));
            &&& next.len() == subs.len()
            &&& forall|i: int| 0 <= i < subs.len() ==> (#[trigger] next[i]).client == subs[i].client
                && next[i].target == subs[i].target
            &&& forall|i: int| k <= i < subs.len() ==> (#[trigger] next[i]).retain == subs[i].retain
            &&& forall|i: int| 0 <= i < k ==> (#[trigger] next[i]).retain == match values[i] {
                Some(v) => Some(v),
                None => subs[i].retain,
            }
        }),
    decreases k,
{
    if k > 0 {
        lemma_marking_prefix(subs, values, k - 1);
        let prev = changes(subs, values, k - 1);
        match values[k - 1] {
            Some(v) => {
                if subs[k - 1].retain != Some(v) {
                    let c = prev.push((k - 1, v));
                    assert(c.drop_last() =~= prev);
                }
            },
            None => {},
        }
    }
}

/// Once the reports of a poll are recorded, a second poll over unchanged
/// values reports nothing.
pub proof fn lemma_report_settles<T>(subs: Seq<Subscription<T>>, values: Seq<Option<Value>>, next: Seq<Subscription<T>>)
    requires
        values.len() == subs.len(),
        after_report(subs, values, next),
    ensures
        changes(next, values, values.len() as int).len() == 0,
{
    lemma_settled_prefix(subs, values, next, values.len() as int);
}

/// Over fresh subscriptions whose values stay known and unchanged, two
/// successive polls report exactly once per subscription in total: the first
/// poll reports each subscription once, in order, and once those reports
/// are recorded the second reports nothing.
pub proof fn lemma_two_polls<T>(subs: Seq<Subscription<T>>, values: Seq<Option<Value>>, next: Seq<Subscription<T>>)
    requires
        values.len() == subs.len(),
        forall|i: int| 0 <= i < subs.len() ==> (#[trigger] subs[i]).retain is None && values[i] is Some,
        next == marked_all(subs, changes(subs, values, values.len() as int)),
    ensures
        changes(subs, values, values.len() as int).len() == subs.len(),
        forall|i: int| 0 <= i < subs.len() ==> #[trigger] changes(subs, values, values.len() as int)[i] == (
            i,
            values[i]->Some_0,
        ),
        changes(next, values, values.len() as int).len() == 0,
{
    lemma_fresh_prefix(subs, values, values.len() as int);
    lemma_marking_reports(subs, values);
    lemma_report_settles(subs, values, next);
}

proof fn lemma_fresh_prefix<T>(subs: Seq<Subscription<T>>, values: Seq<Option<Value>>, k: int)
    requires
        values.len() == subs.len(),
        0 <= k <= values.len(),
        forall|i: int| 0 <= i < subs.len() ==> (#[trigger] subs[i]).retain is None && values[i] is Some,
    ensures
        changes(subs, values, k).len() == k,
        forall|i: int| 0 <= i < k ==> #[trigger] changes(subs, values, k)[i] == (i, values[i]->Some_0),
    decreases k,
{
    if k > 0 {
        lemma_fresh_prefix(subs, values, k - 1);
        assert(subs[k - 1].retain is None && values[k - 1] is Some);
    }
}

proof fn lemma_settled_prefix<T>(subs: Seq<Subscription<T>>, values: Seq<Option<Value>>, next: Seq<Subscription<T>>, k: int)
    requires
        values.len() == subs.len(),
        after_report(subs, values, next),
        k <= values.len(),
    ensures
        changes(next, values, k).len() == 0,
    decreases k,
{
    if k > 0 {
        lemma_settled_prefix(subs, values, next, k - 1);
        assert(next[k - 1].retain == match values[k - 1] {
            Some(v) => Some(v),
            None => subs[k - 1].retain,
        });
    }
}

/// The reports of a poll name each subscription at most once, in order, and
/// each names a subscription whose value is known.
pub proof fn lemma_changes_ordered<T>(subs: Seq<Subscription<T>>, values: Seq<Option<Value>>, k: int)
    requires
        0 <= k <= values.len(),
    ensures
        forall|a: int, b: int| 0 <= a < b < changes(subs, values, k).len()
            ==> (#[trigger] changes(subs, values, k)[a]).0 < (#[trigger] changes(subs, values, k)[b]).0,
        forall|a: int| 0 <= a < changes(subs, values, k).len() ==> 0 <= (#[trigger] changes(subs, values, k)[a]).0 < k
            && values[changes(subs, values, k)[a].0] == Some(changes(subs, values, k)[a].1)
            && subs[changes(subs, values, k)[a].0].retain != Some(changes(subs, values, k)[a].1),
    decreases k,
{
    if k > 0 {
        lemma_changes_ordered(subs, values, k - 1);
    }
}

/// A value that is known and differs from the one last reported is reported.
pub proof fn lemma_change_reported<T>(subs: Seq<Subscription<T>>, values: Seq<Option<Value>>, k: int, i: int, v: Value)
    requires
        0 <= i < k <= values.len(),
        values[i] == Some(v),
        subs[i].retain != Some(v),
    ensures
        exists|a: int| 0 <= a < changes(subs, values, k).len() && #[trigger] changes(subs, values, k)[a] == (i, v),
    decreases k,
{
    if i < k - 1 {
        lemma_change_reported(subs, values, k - 1, i, v);
        let a = choose|a: int| 0 <= a < changes(subs, values, k - 1).len() && #[trigger] changes(subs, values, k - 1)[a] == (i, v);
        assert(changes(subs, values, k)[a] == (i, v));
    } else {
        let c = changes(subs, values, k);
        assert(c[c.len() - 1] == (i, v));
    }
}

/// A subscription just made, whose value is known at the next poll, is
/// reported exactly once by that poll, with that value.
pub proof fn lemma_new_subscription_reported<T>(
    subs: Seq<Subscription<T>>,
    client: Client,
    target: T,
    values: Seq<Option<Value>>,
    v: Value,
)
    requires
        values.len() == subs.len() + 1,
        values[subs.len() as int] == Some(v),
    ensures
        ({
            let next = subs.push(Subscription { client, target, retain: None });
            let c = changes(next, values, values.len() as int);
            &&& c.len() > 0
            &&& c.last() == (subs.len() as int, v)
            &&& forall|a: int| 0 <= a < c.len() - 1 ==> (#[trigger] c[a]).0 < subs.len()
        }),
{
    let next = subs.push(Subscription { client, target, retain: None });
    let n = values.len() as int;
    lemma_changes_ordered(next, values, n);
    lemma_changes_ordered(next, values, n - 1);
    assert(next[n - 1].retain is None);
}

/// Once a client's subscriptions are dropped, no report of a later poll goes
/// to a client of that name.
pub proof fn lemma_closed_client_unreported<T>(subs: Seq<Subscription<T>>, name: Seq<char>, values: Seq<Option<Value>>)
    requires
        values.len() == without_client(subs, name).len(),
    ensures
        forall|a: int| 0 <= a < changes(without_client(subs, name), values, values.len() as int).len()
            ==> without_client(subs, name)[(#[trigger] changes(without_client(subs, name), values, values.len() as int)[a]).0]
                .client.name_view() != name,
{
    let rest = without_client(subs, name);
    let pred = |s: Subscription<T>| s.client.name_view() != name;
    lemma_changes_ordered(rest, values, values.len() as int);
    assert forall|a: int| 0 <= a < changes(rest, values, values.len() as int).len()
        implies rest[(#[trigger] changes(rest, values, values.len() as int)[a]).0].client.name_view() != name by {
        let i = changes(rest, values, values.len() as int)[a].0;
        subs.lemma_filter_pred(pred, i);
    }
}

} // verus!
