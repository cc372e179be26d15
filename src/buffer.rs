//! A byte buffer of fixed capacity that fills from its end.
use vstd::prelude::*;

verus! {

pub struct Buffer {
    data: Vec<u8>,
    capacity: usize,
}

impl Buffer {
    pub closed spec fn bytes(&self) -> Seq<u8> {
        self.data@
    }

    pub closed spec fn cap(&self) -> nat {
        self.capacity as nat
    }

    pub closed spec fn wf(&self) -> bool {
        self.data@.len() <= self.capacity
    }

    pub fn with_capacity(capacity: usize) -> (r: Buffer)
        ensures
            r.wf(),
            r.bytes().len() == 0,
            r.cap() == capacity,
    {
        Buffer { data: Vec::with_capacity(capacity), capacity }
    }

    pub fn len(&self) -> (r: usize)
        ensures
            r == self.bytes().len(),
    {
        self.data.len()
    }

    /// How many more bytes fit.
    pub fn remaining(&self) -> (r: usize)
        requires
            self.wf(),
        ensures
            r == self.cap() - self.bytes().len(),
    {
        self.capacity - self.data.len()
    }

    pub fn as_slice(&self) -> (r: &[u8])
        ensures
            r@ == self.bytes(),
    {
        self.data.as_slice()
    }

    /// Grows the filled part by `inc` bytes, which must stay below the capacity.
    pub fn extend(&mut self, inc: usize)
        requires
            old(self).wf(),
            old(self).bytes().len() + inc < old(self).cap(),
        ensures
            final(self).wf(),
            final(self).cap() == old(self).cap(),
            final(self).bytes().len() == old(self).bytes().len() + inc,
            final(self).bytes().subrange(0, old(self).bytes().len() as int) == old(self).bytes(),
    {
        let ghost start = self.data@;
        let mut k: usize = 0;
        while k < inc
            invariant
                k <= inc,
                self.data@.len() == start.len() + k,
                self.data@.subrange(0, start.len() as int) == start,
                start.len() + inc < self.capacity,
                self.capacity == old(self).cap(),
            decreases inc - k,
        {
            self.data.push(0);
            k = k + 1;
            assert(self.data@.subrange(0, start.len() as int) =~= start);
        }
    }

    /// Drops the first `n` bytes, keeping the rest in order.
    pub fn consume(&mut self, n: usize)
        requires
            old(self).wf(),
            n <= old(self).bytes().len(),
        ensures
            final(self).wf(),
            final(self).cap() == old(self).cap(),
            final(self).bytes() == old(self).bytes().subrange(n as int, old(self).bytes().len() as int),
    {
        let mut rest: Vec<u8> = Vec::with_capacity(self.capacity);
        let mut i: usize = n;
        while i < self.data.len()
            invariant
                n <= i <= self.data@.len(),
                rest@ == self.data@.subrange(n as int, i as int),
                self.data@ == old(self).bytes(),
                self.capacity == old(self).cap(),
            decreases self.data@.len() - i,
        {
            rest.push(self.data[i]);
            i = i + 1;
            assert(rest@ =~= self.data@.subrange(n as int, i as int));
        }
        self.data = rest;
    }

    pub fn clear(&mut self)
        ensures
            final(self).bytes().len() == 0,
            final(self).cap() == old(self).cap(),
            final(self).wf(),
    {
        self.data.clear();
    }
}

} // verus!
