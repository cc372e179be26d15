//! Sinks that take the items a worker produces.
use vstd::prelude::*;

verus! {

/// Something that takes items one at a time.
pub trait Consume {
    type Item;
    type Error;

    fn consume(&mut self, value: Self::Item) -> Result<(), Self::Error>;
}

/// A sink that takes every item and drops it.
pub struct SinkConsumer<T> {
    _phantom: std::marker::PhantomData<T>,
}

impl<T> Consume for SinkConsumer<T> {
    type Item = T;
    type Error = ();

    fn consume(&mut self, value: T) -> (r: Result<(), ()>) {
        Ok(())
    }
}

impl<T> SinkConsumer<T> {
    /// Takes `value` and drops it; this never fails.
    pub fn take(&mut self, value: T) -> (r: Result<(), ()>)
        ensures
            r is Ok,
    {
        Ok(())
    }
}

pub fn sink_consumer<T>() -> SinkConsumer<T> {
    SinkConsumer { _phantom: std::marker::PhantomData }
}

} // verus!
