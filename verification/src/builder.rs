//! The typed entry to the set-up of a pipeline.

use crate::dsl::DisrustorBuilder;
use crate::dsl::WithDataProvider;
use crate::ringbuffer::DataProvider;
use crate::ringbuffer::RingBuffer;
use vstd::prelude::*;

verus! {

/// A set-up in the state `State`.
#[derive(Debug)]
pub struct Disrustor<State> {
    state: State,
}

/// The state of a set-up for which nothing is chosen yet.
#[derive(Debug, Default)]
pub struct Initial;

impl<State> Disrustor<State> {
    /// The state of the set-up.
    pub closed spec fn state(&self) -> State {
        self.state
    }

    /// A set-up for which nothing is chosen yet.
    pub fn builder() -> (setup: Disrustor<Initial>)
        ensures
            setup.state() == Initial,
    {
        Disrustor { state: Initial }
    }
}

impl Disrustor<Initial> {
    /// Chooses the store of slots.
    pub fn with_data_provider<D: DataProvider<T>, T>(self, data_provider: D) -> (setup:
        WithDataProvider<D, T>)
        ensures
            setup.provider() == data_provider,
    {
        DisrustorBuilder::new(data_provider)
    }

    /// Chooses a new ring of `capacity` slots as the store.
    pub fn with_ring_buffer<T: Default>(self, capacity: usize) -> (setup: WithDataProvider<
        RingBuffer<T>,
        T,
    >)
        requires
            crate::ringbuffer::is_power_of_two(capacity),
        ensures
            setup.provider().slots().len() == capacity,
            forall|i: int|
                0 <= i < capacity ==> call_ensures(
                    T::default,
                    (),
                    #[trigger] setup.provider().slots()[i],
                ),
    {
        DisrustorBuilder::with_ring_buffer(capacity)
    }
}

} // verus!
