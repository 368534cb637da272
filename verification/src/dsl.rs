//! Step-by-step set-up of a pipeline: a store of slots, a wait strategy, a
//! sequencer, and then the handlers, group after group. The stages of a
//! group wait on the cursors of the group before it, those of the first
//! group on the producer cursor, and the producer is gated by the cursors
//! of the last group. A handler that changes events is a group by itself.

use crate::barrier::SequenceBarrier;
use crate::consumer::BatchEventProcessor;
use crate::consumer::EventHandler;
use crate::consumer::EventHandlerMut;
use crate::consumer::EventProcessor;
use crate::consumer::EventProcessorMut;
use crate::consumer::Stage;
use crate::executor::EventProcessorExecutor;
use crate::producer::MultiProducerSequencer;
use crate::producer::Producer;
use crate::producer::SingleProducerSequencer;
use crate::ringbuffer::DataProvider;
use crate::ringbuffer::RingBuffer;
use crate::sequence::Sequence;
use crate::sequencer::Sequencer;
use crate::strategy::BlockingWaitStrategy;
use crate::strategy::BusySpinWaitStrategy;
use crate::strategy::WaitStrategy;
use std::marker::PhantomData;
use std::sync::Arc;
use vstd::prelude::*;

verus! {

/// Entry to the set-up.
#[derive(Debug)]
pub struct DisrustorBuilder {}

/// Set-up that has its store of slots.
pub struct WithDataProvider<D: DataProvider<T>, T> {
    data_provider: D,
    _element: PhantomData<T>,
}

/// Set-up that has its store and its wait strategy.
pub struct WithWaitStrategy<W: WaitStrategy, D: DataProvider<T>, T> {
    with_data_provider: WithDataProvider<D, T>,
    _wait_strategy: PhantomData<W>,
}

/// Set-up that has its sequencer and takes handlers.
#[verifier::reject_recursive_types(T)]
#[verifier::reject_recursive_types(D)]
pub struct WithSequencer<S: Sequencer, W: WaitStrategy, D: DataProvider<T>, T> {
    with_wait_strategy: WithWaitStrategy<W, D, T>,
    sequencer: S,
    event_handlers: Vec<Stage<T, D>>,
    group_upstream: Vec<Arc<Sequence>>,
    next_cursors: Vec<Arc<Sequence>>,
    group_shared: bool,
}

impl DisrustorBuilder {
    /// Starts from a store of slots.
    pub fn new<D: DataProvider<T>, T>(data_provider: D) -> (setup: WithDataProvider<D, T>)
        ensures
            setup.provider() == data_provider,
    {
        WithDataProvider { data_provider, _element: PhantomData }
    }

    /// Starts from a new ring of `capacity` slots.
    pub fn with_ring_buffer<T: Default>(capacity: usize) -> (setup: WithDataProvider<
        RingBuffer<T>,
        T,
    >)
        requires
            crate::ringbuffer::is_power_of_two(capacity),
        ensures
            setup.provider().slots().len() == capacity,
            forall|i: int|
                0 <= i < capacity ==> call_ensures(
                    T::default,
                    (),
                    #[trigger] setup.provider().slots()[i],
                ),
    {
        Self::new(RingBuffer::new(capacity))
    }
}

impl<D: DataProvider<T>, T> WithDataProvider<D, T> {
    /// The store of slots.
    pub closed spec fn provider(&self) -> D {
        self.data_provider
    }

    /// Chooses how the consumers wait.
    pub fn with_wait_strategy<W: WaitStrategy>(self) -> (setup: WithWaitStrategy<W, D, T>)
        ensures
            setup.provider() == self.provider(),
    {
        WithWaitStrategy { with_data_provider: self, _wait_strategy: PhantomData }
    }

    /// The consumers wait parked on a condition variable.
    pub fn with_blocking_wait(self) -> (setup: WithWaitStrategy<BlockingWaitStrategy, D, T>)
        ensures
            setup.provider() == self.provider(),
    {
        self.with_wait_strategy()
    }

    /// The consumers wait spinning.
    pub fn with_spin_wait(self) -> (setup: WithWaitStrategy<BusySpinWaitStrategy, D, T>)
        ensures
            setup.provider() == self.provider(),
    {
        self.with_wait_strategy()
    }
}

impl<W: WaitStrategy, D: DataProvider<T>, T> WithWaitStrategy<W, D, T> {
    /// The store of slots.
    pub closed spec fn provider(&self) -> D {
        self.with_data_provider.data_provider
    }

    /// Takes the sequencer. The first stage will wait on its cursor.
    pub fn with_sequencer<S: Sequencer>(self, sequencer: S) -> (setup: WithSequencer<S, W, D, T>)
        ensures
            setup.provider() == self.provider(),
            setup.sequencer() == sequencer,
            setup.stages().len() == 0,
            setup.upstream() == seq![sequencer.cursor()],
            !setup.shareable(),
    {
        let mut next_cursors: Vec<Arc<Sequence>> = Vec::new();
        next_cursors.push(sequencer.get_cursor());
        WithSequencer {
            with_wait_strategy: self,
            event_handlers: Vec::new(),
            group_upstream: Vec::new(),
            next_cursors,
            group_shared: false,
            sequencer,
        }
    }

    /// Makes a sequencer for one producer, as large as the store.
    pub fn with_single_producer(self) -> (setup: WithSequencer<
        SingleProducerSequencer<W>,
        W,
        D,
        T,
    >)
        ensures
            setup.provider() == self.provider(),
            setup.sequencer().buffer_size() == self.provider().slots().len(),
            setup.sequencer().gating() == Seq::<Arc<Sequence>>::empty(),
            setup.sequencer().next_write() == 0,
            setup.sequencer().cached_gate() == crate::sequence::INITIAL_CURSOR,
            setup.sequencer().cursor().started_at() == crate::sequence::INITIAL_CURSOR,
            call_ensures(W::new, (), *setup.sequencer().strategy()),
            setup.stages().len() == 0,
            setup.upstream() == seq![setup.sequencer().cursor()],
            !setup.shareable(),
    {
        let buffer_size: usize = self.with_data_provider.data_provider.buffer_size();
        proof {
            crate::ringbuffer::lemma_slot_in_ring(0, buffer_size);
        }
        self.with_sequencer(SingleProducerSequencer::new(buffer_size, W::new()))
    }

    /// Makes a sequencer for many producers, as large as the store.
    pub fn with_multi_producer(self) -> (setup: WithSequencer<MultiProducerSequencer<W>, W, D, T>)
        ensures
            setup.provider() == self.provider(),
            setup.sequencer().buffer_size() == self.provider().slots().len(),
            setup.sequencer().gating() == Seq::<Arc<Sequence>>::empty(),
            setup.sequencer().cursor().started_at() == crate::sequence::INITIAL_CURSOR,
            setup.sequencer().watermark().started_at() == crate::sequence::INITIAL_CURSOR,
            call_ensures(W::new, (), *setup.sequencer().strategy()),
            setup.stages().len() == 0,
            setup.upstream() == seq![setup.sequencer().cursor()],
            !setup.shareable(),
    {
        let buffer_size: usize = self.with_data_provider.data_provider.buffer_size();
        proof {
            crate::ringbuffer::lemma_slot_in_ring(0, buffer_size);
        }
        self.with_sequencer(MultiProducerSequencer::new(buffer_size, W::new()))
    }
}

impl<S: Sequencer, W: WaitStrategy, D: DataProvider<T>, T> WithSequencer<S, W, D, T> {
    /// The store of slots.
    pub closed spec fn provider(&self) -> D {
        self.with_wait_strategy.with_data_provider.data_provider
    }

    /// The sequencer.
    pub closed spec fn sequencer(&self) -> S {
        self.sequencer
    }

    /// The stages set up so far, in their order.
    pub closed spec fn stages(&self) -> Seq<Stage<T, D>> {
        self.event_handlers@
    }

    /// The cursors that the next group of stages will wait on: the
    /// cursors of the last group, or the producer cursor where there is
    /// no stage yet.
    pub closed spec fn upstream(&self) -> Seq<Arc<Sequence>> {
        self.next_cursors@
    }

    /// The cursors that the stages of the last group wait on.
    pub closed spec fn group_upstream(&self) -> Seq<Arc<Sequence>> {
        self.group_upstream@
    }

    /// Whether the last group takes further stages: it does where all its
    /// handlers only read.
    pub closed spec fn shareable(&self) -> bool {
        self.group_shared
    }

    /// Whether the last group takes further stages.
    pub fn shares_stage(&self) -> (yes: bool)
        ensures
            yes == self.shareable(),
    {
        self.group_shared
    }
}

impl<S: Sequencer, W: WaitStrategy, D: DataProvider<T> + 'static, T: Send + 'static> WithSequencer<
    S,
    W,
    D,
    T,
> {
    /// Adds a stage around a reading handler, as a group of its own
    /// behind the groups set up so far. Further reading handlers may join
    /// it.
    pub fn handle_events<E: EventHandler<T> + Send + 'static>(self, handler: E) -> (setup: Self)
        ensures
            setup.provider() == self.provider(),
            setup.stages().drop_last() == self.stages(),
            setup.stages().len() == self.stages().len() + 1,
            setup.stages().last().waits_on() == self.upstream(),
            setup.upstream() == seq![setup.stages().last().cursor()],
            setup.group_upstream() == self.upstream(),
            setup.shareable(),
            setup.stages().last().last_handled() == crate::sequence::INITIAL_CURSOR,
            crate::sequencer::same_claims(self.sequencer(), setup.sequencer()),
            setup.sequencer().gating() == self.sequencer().gating(),
    {
        self.start_group(BatchEventProcessor::create(handler), true)
    }

    /// Adds a stage around a changing handler, as a group of its own
    /// behind the groups set up so far. No other handler may join it: the
    /// handler is alone with the events that it changes.
    pub fn handle_events_mut<E: EventHandlerMut<T> + Send + 'static>(self, handler: E) -> (setup:
        Self)
        ensures
            setup.provider() == self.provider(),
            setup.stages().drop_last() == self.stages(),
            setup.stages().len() == self.stages().len() + 1,
            setup.stages().last().waits_on() == self.upstream(),
            setup.upstream() == seq![setup.stages().last().cursor()],
            setup.group_upstream() == self.upstream(),
            !setup.shareable(),
            setup.stages().last().last_handled() == crate::sequence::INITIAL_CURSOR,
            crate::sequencer::same_claims(self.sequencer(), setup.sequencer()),
            setup.sequencer().gating() == self.sequencer().gating(),
    {
        self.start_group(BatchEventProcessor::create_mut(handler), false)
    }

    /// Adds a stage as a group of its own behind the groups set up so
    /// far: the processor gets a barrier on the cursors of the group
    /// before it, and its own cursor becomes what the next group waits on.
    /// The processor may change events, so no other handler may join it.
    pub fn handle_events_with<P: EventProcessorMut<T>>(self, processor: P) -> (setup: Self)
        ensures
            setup.provider() == self.provider(),
            setup.stages().drop_last() == self.stages(),
            setup.stages().len() == self.stages().len() + 1,
            setup.stages().last().waits_on() == self.upstream(),
            setup.stages().last().cursor() == processor.cursor(),
            setup.upstream() == seq![processor.cursor()],
            setup.group_upstream() == self.upstream(),
            !setup.shareable(),
            setup.stages().last().last_handled() == crate::sequence::INITIAL_CURSOR,
            crate::sequencer::same_claims(self.sequencer(), setup.sequencer()),
            setup.sequencer().gating() == self.sequencer().gating(),
    {
        self.start_group(processor, false)
    }

    /// Adds a stage around a reading handler to the last group: it waits
    /// on the same cursors as the stages of that group, and the next group
    /// will wait on its cursor as well.
    pub fn handle_events_alongside<E: EventHandler<T> + Send + 'static>(self, handler: E) -> (setup:
        Self)
        requires
            self.shareable(),
        ensures
            setup.provider() == self.provider(),
            setup.stages().drop_last() == self.stages(),
            setup.stages().len() == self.stages().len() + 1,
            setup.stages().last().waits_on() == self.group_upstream(),
            setup.upstream() == self.upstream().push(setup.stages().last().cursor()),
            setup.group_upstream() == self.group_upstream(),
            setup.shareable(),
            setup.stages().last().last_handled() == crate::sequence::INITIAL_CURSOR,
            crate::sequencer::same_claims(self.sequencer(), setup.sequencer()),
            setup.sequencer().gating() == self.sequencer().gating(),
    {
        self.join_group(BatchEventProcessor::create(handler))
    }

    /// Adds a reading processor to the last group: it waits on the same
    /// cursors as the stages of that group, and the next group will wait
    /// on its cursor as well.
    pub fn handle_events_alongside_with<P: EventProcessor<T>>(self, processor: P) -> (setup: Self)
        requires
            self.shareable(),
        ensures
            setup.provider() == self.provider(),
            setup.stages().drop_last() == self.stages(),
            setup.stages().len() == self.stages().len() + 1,
            setup.stages().last().waits_on() == self.group_upstream(),
            setup.stages().last().cursor() == processor.cursor(),
            setup.upstream() == self.upstream().push(processor.cursor()),
            setup.group_upstream() == self.group_upstream(),
            setup.shareable(),
            setup.stages().last().last_handled() == crate::sequence::INITIAL_CURSOR,
            crate::sequencer::same_claims(self.sequencer(), setup.sequencer()),
            setup.sequencer().gating() == self.sequencer().gating(),
    {
        self.join_group(processor)
    }

    /// Adds the processor as a new group behind the groups set up so far.
    fn start_group<P: EventProcessorMut<T>>(self, processor: P, shared: bool) -> (setup: Self)
        ensures
            setup.provider() == self.provider(),
            setup.stages().drop_last() == self.stages(),
            setup.stages().len() == self.stages().len() + 1,
            setup.stages().last().waits_on() == self.upstream(),
            setup.stages().last().cursor() == processor.cursor(),
            setup.upstream() == seq![processor.cursor()],
            setup.group_upstream() == self.upstream(),
            setup.shareable() == shared,
            setup.stages().last().last_handled() == crate::sequence::INITIAL_CURSOR,
            crate::sequencer::same_claims(self.sequencer(), setup.sequencer()),
            setup.sequencer().gating() == self.sequencer().gating(),
    {
        let mut setup = self;
        let barrier = setup.sequencer.create_barrier(setup.next_cursors.as_slice());
        let mut next_cursors: Vec<Arc<Sequence>> = Vec::new();
        next_cursors.push(processor.get_cursor());
        let runnable = processor.prepare(barrier);
        setup.event_handlers.push(runnable);
        assert(setup.event_handlers@.drop_last() =~= self.event_handlers@);
        WithSequencer {
            with_wait_strategy: setup.with_wait_strategy,
            sequencer: setup.sequencer,
            event_handlers: setup.event_handlers,
            group_upstream: setup.next_cursors,
            next_cursors,
            group_shared: shared,
        }
    }

    /// Adds the processor to the last group.
    fn join_group<P: EventProcessorMut<T>>(self, processor: P) -> (setup: Self)
        ensures
            setup.provider() == self.provider(),
            setup.stages().drop_last() == self.stages(),
            setup.stages().len() == self.stages().len() + 1,
            setup.stages().last().waits_on() == self.group_upstream(),
            setup.stages().last().cursor() == processor.cursor(),
            setup.upstream() == self.upstream().push(processor.cursor()),
            setup.group_upstream() == self.group_upstream(),
            setup.shareable() == self.shareable(),
            setup.stages().last().last_handled() == crate::sequence::INITIAL_CURSOR,
            crate::sequencer::same_claims(self.sequencer(), setup.sequencer()),
            setup.sequencer().gating() == self.sequencer().gating(),
    {
        let mut setup = self;
        let barrier = setup.sequencer.create_barrier(setup.group_upstream.as_slice());
        setup.next_cursors.push(processor.get_cursor());
        let runnable = processor.prepare(barrier);
        setup.event_handlers.push(runnable);
        assert(setup.event_handlers@.drop_last() =~= self.event_handlers@);
        setup
    }

    /// Ends the set-up: the cursors of the last group are registered as
    /// the gating cursors of the producer. Returns the stages, in their
    /// order, the producer, and the store.
    pub fn build(self) -> (built: (Vec<Stage<T, D>>, Producer<D, T, S>, D))
        ensures
            built.0@ == self.stages(),
            crate::sequencer::same_claims(self.sequencer(), built.1.sequencer()),
            built.1.sequencer().gating() == self.sequencer().gating() + self.upstream(),
            built.2 == self.provider(),
    {
        let mut setup = self;
        let ghost gating = setup.sequencer.gating();
        let mut i: usize = 0;
        while i < setup.next_cursors.len()
            invariant
                i <= setup.next_cursors.len(),
                setup.next_cursors == self.next_cursors,
                setup.group_upstream == self.group_upstream,
                setup.group_shared == self.group_shared,
                setup.event_handlers == self.event_handlers,
                setup.with_wait_strategy == self.with_wait_strategy,
                crate::sequencer::same_claims(self.sequencer, setup.sequencer),
                setup.sequencer.gating() == gating + setup.next_cursors@.subrange(0, i as int),
            decreases setup.next_cursors.len() - i,
        {
            setup.sequencer.add_gating_sequence(&setup.next_cursors[i]);
            assert(setup.next_cursors@.subrange(0, i as int).push(setup.next_cursors@[i as int])
                =~= setup.next_cursors@.subrange(0, i + 1));
            i += 1;
        }
        assert(setup.next_cursors@.subrange(0, i as int) =~= setup.next_cursors@);
        let producer = Producer::new(setup.sequencer);
        (setup.event_handlers, producer, setup.with_wait_strategy.with_data_provider.data_provider)
    }

    /// Ends the set-up as `build` does, and hands the stages to an
    /// executor of the given kind.
    pub fn build_with_executor<X: EventProcessorExecutor<T, D>>(self) -> (built: (
        X,
        Producer<D, T, S>,
        D,
    ))
        ensures
            built.0.runnables() == self.stages(),
            crate::sequencer::same_claims(self.sequencer(), built.1.sequencer()),
            built.1.sequencer().gating() == self.sequencer().gating() + self.upstream(),
            built.2 == self.provider(),
    {
        let (stages, producer, data_provider) = self.build();
        (X::with_runnables(stages), producer, data_provider)
    }
}

} // verus!
