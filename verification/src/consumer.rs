//! The consumer's side: handlers, and the batch processor that feeds a
//! handler every event that its barrier lets through, in sequence order.
//!
//! A processor works one turn at a time. In a turn it waits one round on
//! its barrier; where sequences are free, it hands all of them to the
//! handler as one batch, moves its cursor to the last of them and wakes the
//! consumers behind it. Whoever drives the processor calls for turn after
//! turn until one reports `Halted`.

use crate::barrier::SequenceBarrier;
use crate::ringbuffer::DataProvider;
use crate::sequence::share;
use crate::sequence::Sequence;
use crate::sequence::SequenceGuard;
use crate::strategy::WaitOutcome;
use std::marker::PhantomData;
use std::sync::Arc;
use vstd::prelude::*;

verus! {

/// A consumer that reads events.
pub trait EventHandler<T>: Sized {
    /// What one call does to the handler: from `pre`, shown `event` under
    /// `sequence`, it may become `post`. An implementation says here as
    /// much as it wants known of itself; `true` says nothing.
    open spec fn handles(
        pre: Self,
        event: T,
        sequence: i64,
        end_of_batch: bool,
        post: Self,
    ) -> bool {
        true
    }

    /// Called once for every sequence, in order. `end_of_batch` is set on
    /// the last event that is free at that moment, so that a handler can
    /// put off costly work to the end of a batch.
    fn handle_event(&mut self, event: &T, sequence: i64, end_of_batch: bool)
        ensures
            Self::handles(*old(self), *event, sequence, end_of_batch, *final(self)),
    ;
}

/// A consumer that may change the events it is shown. It must be the only
/// consumer of its stage.
pub trait EventHandlerMut<T>: Sized {
    /// What one call does: from `pre`, shown the slot holding `before`
    /// under `sequence`, the handler may become `post` and leave `after` in
    /// the slot.
    open spec fn handles(
        pre: Self,
        before: T,
        sequence: i64,
        end_of_batch: bool,
        after: T,
        post: Self,
    ) -> bool {
        true
    }

    /// Called once for every sequence, in order, with the slot to change.
    fn handle_event(&mut self, event: &mut T, sequence: i64, end_of_batch: bool)
        ensures
            Self::handles(
                *old(self),
                *old(event),
                sequence,
                end_of_batch,
                *final(event),
                *final(self),
            ),
    ;
}

/// A reading handler made of a function that takes every event.
pub struct FnHandler<T, F: Fn(&T, i64, bool)> {
    f: F,
    _event: PhantomData<T>,
}

impl<T, F: Fn(&T, i64, bool)> FnHandler<T, F> {
    #[verifier::type_invariant]
    spec fn takes_every_event(&self) -> bool {
        forall|event: T, sequence: i64, end_of_batch: bool|
            call_requires(self.f, (&event, sequence, end_of_batch))
    }

    /// The function.
    pub closed spec fn function(&self) -> F {
        self.f
    }

    /// A handler that calls `f` on every event.
    pub fn new(f: F) -> (handler: Self)
        requires
            forall|event: T, sequence: i64, end_of_batch: bool|
                call_requires(f, (&event, sequence, end_of_batch)),
        ensures
            handler.function() == f,
    {
        FnHandler { f, _event: PhantomData }
    }
}

impl<T, F: Fn(&T, i64, bool)> EventHandler<T> for FnHandler<T, F> {
    /// The handler stays as it is, and the function has run on the event.
    open spec fn handles(
        pre: Self,
        event: T,
        sequence: i64,
        end_of_batch: bool,
        post: Self,
    ) -> bool {
        post == pre && call_ensures(pre.function(), (&event, sequence, end_of_batch), ())
    }

    fn handle_event(&mut self, event: &T, sequence: i64, end_of_batch: bool) {
        proof {
            use_type_invariant(&*self);
        }
        (self.f)(event, sequence, end_of_batch);
    }
}

/// A changing handler made of a function that takes every event.
pub struct FnHandlerMut<T, F: Fn(&mut T, i64, bool)> {
    f: F,
    _event: PhantomData<T>,
}

impl<T, F: Fn(&mut T, i64, bool)> FnHandlerMut<T, F> {
    #[verifier::type_invariant]
    spec fn takes_every_event(&self) -> bool {
        forall|event: &mut T, sequence: i64, end_of_batch: bool|
            call_requires(self.f, (event, sequence, end_of_batch))
    }

    /// The function.
    pub closed spec fn function(&self) -> F {
        self.f
    }

    /// A handler that calls `f` on every event.
    pub fn new(f: F) -> (handler: Self)
        requires
            forall|event: &mut T, sequence: i64, end_of_batch: bool|
                call_requires(f, (event, sequence, end_of_batch)),
        ensures
            handler.function() == f,
    {
        FnHandlerMut { f, _event: PhantomData }
    }
}

impl<T, F: Fn(&mut T, i64, bool)> EventHandlerMut<T> for FnHandlerMut<T, F> {
    /// The handler stays as it is.
    open spec fn handles(
        pre: Self,
        before: T,
        sequence: i64,
        end_of_batch: bool,
        after: T,
        post: Self,
    ) -> bool {
        post == pre
    }

    /// Runs the function on the slot: what the slot holds afterwards is
    /// what the function made of it.
    fn handle_event(&mut self, event: &mut T, sequence: i64, end_of_batch: bool)
        ensures
            exists|slot: &mut T|
                *slot == *old(event) && *final(slot) == *final(event) && call_ensures(
                    old(self).function(),
                    (slot, sequence, end_of_batch),
                    (),
                ),
    {
        proof {
            use_type_invariant(&*self);
        }
        (self.f)(event, sequence, end_of_batch);
    }
}

/// The `i`-th call of a batch that starts at `first` and ends at `last`
/// took a reading handler from `states[i]` to `states[i + 1]`: it was shown
/// the slot of the sequence `first + i`, marked as the end of the batch
/// where that is `last`.
pub open spec fn reading_step<T, E: EventHandler<T>>(
    states: Seq<E>,
    slots: Seq<T>,
    first: int,
    last: int,
    i: int,
) -> bool {
    E::handles(
        states[i],
        slots[crate::ringbuffer::slot_index((first + i) as i64, slots.len())],
        (first + i) as i64,
        first + i == last,
        states[i + 1],
    )
}

/// `states` are the states that a reading handler went through while it
/// was shown the batch `first ..= last`: the state before the batch, and
/// the state after each sequence, in order.
pub open spec fn is_reading_trace<T, E: EventHandler<T>>(
    states: Seq<E>,
    slots: Seq<T>,
    first: int,
    last: int,
) -> bool {
    &&& states.len() == last - first + 2
    &&& forall|i: int|
        0 <= i <= last - first ==> #[trigger] reading_step(states, slots, first, last, i)
}

/// A reading handler has been shown the sequences `first ..= last` as one
/// batch, one after the other and each once, and has gone from `pre` to
/// `post`.
pub open spec fn batch_handled<T, E: EventHandler<T>>(
    pre: E,
    slots: Seq<T>,
    first: int,
    last: int,
    post: E,
) -> bool {
    exists|states: Seq<E>| #[trigger]
        is_reading_trace(states, slots, first, last) && states.first() == pre && states.last()
            == post
}

/// The `i`-th call of a batch that starts at `first` and ends at `last`
/// took a changing handler from `states[i]` to `states[i + 1]` and the
/// slots from `rings[i]` to `rings[i + 1]`: it was handed the slot of the
/// sequence `first + i`, marked as the end of the batch where that is
/// `last`, and no other slot changed.
pub open spec fn changing_step<T, E: EventHandlerMut<T>>(
    states: Seq<E>,
    rings: Seq<Seq<T>>,
    first: int,
    last: int,
    i: int,
) -> bool {
    let place = crate::ringbuffer::slot_index((first + i) as i64, rings[i].len());
    &&& E::handles(
        states[i],
        rings[i][place],
        (first + i) as i64,
        first + i == last,
        rings[i + 1][place],
        states[i + 1],
    )
    &&& rings[i + 1] == rings[i].update(place, rings[i + 1][place])
}

/// `states` and `rings` are the states that a changing handler and the
/// slots went through while the handler was handed the batch
/// `first ..= last`: before the batch, and after each sequence, in order.
pub open spec fn is_changing_trace<T, E: EventHandlerMut<T>>(
    states: Seq<E>,
    rings: Seq<Seq<T>>,
    first: int,
    last: int,
) -> bool {
    &&& states.len() == last - first + 2
    &&& rings.len() == last - first + 2
    &&& forall|i: int|
        0 <= i <= last - first ==> #[trigger] changing_step(states, rings, first, last, i)
}

/// A changing handler has been handed the slots of the sequences
/// `first ..= last` as one batch, one after the other and each once; it has
/// gone from `pre` to `post`, and the slots from `before` to `after`.
pub open spec fn batch_changed<T, E: EventHandlerMut<T>>(
    pre: E,
    before: Seq<T>,
    first: int,
    last: int,
    post: E,
    after: Seq<T>,
) -> bool {
    exists|states: Seq<E>, rings: Seq<Seq<T>>| #[trigger]
        is_changing_trace(states, rings, first, last) && states.first() == pre && states.last()
            == post && rings.first() == before && rings.last() == after
}

/// Over the calls `from .. to` of a batch, a slot that is the slot of none
/// of their sequences stays as it is, and the ring keeps its size.
pub proof fn lemma_slot_stays<T, E: EventHandlerMut<T>>(
    states: Seq<E>,
    rings: Seq<Seq<T>>,
    first: int,
    last: int,
    capacity: usize,
    slot: int,
    from: int,
    to: int,
)
    requires
        is_changing_trace(states, rings, first, last),
        crate::ringbuffer::is_power_of_two(capacity),
        i64::MIN <= first <= last <= i64::MAX,
        0 <= from <= to <= last - first + 1,
        rings[from].len() == capacity,
        0 <= slot < capacity,
        forall|k: int|
            from <= k < to ==> #[trigger] crate::ringbuffer::slot_index(
                (first + k) as i64,
                capacity as nat,
            ) != slot,
    ensures
        rings[to].len() == capacity,
        rings[to][slot] == rings[from][slot],
    decreases to - from,
{
    if from < to {
        lemma_slot_stays(states, rings, first, last, capacity, slot, from, to - 1);
        assert(changing_step(states, rings, first, last, to - 1));
        crate::ringbuffer::lemma_slot_in_ring((first + (to - 1)) as i64, capacity);
        assert(crate::ringbuffer::slot_index((first + (to - 1)) as i64, capacity as nat) != slot);
    }
}

/// A batch within one lap of the ring hands every slot of the batch to
/// the handler once, in place, and touches no other slot. The slot of the
/// `i`-th sequence of the batch holds after the batch what the `i`-th call
/// made of what the slot held before the batch; a slot of no sequence of
/// the batch holds what it held before.
pub proof fn law_batch_changes_each_slot_once<T, E: EventHandlerMut<T>>(
    states: Seq<E>,
    rings: Seq<Seq<T>>,
    first: int,
    last: int,
    capacity: usize,
    i: int,
)
    requires
        is_changing_trace(states, rings, first, last),
        crate::ringbuffer::is_power_of_two(capacity),
        rings.first().len() == capacity,
        i64::MIN <= first <= last <= i64::MAX,
        last - first < capacity,
        0 <= i <= last - first,
    ensures
        rings.last().len() == capacity,
        0 <= crate::ringbuffer::slot_index((first + i) as i64, capacity as nat) < capacity,
        E::handles(
            states[i],
            rings.first()[crate::ringbuffer::slot_index((first + i) as i64, capacity as nat)],
            (first + i) as i64,
            first + i == last,
            rings.last()[crate::ringbuffer::slot_index((first + i) as i64, capacity as nat)],
            states[i + 1],
        ),
        forall|slot: int|
            0 <= slot < capacity && (forall|k: int|
                0 <= k <= last - first ==> #[trigger] crate::ringbuffer::slot_index(
                    (first + k) as i64,
                    capacity as nat,
                ) != slot) ==> #[trigger] rings.last()[slot] == rings.first()[slot],
{
    let end = last - first + 1;
    let place = crate::ringbuffer::slot_index((first + i) as i64, capacity as nat);
    crate::ringbuffer::lemma_slot_in_ring((first + i) as i64, capacity);
    assert forall|k: int| 0 <= k < i implies #[trigger] crate::ringbuffer::slot_index(
        (first + k) as i64,
        capacity as nat,
    ) != place by {
        crate::ringbuffer::lemma_slots_distinct((first + k) as i64, (first + i) as i64, capacity);
    }
    lemma_slot_stays(states, rings, first, last, capacity, place, 0, i);
    assert(changing_step(states, rings, first, last, i));
    assert forall|k: int| i + 1 <= k < end implies #[trigger] crate::ringbuffer::slot_index(
        (first + k) as i64,
        capacity as nat,
    ) != place by {
        crate::ringbuffer::lemma_slots_distinct((first + i) as i64, (first + k) as i64, capacity);
    }
    lemma_slot_stays(states, rings, first, last, capacity, place, i + 1, end);
    assert forall|slot: int|
        0 <= slot < capacity && (forall|k: int|
            0 <= k <= last - first ==> #[trigger] crate::ringbuffer::slot_index(
                (first + k) as i64,
                capacity as nat,
            ) != slot) implies #[trigger] rings.last()[slot] == rings.first()[slot] by {
        lemma_slot_stays(states, rings, first, last, capacity, slot, 0, end);
    }
}

/// How a turn of a processor ended.
#[derive(Clone, Copy, Debug, PartialEq, Eq, Structural)]
pub enum Turn {
    /// The sequences from the first to the second value were handled as
    /// one batch.
    Handled(i64, i64),
    /// Nothing was free yet.
    Idle,
    /// The barrier was alerted, or the sequences are used up: the
    /// processor is done.
    Halted,
}

/// The turn that a processor takes on the outcome of its round of waiting,
/// with `processed` the last sequence it has handled: it handles what is
/// free as one batch behind `processed`, halts on an alert, and idles
/// where nothing is free.
pub open spec fn turn_on(processed: i64, outcome: WaitOutcome) -> Turn {
    match outcome {
        WaitOutcome::Ready(available) => Turn::Handled((processed + 1) as i64, available),
        WaitOutcome::Alerted => Turn::Halted,
        WaitOutcome::Pending => Turn::Idle,
    }
}

/// A processor that is wired to its barrier and can take turns on a store
/// of type `D`.
pub trait Runnable<T, D: DataProvider<T>>: Send {
    /// The last sequence handled, `-1` before the first. An
    /// implementation says here what it is.
    open spec fn last_handled(&self) -> i64 {
        arbitrary()
    }

    /// The cursors that the processor waits on. An implementation says
    /// here what they are.
    open spec fn waits_on(&self) -> Seq<Arc<Sequence>> {
        arbitrary()
    }

    /// The cursor by which the processor shows how far it has come. An
    /// implementation says here what it is.
    open spec fn shown_by(&self) -> Arc<Sequence> {
        arbitrary()
    }

    /// One turn on `ring`. A batch starts right behind the last sequence
    /// handled, is not empty, and its end is the last sequence handled
    /// from then on. A turn that handles nothing leaves the slots and the
    /// last sequence handled as they were. The number of slots stays, and
    /// so does the wiring.
    fn turn(&mut self, ring: &mut D) -> (turn: Turn)
        ensures
            final(ring).slots().len() == old(ring).slots().len(),
            turn is Handled ==> turn->0 == old(self).last_handled() + 1 && turn->0 <= turn->1
                && final(self).last_handled() == turn->1,
            !(turn is Handled) ==> final(ring).slots() == old(ring).slots() && final(
                self).last_handled() == old(self).last_handled(),
            final(self).waits_on() == old(self).waits_on(),
            final(self).shown_by() == old(self).shown_by(),
    ;
}

/// One stage of a pipeline: some processor, wired and ready to take turns.
///
/// The processor is held in a vector of one. What is known of a boxed
/// processor stays known of an element of a vector; it would be lost in a
/// field of its own.
#[verifier::reject_recursive_types(T)]
#[verifier::reject_recursive_types(D)]
pub struct Stage<T, D: DataProvider<T>> {
    held: Vec<Box<dyn Runnable<T, D>>>,
}

impl<T, D: DataProvider<T>> Stage<T, D> {
    /// The cursors that the processor of the stage waits on.
    pub closed spec fn waits_on(&self) -> Seq<Arc<Sequence>> {
        self.held@[0].waits_on()
    }

    /// The cursor by which the processor of the stage shows how far it
    /// has come.
    pub closed spec fn cursor(&self) -> Arc<Sequence> {
        self.held@[0].shown_by()
    }

    /// The last sequence that the processor of the stage has handled.
    pub closed spec fn last_handled(&self) -> i64 {
        self.held@[0].last_handled()
    }

    /// A stage around the processor: it stands where the processor
    /// stands, and is wired as the processor is.
    pub fn new(runnable: Box<dyn Runnable<T, D>>) -> (stage: Self)
        ensures
            stage.last_handled() == runnable.last_handled(),
            stage.waits_on() == runnable.waits_on(),
            stage.cursor() == runnable.shown_by(),
    {
        let mut held = Vec::new();
        held.push(runnable);
        Stage { held }
    }

    /// One turn of the processor on `ring`. A batch starts right behind
    /// the last sequence handled, is not empty, and its end is the last
    /// sequence handled from then on. A turn that handles nothing leaves
    /// the slots and the last sequence handled as they were. The number of
    /// slots and the wiring stay.
    pub fn turn(&mut self, ring: &mut D) -> (turn: Turn)
        ensures
            final(ring).slots().len() == old(ring).slots().len(),
            turn is Handled ==> turn->0 == old(self).last_handled() + 1 && turn->0 <= turn->1
                && final(self).last_handled() == turn->1,
            !(turn is Handled) ==> final(ring).slots() == old(ring).slots() && final(
                self).last_handled() == old(self).last_handled(),
            final(self).waits_on() == old(self).waits_on(),
            final(self).cursor() == old(self).cursor(),
    {
        if self.held.len() == 1 {
            self.held[0].turn(ring)
        } else {
            Turn::Halted
        }
    }
}

/// A processor that is not yet wired: it owns a handler and a cursor.
pub trait EventProcessorMut<T>: Sized {
    /// Wires the processor to the barrier it is to wait on: the stage
    /// waits on what the barrier waits on, moves the cursor of the
    /// processor, and has handled nothing yet.
    fn prepare<B: SequenceBarrier + 'static, D: DataProvider<T> + 'static>(
        self,
        barrier: B,
    ) -> (stage: Stage<T, D>)
        ensures
            stage.waits_on() == barrier.upstream(),
            stage.cursor() == self.cursor(),
            stage.last_handled() == crate::sequence::INITIAL_CURSOR,
    ;

    /// The cursor of this processor. An implementation says here what it
    /// is.
    open spec fn cursor(&self) -> Arc<Sequence> {
        arbitrary()
    }

    /// The cursor that tells how far this processor has come.
    fn get_cursor(&self) -> (cursor: Arc<Sequence>)
        ensures
            cursor == self.cursor(),
    ;
}

/// A processor that only reads the events.
pub trait EventProcessor<T>: EventProcessorMut<T> {
}

/// Maker of the processors that hand events to a handler in batches.
pub struct BatchEventProcessor;

impl BatchEventProcessor {
    /// A processor around a reading handler, with a cursor that has seen
    /// nothing yet.
    pub fn create<E: EventHandler<T> + Send + 'static, T: Send + 'static>(
        handler: E,
    ) -> (processor: Processor<E, T>)
        ensures
            processor.handler() == handler,
            processor.own_cursor().started_at() == crate::sequence::INITIAL_CURSOR,
    {
        Processor { handler, cursor: Arc::new(Sequence::default()), _marker: PhantomData }
    }

    /// A processor around a changing handler, with a cursor that has seen
    /// nothing yet.
    pub fn create_mut<E: EventHandlerMut<T> + Send + 'static, T: Send + 'static>(
        handler: E,
    ) -> (processor: ProcessorMut<E, T>)
        ensures
            processor.handler() == handler,
            processor.own_cursor().started_at() == crate::sequence::INITIAL_CURSOR,
    {
        ProcessorMut { handler, cursor: Arc::new(Sequence::default()), _marker: PhantomData }
    }
}

/// A reading handler with its cursor.
pub struct Processor<E, T> {
    handler: E,
    cursor: Arc<Sequence>,
    _marker: PhantomData<T>,
}

/// A changing handler with its cursor.
pub struct ProcessorMut<E, T> {
    handler: E,
    cursor: Arc<Sequence>,
    _marker: PhantomData<T>,
}

impl<E, T> Processor<E, T> {
    /// The handler.
    pub closed spec fn handler(&self) -> E {
        self.handler
    }

    /// The cursor.
    pub closed spec fn own_cursor(&self) -> Arc<Sequence> {
        self.cursor
    }
}

impl<E, T> ProcessorMut<E, T> {
    /// The handler.
    pub closed spec fn handler(&self) -> E {
        self.handler
    }

    /// The cursor.
    pub closed spec fn own_cursor(&self) -> Arc<Sequence> {
        self.cursor
    }
}

/// A reading processor wired to its barrier. `processed` is the last
/// sequence handled, `-1` before the first; only this processor moves it.
pub struct RunnableProcessor<E, T, B: SequenceBarrier> {
    processor: Processor<E, T>,
    barrier: B,
    processed: i64,
}

/// A changing processor wired to its barrier. `processed` is the last
/// sequence handled, `-1` before the first; only this processor moves it.
pub struct RunnableProcessorMut<E, T, B: SequenceBarrier> {
    processor: ProcessorMut<E, T>,
    barrier: B,
    processed: i64,
}

impl<E: EventHandler<T> + Send + 'static, T: Send + 'static> EventProcessorMut<T> for Processor<
    E,
    T,
> {
    fn prepare<B: SequenceBarrier + 'static, D: DataProvider<T> + 'static>(
        self,
        barrier: B,
    ) -> (stage: Stage<T, D>) {
        Stage::new(Box::new(RunnableProcessor::wire(self, barrier)))
    }

    open spec fn cursor(&self) -> Arc<Sequence> {
        self.own_cursor()
    }

    fn get_cursor(&self) -> (cursor: Arc<Sequence>) {
        share(&self.cursor)
    }
}

impl<E: EventHandlerMut<T> + Send + 'static, T: Send + 'static> EventProcessorMut<
    T,
> for ProcessorMut<E, T> {
    fn prepare<B: SequenceBarrier + 'static, D: DataProvider<T> + 'static>(
        self,
        barrier: B,
    ) -> (stage: Stage<T, D>) {
        Stage::new(Box::new(RunnableProcessorMut::wire(self, barrier)))
    }

    open spec fn cursor(&self) -> Arc<Sequence> {
        self.own_cursor()
    }

    fn get_cursor(&self) -> (cursor: Arc<Sequence>) {
        share(&self.cursor)
    }
}

impl<E: EventHandler<T> + Send + 'static, T: Send + 'static> EventProcessor<T> for Processor<
    E,
    T,
> {
}

impl<E: EventHandler<T>, T, B: SequenceBarrier> RunnableProcessor<E, T, B> {
    /// The handler as it is now.
    pub closed spec fn handler(&self) -> E {
        self.processor.handler
    }

    /// The cursor that shows the others how far this processor has come.
    pub closed spec fn cursor(&self) -> Arc<Sequence> {
        self.processor.cursor
    }

    /// The barrier waited on.
    pub closed spec fn barrier(&self) -> B {
        self.barrier
    }

    /// The last sequence handled, `-1` before the first. The next batch
    /// starts right behind it.
    pub closed spec fn processed(&self) -> i64 {
        self.processed
    }

    /// A processor that has handled nothing yet.
    pub fn wire(processor: Processor<E, T>, barrier: B) -> (runnable: Self)
        ensures
            runnable.handler() == processor.handler(),
            runnable.cursor() == processor.own_cursor(),
            runnable.barrier() == barrier,
            runnable.processed() == crate::sequence::INITIAL_CURSOR,
    {
        RunnableProcessor { processor, barrier, processed: crate::sequence::INITIAL_CURSOR }
    }

    /// Shows the handler the sequences from the one after the last handled
    /// up to `available`, in order, the last one marked as the end of the
    /// batch; then moves the cursor to `available` and wakes the consumers
    /// behind.
    pub fn handle_batch<D: DataProvider<T>>(&mut self, ring: &D, available: i64)
        requires
            old(self).processed() < available,
        ensures
            final(self).processed() == available,
            final(self).cursor() == old(self).cursor(),
            final(self).barrier() == old(self).barrier(),
            batch_handled(
                old(self).handler(),
                ring.slots(),
                old(self).processed() + 1,
                available as int,
                final(self).handler(),
            ),
    {
        let first: i64 = self.processed + 1;
        let mut s: i64 = first;
        let mut done: bool = false;
        let ghost mut states: Seq<E> = seq![self.processor.handler];
        while !done
            invariant
                first <= s <= available,
                first == old(self).processed() + 1,
                self.processor.cursor == old(self).processor.cursor,
                self.barrier == old(self).barrier,
                states.len() == s - first + if done {
                    2int
                } else {
                    1int
                },
                states.first() == old(self).handler(),
                states.last() == self.processor.handler,
                done ==> s == available,
                forall|i: int|
                    0 <= i < states.len() - 1 ==> #[trigger] reading_step(
                        states,
                        ring.slots(),
                        first as int,
                        available as int,
                        i,
                    ),
            decreases
                    available - s + if done {
                        0int
                    } else {
                        1int
                    },
        {
            let ghost earlier = states;
            let guard = SequenceGuard::new(s);
            let event = ring.get(&guard);
            self.processor.handler.handle_event(event, s, s == available);
            proof {
                states = earlier.push(self.processor.handler);
                assert forall|i: int| 0 <= i < states.len() - 1 implies #[trigger] reading_step(
                    states,
                    ring.slots(),
                    first as int,
                    available as int,
                    i,
                ) by {
                    if i < earlier.len() - 1 {
                        assert(reading_step(
                            earlier,
                            ring.slots(),
                            first as int,
                            available as int,
                            i,
                        ));
                        assert(states[i] == earlier[i]);
                        assert(states[i + 1] == earlier[i + 1]);
                    }
                }
            }
            if s == available {
                done = true;
            } else {
                s = s + 1;
            }
        }
        assert(is_reading_trace(states, ring.slots(), first as int, available as int));
        self.processed = available;
        self.processor.cursor.set(available);
        self.barrier.signal();
    }

    /// Acts on the outcome of a round of waiting: handles the batch that
    /// is free, or leaves everything as it is.
    pub fn settle<D: DataProvider<T>>(&mut self, ring: &D, outcome: WaitOutcome) -> (turn: Turn)
        requires
            outcome matches WaitOutcome::Ready(available) ==> old(self).processed() < available,
        ensures
            final(self).cursor() == old(self).cursor(),
            final(self).barrier() == old(self).barrier(),
            turn == turn_on(old(self).processed(), outcome),
            match outcome {
                WaitOutcome::Ready(available) => turn == Turn::Handled(
                    (old(self).processed() + 1) as i64,
                    available,
                ) && final(self).processed() == available && batch_handled(
                    old(self).handler(),
                    ring.slots(),
                    old(self).processed() + 1,
                    available as int,
                    final(self).handler(),
                ),
                WaitOutcome::Alerted => turn == Turn::Halted && final(self).processed()
                    == old(self).processed() && final(self).handler() == old(self).handler(),
                WaitOutcome::Pending => turn == Turn::Idle && final(self).processed()
                    == old(self).processed() && final(self).handler() == old(self).handler(),
            },
    {
        match outcome {
            WaitOutcome::Ready(available) => {
                let first: i64 = self.processed + 1;
                self.handle_batch(ring, available);
                Turn::Handled(first, available)
            },
            WaitOutcome::Alerted => Turn::Halted,
            WaitOutcome::Pending => Turn::Idle,
        }
    }
}

impl<
    E: EventHandler<T> + Send + 'static,
    T: Send + 'static,
    D: DataProvider<T>,
    B: SequenceBarrier,
> Runnable<T, D> for RunnableProcessor<E, T, B> {
    open spec fn last_handled(&self) -> i64 {
        self.processed()
    }

    open spec fn waits_on(&self) -> Seq<Arc<Sequence>> {
        self.barrier().upstream()
    }

    open spec fn shown_by(&self) -> Arc<Sequence> {
        self.cursor()
    }

    /// Waits one round for the sequence after the last one handled, and
    /// takes the turn that the outcome of the round calls for. A batch
    /// starts right after the last sequence handled and ends at the lowest
    /// value of one reading of the upstream cursors; the slots are only
    /// read. A processor that has handled the last sequence there is
    /// halts.
    fn turn(&mut self, ring: &mut D) -> (turn: Turn)
        ensures
            final(ring).slots() == old(ring).slots(),
            final(self).cursor() == old(self).cursor(),
            final(self).barrier() == old(self).barrier(),
            old(self).processed() == i64::MAX ==> turn == Turn::Halted,
            old(self).processed() < i64::MAX ==> exists|
                outcome: WaitOutcome,
                seen: Seq<i64>,
                available: i64,
            |
                seen.len() == old(self).barrier().upstream().len()
                    && #[trigger] crate::strategy::is_wait_round(
                    outcome,
                    (old(self).processed() + 1) as i64,
                    seen,
                    available,
                ) && turn == turn_on(old(self).processed(), outcome),
            turn matches Turn::Handled(first, last) ==> first == old(self).processed() + 1
                && final(self).processed() == last && batch_handled(
                old(self).handler(),
                old(ring).slots(),
                first as int,
                last as int,
                final(self).handler(),
            ),
            !(turn is Handled) ==> final(self).processed() == old(self).processed()
                && final(self).handler() == old(self).handler(),
    {
        if self.processed == i64::MAX {
            return Turn::Halted;
        }
        let next: i64 = self.processed + 1;
        let outcome = self.barrier.wait_once(next);
        let ghost (seen, available) = choose|seen: Seq<i64>, available: i64|
            seen.len() == self.barrier().upstream().len()
                && #[trigger] crate::strategy::is_wait_round(outcome, next, seen, available);
        let turn = self.settle(&*ring, outcome);
        assert(crate::strategy::is_wait_round(outcome, next, seen, available) && turn == turn_on(
            old(self).processed(),
            outcome,
        ));
        turn
    }
}

impl<E: EventHandlerMut<T>, T, B: SequenceBarrier> RunnableProcessorMut<E, T, B> {
    /// The handler as it is now.
    pub closed spec fn handler(&self) -> E {
        self.processor.handler
    }

    /// The cursor that shows the others how far this processor has come.
    pub closed spec fn cursor(&self) -> Arc<Sequence> {
        self.processor.cursor
    }

    /// The barrier waited on.
    pub closed spec fn barrier(&self) -> B {
        self.barrier
    }

    /// The last sequence handled, `-1` before the first. The next batch
    /// starts right behind it.
    pub closed spec fn processed(&self) -> i64 {
        self.processed
    }

    /// A processor that has handled nothing yet.
    pub fn wire(processor: ProcessorMut<E, T>, barrier: B) -> (runnable: Self)
        ensures
            runnable.handler() == processor.handler(),
            runnable.cursor() == processor.own_cursor(),
            runnable.barrier() == barrier,
            runnable.processed() == crate::sequence::INITIAL_CURSOR,
    {
        RunnableProcessorMut { processor, barrier, processed: crate::sequence::INITIAL_CURSOR }
    }

    /// Hands the handler the slots of the sequences from the one after the
    /// last handled up to `available`, in order, the last one marked as
    /// the end of the batch; then moves the cursor to `available` and
    /// wakes the consumers behind.
    pub fn handle_batch<D: DataProvider<T>>(&mut self, ring: &mut D, available: i64)
        requires
            old(self).processed() < available,
        ensures
            final(self).processed() == available,
            final(self).cursor() == old(self).cursor(),
            final(self).barrier() == old(self).barrier(),
            final(ring).slots().len() == old(ring).slots().len(),
            batch_changed(
                old(self).handler(),
                old(ring).slots(),
                old(self).processed() + 1,
                available as int,
                final(self).handler(),
                final(ring).slots(),
            ),
    {
        let first: i64 = self.processed + 1;
        let mut s: i64 = first;
        let mut done: bool = false;
        let ghost mut states: Seq<E> = seq![self.processor.handler];
        let ghost mut rings: Seq<Seq<T>> = seq![ring.slots()];
        while !done
            invariant
                first <= s <= available,
                first == old(self).processed() + 1,
                self.processor.cursor == old(self).processor.cursor,
                self.barrier == old(self).barrier,
                states.len() == s - first + if done {
                    2int
                } else {
                    1int
                },
                rings.len() == states.len(),
                states.first() == old(self).handler(),
                states.last() == self.processor.handler,
                rings.first() == old(ring).slots(),
                rings.last() == ring.slots(),
                ring.slots().len() == old(ring).slots().len(),
                done ==> s == available,
                forall|i: int|
                    0 <= i < states.len() - 1 ==> #[trigger] changing_step(
                        states,
                        rings,
                        first as int,
                        available as int,
                        i,
                    ),
            decreases
                    available - s + if done {
                        0int
                    } else {
                        1int
                    },
        {
            let ghost earlier = states;
            let ghost earlier_rings = rings;
            let mut guard = SequenceGuard::new(s);
            let event = ring.get_mut(&mut guard);
            self.processor.handler.handle_event(event, s, s == available);
            proof {
                states = earlier.push(self.processor.handler);
                rings = earlier_rings.push(ring.slots());
                assert forall|i: int| 0 <= i < states.len() - 1 implies #[trigger] changing_step(
                    states,
                    rings,
                    first as int,
                    available as int,
                    i,
                ) by {
                    if i < earlier.len() - 1 {
                        assert(changing_step(
                            earlier,
                            earlier_rings,
                            first as int,
                            available as int,
                            i,
                        ));
                        assert(states[i] == earlier[i]);
                        assert(states[i + 1] == earlier[i + 1]);
                        assert(rings[i] == earlier_rings[i]);
                        assert(rings[i + 1] == earlier_rings[i + 1]);
                    } else {
                        assert(rings[i] == earlier_rings.last());
                        assert(states[i] == earlier.last());
                    }
                }
            }
            if s == available {
                done = true;
            } else {
                s = s + 1;
            }
        }
        assert(is_changing_trace(states, rings, first as int, available as int));
        self.processed = available;
        self.processor.cursor.set(available);
        self.barrier.signal();
    }

    /// Acts on the outcome of a round of waiting: handles the batch that
    /// is free, or leaves everything as it is.
    pub fn settle<D: DataProvider<T>>(&mut self, ring: &mut D, outcome: WaitOutcome) -> (turn:
        Turn)
        requires
            outcome matches WaitOutcome::Ready(available) ==> old(self).processed() < available,
        ensures
            final(self).cursor() == old(self).cursor(),
            final(self).barrier() == old(self).barrier(),
            final(ring).slots().len() == old(ring).slots().len(),
            turn == turn_on(old(self).processed(), outcome),
            match outcome {
                WaitOutcome::Ready(available) => turn == Turn::Handled(
                    (old(self).processed() + 1) as i64,
                    available,
                ) && final(self).processed() == available && batch_changed(
                    old(self).handler(),
                    old(ring).slots(),
                    old(self).processed() + 1,
                    available as int,
                    final(self).handler(),
                    final(ring).slots(),
                ),
                WaitOutcome::Alerted => turn == Turn::Halted && final(self).processed()
                    == old(self).processed() && final(self).handler() == old(self).handler()
                    && final(ring).slots() == old(ring).slots(),
                WaitOutcome::Pending => turn == Turn::Idle && final(self).processed()
                    == old(self).processed() && final(self).handler() == old(self).handler()
                    && final(ring).slots() == old(ring).slots(),
            },
    {
        match outcome {
            WaitOutcome::Ready(available) => {
                let first: i64 = self.processed + 1;
                self.handle_batch(ring, available);
                Turn::Handled(first, available)
            },
            WaitOutcome::Alerted => Turn::Halted,
            WaitOutcome::Pending => Turn::Idle,
        }
    }
}

impl<
    E: EventHandlerMut<T> + Send + 'static,
    T: Send + 'static,
    D: DataProvider<T>,
    B: SequenceBarrier,
> Runnable<T, D> for RunnableProcessorMut<E, T, B> {
    open spec fn last_handled(&self) -> i64 {
        self.processed()
    }

    open spec fn waits_on(&self) -> Seq<Arc<Sequence>> {
        self.barrier().upstream()
    }

    open spec fn shown_by(&self) -> Arc<Sequence> {
        self.cursor()
    }

    /// Waits one round for the sequence after the last one handled, and
    /// takes the turn that the outcome of the round calls for. A batch
    /// starts right after the last sequence handled and ends at the lowest
    /// value of one reading of the upstream cursors. A processor that has
    /// handled the last sequence there is halts.
    fn turn(&mut self, ring: &mut D) -> (turn: Turn)
        ensures
            final(self).cursor() == old(self).cursor(),
            final(self).barrier() == old(self).barrier(),
            old(self).processed() == i64::MAX ==> turn == Turn::Halted,
            old(self).processed() < i64::MAX ==> exists|
                outcome: WaitOutcome,
                seen: Seq<i64>,
                available: i64,
            |
                seen.len() == old(self).barrier().upstream().len()
                    && #[trigger] crate::strategy::is_wait_round(
                    outcome,
                    (old(self).processed() + 1) as i64,
                    seen,
                    available,
                ) && turn == turn_on(old(self).processed(), outcome),
            turn matches Turn::Handled(first, last) ==> first == old(self).processed() + 1
                && final(self).processed() == last && batch_changed(
                old(self).handler(),
                old(ring).slots(),
                first as int,
                last as int,
                final(self).handler(),
                final(ring).slots(),
            ),
            !(turn is Handled) ==> final(self).processed() == old(self).processed()
                && final(self).handler() == old(self).handler() && final(ring).slots() == old(
                ring).slots(),
    {
        if self.processed == i64::MAX {
            return Turn::Halted;
        }
        let next: i64 = self.processed + 1;
        let outcome = self.barrier.wait_once(next);
        let ghost (seen, available) = choose|seen: Seq<i64>, available: i64|
            seen.len() == self.barrier().upstream().len()
                && #[trigger] crate::strategy::is_wait_round(outcome, next, seen, available);
        let turn = self.settle(ring, outcome);
        assert(crate::strategy::is_wait_round(outcome, next, seen, available) && turn == turn_on(
            old(self).processed(),
            outcome,
        ));
        turn
    }
}

} // verus!
