//! Batching with backpressure. A shard gathers events into a batch; a full
//! batch goes to a bounded queue that the storage workers empty. When the
//! queue is full the batch waits in an overflow buffer and batches grow;
//! when the queue takes it they shrink again.

use vstd::prelude::*;
use std::collections::VecDeque;
use crate::event::Event;

verus! {

/// Smallest size at which a batch is flushed.
pub const MIN_BATCH: usize = 10;

/// Largest size at which a batch is flushed.
pub const MAX_BATCH: usize = 50;

/// By how much the flush size moves after each attempt to hand off.
pub const BATCH_STEP: usize = 10;

/// Number of batches that the hand-off queue holds.
pub const QUEUE_SLOTS: usize = 10;

/// `tokio::sync::mpsc::Sender`, the sending half of the bounded hand-off
/// queue. Nothing inside it is visible to the proofs.
#[verifier::external_type_specification]
#[verifier::external_body]
#[verifier::reject_recursive_types(T)]
pub struct ExSender<T>(tokio::sync::mpsc::Sender<T>);

/// Offers `batch` to the queue with `Sender::try_send`, which never waits.
/// Whether the queue takes it depends on what its readers have done, so
/// nothing is claimed of that. Not proved: a batch that is not taken, the
/// queue being full or closed, comes back as it was given.
#[verifier::external_body]
fn try_enqueue(queue: &tokio::sync::mpsc::Sender<Vec<Event>>, batch: Vec<Event>) -> (r: Result<
    (),
    Vec<Event>,
>)
    ensures
        r matches Err(back) ==> back == batch,
{
    queue.try_send(batch).map_err(|refused| refused.into_inner())
}

/// The flush size after a batch was taken: one step down, not below the
/// minimum.
pub open spec fn lowered(threshold: int) -> int {
    if threshold - BATCH_STEP < MIN_BATCH {
        MIN_BATCH as int
    } else {
        threshold - BATCH_STEP
    }
}

/// The flush size after a batch was refused: one step up, not above the
/// maximum.
pub open spec fn raised(threshold: int) -> int {
    if threshold + BATCH_STEP > MAX_BATCH {
        MAX_BATCH as int
    } else {
        threshold + BATCH_STEP
    }
}

/// The flush size after one attempt to hand off.
pub open spec fn adapted(threshold: int, accepted: bool) -> int {
    if accepted {
        lowered(threshold)
    } else {
        raised(threshold)
    }
}

/// The flush size after a run of attempts, `true` for each that the queue
/// took.
pub open spec fn adapted_over(threshold: int, outcomes: Seq<bool>) -> int
    decreases outcomes.len(),
{
    if outcomes.len() == 0 {
        threshold
    } else {
        adapted(adapted_over(threshold, outcomes.drop_last()), outcomes.last())
    }
}

/// The flush size is within its bounds.
pub open spec fn in_bounds(threshold: int) -> bool {
    MIN_BATCH <= threshold <= MAX_BATCH
}

/// Whatever the queue does, and however often, the flush size stays
/// between the minimum and the maximum.
pub proof fn lemma_threshold_stays_in_bounds(threshold: int, outcomes: Seq<bool>)
    requires
        in_bounds(threshold),
    ensures
        in_bounds(adapted_over(threshold, outcomes)),
    decreases outcomes.len(),
{
    if outcomes.len() > 0 {
        lemma_threshold_stays_in_bounds(threshold, outcomes.drop_last());
    }
}

/// View of a queue of batches: each batch as the sequence of its events.
pub open spec fn batches(queue: Seq<Vec<Event>>) -> Seq<Seq<Event>> {
    queue.map_values(|batch: Vec<Event>| batch@)
}

/// The events that a shard has gathered since its last flush, in the
/// order of arrival.
pub struct Accumulator {
    events: Vec<Event>,
}

impl View for Accumulator {
    type V = Seq<Event>;

    closed spec fn view(&self) -> Seq<Event> {
        self.events@
    }
}

impl Accumulator {
    /// Every event that is held has content.
    pub open spec fn wf(&self) -> bool {
        forall|i: int| 0 <= i < self@.len() ==> (#[trigger] self@[i]).has_content()
    }

    /// An accumulator that holds nothing.
    pub fn new() -> (acc: Self)
        ensures
            acc.wf(),
            acc@ == Seq::<Event>::empty(),
    {
        Accumulator { events: Vec::new() }
    }

    /// Number of events held.
    pub fn len(&self) -> (n: usize)
        ensures
            n == self@.len(),
    {
        self.events.len()
    }

    /// Appends `event` if and only if its message has content, and says
    /// whether it did. An event without content is dropped.
    pub fn offer(&mut self, event: Event) -> (kept: bool)
        requires
            old(self).wf(),
        ensures
            final(self).wf(),
            kept == event.has_content(),
            final(self)@ == if event.has_content() {
                old(self)@.push(event)
            } else {
                old(self)@
            },
    {
        if event.carries_content() {
            self.events.push(event);
            proof {
                assert forall|i: int| 0 <= i < self@.len() implies (#[trigger] self@[i]).has_content() by {
                    if i < old(self)@.len() {
                        assert(self@[i] == old(self)@[i]);
                    }
                }
            }
            true
        } else {
            false
        }
    }

    /// Takes everything out in one step: what was held is handed back, in
    /// order, and the accumulator is empty. No event is in both.
    pub fn detach(&mut self) -> (batch: Vec<Event>)
        requires
            old(self).wf(),
        ensures
            final(self).wf(),
            batch@ == old(self)@,
            final(self)@ == Seq::<Event>::empty(),
    {
        let mut batch: Vec<Event> = Vec::new();
        std::mem::swap(&mut self.events, &mut batch);
        batch
    }
}

/// What became of a batch that was routed.
#[derive(Clone, Copy, Debug, PartialEq, Eq, Structural)]
pub struct Routed {
    /// The queue took the batch itself.
    pub accepted: bool,
    /// Number of waiting batches that the queue took afterwards.
    pub drained: usize,
}

/// What a router holds, as mathematical values.
pub struct RouterView {
    /// The batches that wait for room in the queue, oldest first.
    pub overflow: Seq<Seq<Event>>,
    /// The size at which the shard flushes its batch.
    pub threshold: int,
    /// Every batch that the queue has taken from this router, in the order
    /// in which it took them.
    pub handed: Seq<Seq<Event>>,
    /// Every batch that the queue has refused when this router offered it,
    /// in the order of the offers. A batch that was refused twice stands
    /// here twice.
    pub refused: Seq<Seq<Event>>,
}

/// The refusal that ends a drain of the batches `waiting` in which the
/// queue took `sent` of them: that of the batch after those, if any was
/// left. A drain that empties the buffer ends without a refusal.
pub open spec fn final_refusal(waiting: Seq<Seq<Event>>, sent: int) -> Seq<Seq<Event>> {
    if 0 <= sent < waiting.len() {
        seq![waiting[sent]]
    } else {
        Seq::empty()
    }
}

/// Hands batches to the queue, keeps those that the queue refuses, and
/// adapts the flush size.
pub struct Router {
    queue: tokio::sync::mpsc::Sender<Vec<Event>>,
    overflow: VecDeque<Vec<Event>>,
    threshold: usize,
    handed: Ghost<Seq<Seq<Event>>>,
    refused: Ghost<Seq<Seq<Event>>>,
}

impl View for Router {
    type V = RouterView;

    closed spec fn view(&self) -> RouterView {
        RouterView {
            overflow: batches(self.overflow@),
            threshold: self.threshold as int,
            handed: self.handed@,
            refused: self.refused@,
        }
    }
}

impl Router {
    /// The flush size is within its bounds.
    pub open spec fn wf(&self) -> bool {
        in_bounds(self@.threshold)
    }

    /// A router in front of `queue`, with nothing waiting and the smallest
    /// flush size.
    pub fn new(queue: tokio::sync::mpsc::Sender<Vec<Event>>) -> (router: Self)
        ensures
            router.wf(),
            router@.overflow == Seq::<Seq<Event>>::empty(),
            router@.threshold == MIN_BATCH,
            router@.handed == Seq::<Seq<Event>>::empty(),
            router@.refused == Seq::<Seq<Event>>::empty(),
    {
        Router {
            queue,
            overflow: VecDeque::new(),
            threshold: MIN_BATCH,
            handed: Ghost(Seq::empty()),
            refused: Ghost(Seq::empty()),
        }
    }

    /// The size at which the shard flushes its batch.
    pub fn threshold(&self) -> (t: usize)
        requires
            self.wf(),
        ensures
            t == self@.threshold,
            MIN_BATCH <= t <= MAX_BATCH,
    {
        self.threshold
    }

    /// Number of batches that wait for room in the queue.
    pub fn waiting(&self) -> (n: usize)
        ensures
            n == self@.overflow.len(),
    {
        self.overflow.len()
    }

    /// Takes in how the queue answered a batch. A batch that was taken
    /// lowers the flush size; one that came back joins the end of the
    /// overflow buffer and raises the flush size. Says whether it was taken.
    pub fn settle(&mut self, outcome: Result<(), Vec<Event>>) -> (accepted: bool)
        requires
            old(self).wf(),
        ensures
            final(self).wf(),
            accepted == (outcome is Ok),
            final(self)@.threshold == adapted(old(self)@.threshold, accepted),
            final(self)@.overflow == match outcome {
                Ok(_) => old(self)@.overflow,
                Err(back) => old(self)@.overflow.push(back@),
            },
            final(self)@.handed == old(self)@.handed,
            final(self)@.refused == old(self)@.refused,
    {
        match outcome {
            Ok(()) => {
                self.threshold = if self.threshold - BATCH_STEP < MIN_BATCH {
                    MIN_BATCH
                } else {
                    self.threshold - BATCH_STEP
                };
                true
            },
            Err(back) => {
                proof {
                    assert(batches(self.overflow@.push(back)) == batches(self.overflow@).push(
                        back@,
                    ));
                }
                self.overflow.push_back(back);
                self.threshold = if self.threshold + BATCH_STEP > MAX_BATCH {
                    MAX_BATCH
                } else {
                    self.threshold + BATCH_STEP
                };
                false
            },
        }
    }

    /// Takes in how the queue answered the oldest waiting batch, which had
    /// been taken out of the buffer to be offered. A batch that came back
    /// returns to the front of the buffer, and draining is over; after one
    /// that was taken, draining goes on. Says whether it goes on.
    pub fn resume(&mut self, outcome: Result<(), Vec<Event>>) -> (more: bool)
        ensures
            more == (outcome is Ok),
            final(self)@.overflow == match outcome {
                Ok(_) => old(self)@.overflow,
                Err(back) => seq![back@] + old(self)@.overflow,
            },
            final(self)@.threshold == old(self)@.threshold,
            final(self)@.handed == old(self)@.handed,
            final(self)@.refused == old(self)@.refused,
    {
        match outcome {
            Ok(()) => true,
            Err(back) => {
                proof {
                    assert(batches(seq![back] + self.overflow@) == seq![back@] + batches(
                        self.overflow@,
                    ));
                }
                self.overflow.push_front(back);
                false
            },
        }
    }

    /// Offers the waiting batches to the queue, oldest first, one after
    /// the other, until the queue refuses one or none is left. Returns how
    /// many the queue took. Those are the oldest, taken in the order in
    /// which they waited. If any batch is left, the oldest of them was
    /// offered and refused, and all of them wait in the order they had. The
    /// flush size does not change.
    pub fn drain(&mut self) -> (sent: usize)
        ensures
            sent <= old(self)@.overflow.len(),
            final(self)@.overflow == old(self)@.overflow.skip(sent as int),
            final(self)@.handed == old(self)@.handed + old(self)@.overflow.take(sent as int),
            final(self)@.refused == old(self)@.refused + final_refusal(
                old(self)@.overflow,
                sent as int,
            ),
            final(self)@.threshold == old(self)@.threshold,
    {
        let total: usize = self.overflow.len();
        let mut sent: usize = 0;
        let ghost waiting = batches(self.overflow@);
        proof {
            assert(waiting.skip(0) == waiting);
            assert(self.handed@ + waiting.take(0) == self.handed@);
        }
        loop
            invariant_except_break
                self.refused@ == old(self).refused@,
            invariant
                waiting == batches(old(self).overflow@),
                total == waiting.len(),
                sent <= total,
                batches(self.overflow@) == waiting.skip(sent as int),
                self.handed@ == old(self).handed@ + waiting.take(sent as int),
                self.threshold == old(self).threshold,
            ensures
                self.refused@ == old(self).refused@ + final_refusal(waiting, sent as int),
            decreases self.overflow@.len(),
        {
            let ghost before = self.overflow@;
            match self.overflow.pop_front() {
                None => {
                    proof {
                        assert(batches(before).len() == 0);
                        assert(sent == total);
                        assert(old(self).refused@ + final_refusal(waiting, sent as int) == old(
                            self,
                        ).refused@);
                    }
                    break ;
                },
                Some(batch) => {
                    let ghost offered = batch@;
                    proof {
                        assert(batches(before).len() > 0);
                        assert(sent < total);
                        assert(offered == batches(before)[0]);
                        assert(offered == waiting[sent as int]);
                        assert(batches(before.skip(1)) == batches(before).skip(1));
                        assert(waiting.skip(sent as int).skip(1) == waiting.skip(sent + 1));
                    }
                    let outcome = try_enqueue(&self.queue, batch);
                    proof {
                        if outcome is Ok {
                            self.handed@ = self.handed@.push(offered);
                        } else {
                            self.refused@ = self.refused@.push(offered);
                        }
                    }
                    if self.resume(outcome) {
                        proof {
                            assert(waiting.take(sent + 1) == waiting.take(sent as int).push(
                                offered,
                            ));
                        }
                        sent = sent + 1;
                    } else {
                        proof {
                            assert(seq![offered] + waiting.skip(sent + 1) == waiting.skip(
                                sent as int,
                            ));
                            assert(old(self).refused@.push(offered) == old(self).refused@
                                + final_refusal(waiting, sent as int));
                        }
                        break ;
                    }
                },
            }
        }
        sent
    }

    /// Routes a batch that is ready: offers it to the queue without
    /// waiting, adapts the flush size to the answer, keeps the batch at the
    /// end of the overflow buffer if it was refused, and then drains the
    /// overflow buffer from the front.
    pub fn route(&mut self, batch: Vec<Event>) -> (routed: Routed)
        requires
            old(self).wf(),
        ensures
            final(self).wf(),
            final(self)@.threshold == adapted(old(self)@.threshold, routed.accepted),
            final(self)@.overflow == (if routed.accepted {
                old(self)@.overflow
            } else {
                old(self)@.overflow.push(batch@)
            }).skip(routed.drained as int),
            final(self)@.handed == if routed.accepted {
                old(self)@.handed.push(batch@) + old(self)@.overflow.take(routed.drained as int)
            } else {
                old(self)@.handed + old(self)@.overflow.push(batch@).take(routed.drained as int)
            },
            final(self)@.refused == if routed.accepted {
                old(self)@.refused + final_refusal(old(self)@.overflow, routed.drained as int)
            } else {
                old(self)@.refused.push(batch@) + final_refusal(
                    old(self)@.overflow.push(batch@),
                    routed.drained as int,
                )
            },
            routed.drained <= old(self)@.overflow.len() + if routed.accepted {
                0int
            } else {
                1int
            },
    {
        let ghost offered = batch@;
        let outcome = try_enqueue(&self.queue, batch);
        proof {
            if outcome is Ok {
                self.handed@ = self.handed@.push(offered);
            } else {
                self.refused@ = self.refused@.push(offered);
            }
        }
        let accepted = self.settle(outcome);
        let drained = self.drain();
        Routed { accepted, drained }
    }
}

/// The accumulator of a shard and the router behind it.
pub struct Pipeline {
    accumulator: Accumulator,
    router: Router,
}

/// What a pipeline holds, as mathematical values.
pub struct PipelineView {
    /// The events gathered since the last flush.
    pub batch: Seq<Event>,
    /// The batches that wait for room in the queue, oldest first.
    pub overflow: Seq<Seq<Event>>,
    /// The size at which the batch is flushed.
    pub threshold: int,
    /// Every batch that the queue has taken, in the order in which it took
    /// them.
    pub handed: Seq<Seq<Event>>,
    /// Every batch that the queue has refused when it was offered, in the
    /// order of the offers.
    pub refused: Seq<Seq<Event>>,
}

impl View for Pipeline {
    type V = PipelineView;

    closed spec fn view(&self) -> PipelineView {
        PipelineView {
            batch: self.accumulator@,
            overflow: self.router@.overflow,
            threshold: self.router@.threshold,
            handed: self.router@.handed,
            refused: self.router@.refused,
        }
    }
}

impl Pipeline {
    /// Every event in the batch has content, and the flush size is within
    /// its bounds.
    pub open spec fn wf(&self) -> bool {
        &&& forall|i: int| 0 <= i < self@.batch.len() ==> (#[trigger] self@.batch[i]).has_content()
        &&& in_bounds(self@.threshold)
    }

    /// A pipeline in front of `queue` that holds nothing.
    pub fn new(queue: tokio::sync::mpsc::Sender<Vec<Event>>) -> (pipeline: Self)
        ensures
            pipeline.wf(),
            pipeline@.batch == Seq::<Event>::empty(),
            pipeline@.overflow == Seq::<Seq<Event>>::empty(),
            pipeline@.threshold == MIN_BATCH,
            pipeline@.handed == Seq::<Seq<Event>>::empty(),
            pipeline@.refused == Seq::<Seq<Event>>::empty(),
    {
        Pipeline { accumulator: Accumulator::new(), router: Router::new(queue) }
    }

    /// Number of events gathered since the last flush.
    pub fn pending(&self) -> (n: usize)
        ensures
            n == self@.batch.len(),
    {
        self.accumulator.len()
    }

    /// Number of batches that wait for room in the queue.
    pub fn waiting(&self) -> (n: usize)
        ensures
            n == self@.overflow.len(),
    {
        self.router.waiting()
    }

    /// The size at which the batch is flushed.
    pub fn threshold(&self) -> (t: usize)
        requires
            self.wf(),
        ensures
            t == self@.threshold,
            MIN_BATCH <= t <= MAX_BATCH,
    {
        self.router.threshold()
    }

    /// Takes in one event. An event without content is dropped and nothing
    /// changes. An event with content joins the batch; if the batch has
    /// then reached the flush size, the whole batch is detached and routed,
    /// and what became of it is returned.
    pub fn offer(&mut self, event: Event) -> (flushed: Option<Routed>)
        requires
            old(self).wf(),
        ensures
            final(self).wf(),
            !event.has_content() ==> flushed is None && final(self)@ == old(self)@,
            event.has_content() && old(self)@.batch.len() + 1 < old(self)@.threshold ==> {
                &&& flushed is None
                &&& final(self)@.batch == old(self)@.batch.push(event)
                &&& final(self)@.overflow == old(self)@.overflow
                &&& final(self)@.threshold == old(self)@.threshold
                &&& final(self)@.handed == old(self)@.handed
                &&& final(self)@.refused == old(self)@.refused
            },
            event.has_content() && old(self)@.batch.len() + 1 >= old(self)@.threshold ==> {
                &&& flushed matches Some(routed)
                &&& routed.drained <= old(self)@.overflow.len() + if routed.accepted {
                    0int
                } else {
                    1int
                }
                &&& final(self)@.batch == Seq::<Event>::empty()
                &&& final(self)@.threshold == adapted(old(self)@.threshold, routed.accepted)
                &&& final(self)@.overflow == (if routed.accepted {
                    old(self)@.overflow
                } else {
                    old(self)@.overflow.push(old(self)@.batch.push(event))
                }).skip(routed.drained as int)
                &&& final(self)@.handed == if routed.accepted {
                    old(self)@.handed.push(old(self)@.batch.push(event)) + old(
                        self,
                    )@.overflow.take(routed.drained as int)
                } else {
                    old(self)@.handed + old(self)@.overflow.push(
                        old(self)@.batch.push(event),
                    ).take(routed.drained as int)
                }
                &&& final(self)@.refused == if routed.accepted {
                    old(self)@.refused + final_refusal(
                        old(self)@.overflow,
                        routed.drained as int,
                    )
                } else {
                    old(self)@.refused.push(old(self)@.batch.push(event)) + final_refusal(
                        old(self)@.overflow.push(old(self)@.batch.push(event)),
                        routed.drained as int,
                    )
                }
            },
    {
        proof {
            assert(self.accumulator@ == self@.batch);
            assert(self.accumulator.wf());
        }
        if !self.accumulator.offer(event) {
            return None;
        }
        if self.accumulator.len() >= self.router.threshold() {
            let batch = self.accumulator.detach();
            let routed = self.router.route(batch);
            Some(routed)
        } else {
            None
        }
    }

    /// Offers the waiting batches to the queue, oldest first, one after
    /// the other, until the queue refuses one or none is left. Returns how
    /// many the queue took. If any batch is left, the oldest of them was
    /// offered and refused. The batch that is being gathered is not touched.
    pub fn drain(&mut self) -> (sent: usize)
        ensures
            sent <= old(self)@.overflow.len(),
            final(self)@.overflow == old(self)@.overflow.skip(sent as int),
            final(self)@.handed == old(self)@.handed + old(self)@.overflow.take(sent as int),
            final(self)@.refused == old(self)@.refused + final_refusal(
                old(self)@.overflow,
                sent as int,
            ),
            final(self)@.threshold == old(self)@.threshold,
            final(self)@.batch == old(self)@.batch,
    {
        self.router.drain()
    }
}

} // verus!
