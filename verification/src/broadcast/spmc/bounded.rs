//! A single-producer multi-consumer broadcast channel with a bounded buffer.
//!
//! Each message sent is received by all active receivers. Nothing is ever displaced to make room,
//! so a receive never reports lag; instead the channel retains at most `capacity` messages and
//! makes the producer wait. The sender cannot be cloned, [`BoundedSender::try_send`] takes
//! `&mut self`, and a [`BoundedSender::send`] holds the sender until it is over, so a second
//! producer cannot exist and at most one send waits. A further receiver can be had from a live one
//! with [`BoundedReceiver::resubscribe`] in the meantime.
//!
//! # Capacity
//!
//! Capacity counts the *shared* backlog, the messages retained because the slowest active receiver
//! has not read them yet, not messages per receiver. Adding receivers does not consume capacity;
//! falling behind does. If no receivers are active the channel retains nothing, so a send never
//! waits.
//!
//! # Handles and the channel
//!
//! [`bounded`] returns the channel itself beside the two handles, and every method of a handle
//! takes the channel it belongs to. The methods of [`BoundedChannel`] are the steps that have to
//! be indivisible: a program that shares the channel between threads holds a lock for the length
//! of one step, and does what the step hands back (wakers to wake, messages and wakers to dispose
//! of) once the lock is released. The methods of the handles put the steps together for a caller
//! that owns the channel; the wakers that became due are collected by the channel until
//! [`BoundedChannel::take_woken`].

use crate::broadcast::spmc::backlog::message;
use crate::broadcast::spmc::backlog::messages;
use crate::broadcast::spmc::backlog::Backlog;
use crate::broadcast::spmc::common::take_msg;
use crate::broadcast::spmc::common::ChannelState;
use crate::broadcast::spmc::common::Inner;
use crate::broadcast::spmc::common::Poll;
use crate::broadcast::spmc::common::Waiter;
use crate::broadcast::spmc::common::WakerToken;
use crate::broadcast::spmc::error::RecvError;
use crate::broadcast::spmc::error::TryRecvError;
use crate::broadcast::spmc::error::TrySendError;
use crate::broadcast::spmc::log::LogState;
use crate::broadcast::spmc::log::Storage;
use crate::internal::arena::has_vacancy;
use crate::internal::arena::slot_at;
use crate::internal::arena::SlotId;
use std::marker::PhantomData;
use std::sync::Arc;
use vstd::prelude::*;

verus! {

/// Whether the backlog of `log` has reached `capacity`: some active receiver has that many
/// messages still to read.
pub open spec fn full<T>(log: LogState<T>, capacity: nat) -> bool {
    exists|id: SlotId| #[trigger] log.active(id) && log.unread(id).len() >= capacity
}

/// Whether no active receiver of `log` has more than `capacity` messages still to read.
pub open spec fn within<T>(log: LogState<T>, capacity: nat) -> bool {
    forall|id: SlotId| #[trigger] log.active(id) ==> log.unread(id).len() <= capacity
}

/// A waker, if any, as a sequence.
pub open spec fn as_seq<W>(waker: Option<W>) -> Seq<W> {
    match waker {
        Some(waker) => seq![waker],
        None => Seq::empty(),
    }
}

/// A bounded broadcast channel.
pub struct BoundedChannel<T, W> {
    inner: Inner<T, W>,
    capacity: usize,
    woken: Vec<W>,
}

/// What a publication leaves to be done once the channel is released.
pub struct Published<T, W> {
    /// The message, where no receiver was there to read it.
    pub discarded: Option<T>,
    /// The receivers' wakers, to be woken.
    pub woken: Vec<W>,
}

/// What an attempt at a waiting send leaves to be done once the channel is released.
pub struct SendAttempt<T, W> {
    /// Whether the send is done.
    pub outcome: Poll<()>,
    /// The receivers' wakers, to be woken.
    pub woken: Vec<W>,
    /// The waker that was parked for the producer before, to be disposed of.
    pub retired: Option<W>,
    /// The waker given, where it was not parked, to be disposed of.
    pub unused: Option<W>,
    /// The message, where no receiver was there to read it.
    pub discarded: Option<Arc<T>>,
}

impl<T, W> View for BoundedChannel<T, W> {
    type V = ChannelState<T, W>;

    closed spec fn view(&self) -> ChannelState<T, W> {
        self.inner@
    }
}

impl<T, W> BoundedChannel<T, W> {
    /// The logical limit on the retained backlog.
    pub closed spec fn limit(&self) -> nat {
        self.capacity as nat
    }

    /// How the log of the channel is laid out.
    pub closed spec fn storage(&self) -> Storage {
        self.inner.storage()
    }

    /// The wakers that became due and were not taken yet.
    pub closed spec fn woken(&self) -> Seq<W> {
        self.woken@
    }

    /// Whether a publication has to wait.
    pub open spec fn is_full(&self) -> bool {
        full(self@.log, self.limit())
    }

    /// The backlog is within the limit, and the producer is parked only while it is at the limit.
    pub closed spec fn wf(&self) -> bool {
        &&& self.inner.wf()
        &&& self.capacity > 0
        &&& within(self@.log, self.capacity as nat)
        &&& self@.producer is Some ==> full(self@.log, self.capacity as nat)
    }

    /// What holds of every bounded channel: no receiver is more than the limit behind, a parked
    /// producer has a full channel to wait for, and a parked receiver has nothing to read.
    pub proof fn lemma_wf(&self)
        requires
            self.wf(),
        ensures
            self.limit() > 0,
            self@.valid(),
            within(self@.log, self.limit()),
            self@.producer is Some ==> self.is_full(),
    {
        self.inner.lemma_valid();
    }

    /// Whether the retained backlog is at the limit.
    fn at_capacity(&self) -> (yes: bool)
        requires
            self.wf(),
        ensures
            yes == self.is_full(),
    {
        let retained: usize = self.inner.retained();
        proof {
            if retained == self.capacity {
                let id = choose|id: SlotId| #[trigger]
                    self@.log.active(id) && self@.log.unread(id).len() == retained;
                assert(self@.log.active(id) && self@.log.unread(id).len() >= self.limit());
            }
            if self.is_full() {
                let id = choose|id: SlotId| #[trigger]
                    self@.log.active(id) && self@.log.unread(id).len() >= self.limit();
                assert(self@.log.active(id));
                if retained > 0 {
                    let slowest = choose|slowest: SlotId| #[trigger]
                        self@.log.active(slowest) && self@.log.unread(slowest).len() == retained;
                    assert(self@.log.active(slowest));
                }
            }
        }
        retained == self.capacity
    }

    /// The number of messages retained because the slowest active receiver has not read them.
    pub fn retained(&self) -> (n: usize)
        requires
            self.wf(),
        ensures
            self@.log.retains(n as nat),
            n <= self.limit(),
    {
        let n: usize = self.inner.retained();
        proof {
            if n > 0 {
                let slowest = choose|slowest: SlotId| #[trigger]
                    self@.log.active(slowest) && self@.log.unread(slowest).len() == n;
                assert(self@.log.active(slowest));
            }
        }
        n
    }

    /// Whether the next publication would take the version counter past its end: it is not
    /// turned away at capacity, and every version is used up.
    pub fn version_overflows(&self) -> (yes: bool)
        requires
            self.wf(),
        ensures
            yes == (!self.is_full() && self@.log.history.len() == u64::MAX),
    {
        let full = self.at_capacity();
        !full && self.inner.versions_left() == 0
    }

    /// The publish step: the message reaches every active receiver and every parked receiver is
    /// unparked, or nothing happens and the message comes back because the channel is full.
    pub fn publish(&mut self, payload: T) -> (outcome: Result<Published<T, W>, T>)
        requires
            old(self).wf(),
            !old(self).is_full() ==> old(self)@.log.history.len() < u64::MAX,
        ensures
            final(self).wf(),
            final(self).storage() == old(self).storage(),
            final(self).limit() == old(self).limit(),
            final(self).woken() == old(self).woken(),
            match outcome {
                Ok(published) => {
                    &&& !old(self).is_full()
                    &&& final(self)@ == old(self)@.publish(payload)
                    &&& published.woken@ == old(self)@.parked()
                    &&& published.discarded == if old(self)@.log.has_receivers() {
                        None
                    } else {
                        Some(payload)
                    }
                },
                Err(returned) => {
                    &&& old(self).is_full()
                    &&& returned == payload
                    &&& final(self)@ == old(self)@
                },
            },
    {
        proof {
            self.inner.lemma_valid();
        }
        if !self.inner.has_receivers() {
            let woken = self.inner.publish_discarded(Ghost(payload));
            proof {
                self.lemma_published(old(self)@, payload);
            }
            Ok(Published { discarded: Some(payload), woken })
        } else if self.at_capacity() {
            Err(payload)
        } else {
            let woken = self.inner.publish_retained(Arc::new(payload));
            proof {
                self.lemma_published(old(self)@, payload);
            }
            Ok(Published { discarded: None, woken })
        }
    }

    /// A publication on a channel that is not full keeps the backlog within the limit.
    proof fn lemma_published(&self, before: ChannelState<T, W>, payload: T)
        requires
            before.log.valid(),
            !full(before.log, self.capacity as nat),
            self@.log == before.publish(payload).log,
        ensures
            within(self@.log, self.capacity as nat),
    {
        assert forall|id: SlotId| #[trigger] self@.log.active(id) implies self@.log.unread(id).len()
            <= self.capacity by {
            assert(before.log.active(id));
        }
    }

    /// The step of a waiting send. The message in `pending` is published as [`publish`] does it,
    /// and the producer is unparked; on a full channel the message stays where it is and `waker`
    /// is parked for the producer.
    ///
    /// [`publish`]: BoundedChannel::publish
    pub fn poll_send(&mut self, pending: &mut Option<Arc<T>>, waker: W) -> (attempt: SendAttempt<
        T,
        W,
    >)
        requires
            old(self).wf(),
            *old(pending) is Some && !old(self).is_full() ==> old(self)@.log.history.len()
                < u64::MAX,
        ensures
            final(self).wf(),
            final(self).storage() == old(self).storage(),
            final(self).limit() == old(self).limit(),
            final(self).woken() == old(self).woken(),
            match *old(pending) {
                None => {
                    &&& attempt.outcome == Poll::Ready(())
                    &&& *final(pending) is None
                    &&& final(self)@ == old(self)@
                    &&& attempt.woken@ == Seq::<W>::empty()
                    &&& attempt.retired is None
                    &&& attempt.unused == Some(waker)
                    &&& attempt.discarded is None
                },
                Some(msg) => if old(self).is_full() {
                    &&& attempt.outcome == Poll::<()>::Pending
                    &&& *final(pending) == *old(pending)
                    &&& final(self)@ == old(self)@.park_producer(Some(waker))
                    &&& attempt.woken@ == Seq::<W>::empty()
                    &&& attempt.retired == old(self)@.producer
                    &&& attempt.unused is None
                    &&& attempt.discarded is None
                } else {
                    &&& attempt.outcome == Poll::Ready(())
                    &&& *final(pending) is None
                    &&& final(self)@ == old(self)@.publish(*msg).park_producer(None)
                    &&& attempt.woken@ == old(self)@.parked()
                    &&& attempt.retired == old(self)@.producer
                    &&& attempt.unused == Some(waker)
                    &&& attempt.discarded == if old(self)@.log.has_receivers() {
                        None
                    } else {
                        Some(msg)
                    }
                },
            },
    {
        proof {
            self.inner.lemma_valid();
        }
        let msg = match pending.take() {
            Some(msg) => msg,
            None => {
                return SendAttempt {
                    outcome: Poll::Ready(()),
                    woken: Vec::new(),
                    retired: None,
                    unused: Some(waker),
                    discarded: None,
                };
            },
        };
        if !self.inner.has_receivers() {
            let woken = self.inner.publish_discarded(Ghost(message(msg)));
            let retired = self.inner.take_producer();
            proof {
                self.lemma_published(old(self)@, message(msg));
            }
            return SendAttempt {
                outcome: Poll::Ready(()),
                woken,
                retired,
                unused: Some(waker),
                discarded: Some(msg),
            };
        }
        if self.at_capacity() {
            let retired = self.inner.park_producer(waker);
            *pending = Some(msg);
            return SendAttempt {
                outcome: Poll::Pending,
                woken: Vec::new(),
                retired,
                unused: None,
                discarded: None,
            };
        }
        let ghost value = message(msg);
        let woken = self.inner.publish_retained(msg);
        let retired = self.inner.take_producer();
        proof {
            self.lemma_published(old(self)@, value);
        }
        SendAttempt {
            outcome: Poll::Ready(()),
            woken,
            retired,
            unused: Some(waker),
            discarded: None,
        }
    }

    /// Gives up a waiting send: nothing was published, and the producer is unparked. The waker
    /// that was parked for it is returned.
    pub fn cancel_send(&mut self) -> (retired: Option<W>)
        requires
            old(self).wf(),
        ensures
            final(self).wf(),
            final(self).storage() == old(self).storage(),
            final(self).limit() == old(self).limit(),
            final(self).woken() == old(self).woken(),
            final(self)@ == old(self)@.park_producer(None),
            retired == old(self)@.producer,
    {
        self.inner.take_producer()
    }

    /// Subscribes a receiver at the current tail of the channel.
    pub fn subscribe(&mut self) -> (id: SlotId)
        requires
            old(self).wf(),
        ensures
            final(self).wf(),
            final(self).storage() == old(self).storage().with_slot(id),
            old(self).storage().offers(old(self)@.log, id),
            final(self).limit() == old(self).limit(),
            final(self).woken() == old(self).woken(),
            !old(self)@.log.active(id),
            final(self)@ == old(self)@.subscribe(id),
    {
        let id = self.inner.subscribe();
        proof {
            assert forall|other: SlotId| #[trigger] self@.log.active(other) implies self@.log.unread(
                other,
            ).len() <= self.capacity by {
                assert(other != id ==> old(self)@.log.active(other));
            }
            if self@.producer is Some {
                let slowest = choose|slowest: SlotId| #[trigger]
                    old(self)@.log.active(slowest) && old(self)@.log.unread(slowest).len()
                        >= self.capacity;
                assert(self@.log.active(slowest) && self@.log.unread(slowest).len()
                    >= self.capacity);
            }
        }
        id
    }

    /// The number of messages that the receiver `id` can still read.
    pub fn unread(&self, id: SlotId) -> (n: usize)
        requires
            self.wf(),
            self@.log.active(id),
        ensures
            n == self@.log.unread(id).len(),
    {
        self.inner.unread(id)
    }

    /// A read by `id` keeps the backlog within the limit, and leaves it at the limit where it
    /// does not unpark the producer.
    proof fn lemma_received(&self, before: ChannelState<T, W>, id: SlotId)
        requires
            before.log.valid(),
            before.log.active(id),
            before.log.unread(id).len() > 0,
            within(before.log, self.capacity as nat),
            before.producer is Some ==> full(before.log, self.capacity as nat),
            self@ == before.receive(id),
        ensures
            within(self@.log, self.capacity as nat),
            self@.producer is Some ==> full(self@.log, self.capacity as nat),
    {
        assert forall|other: SlotId| #[trigger] self@.log.active(other) implies self@.log.unread(
            other,
        ).len() <= self.capacity by {
            assert(before.log.active(other));
        }
        if self@.producer is Some {
            let slowest = choose|slowest: SlotId| #[trigger]
                before.log.active(slowest) && before.log.unread(slowest).len() >= self.capacity;
            let level = choose|level: SlotId| #[trigger]
                before.log.active(level) && level != id && before.log.cursors[id]
                    >= before.log.cursors[level];
            assert(before.log.active(level) && level != id && before.log.cursors[id]
                >= before.log.cursors[level]);
            if slowest != id {
                assert(self@.log.active(slowest) && self@.log.unread(slowest).len()
                    >= self.capacity);
            } else {
                assert(self@.log.active(level) && self@.log.unread(level).len() >= self.capacity);
            }
        }
    }

    /// The receive step: reads the next message of the receiver `id`. A read that shortens the
    /// backlog hands out the producer's parked waker.
    pub fn try_receive(&mut self, id: SlotId) -> (outcome: Result<
        (Arc<T>, Option<W>),
        TryRecvError,
    >)
        requires
            old(self).wf(),
            old(self)@.log.active(id),
        ensures
            final(self).wf(),
            final(self).storage() == old(self).storage(),
            final(self).limit() == old(self).limit(),
            final(self).woken() == old(self).woken(),
            match outcome {
                Ok((msg, producer)) => {
                    &&& old(self)@.log.unread(id).len() > 0
                    &&& *msg == old(self)@.log.unread(id)[0]
                    &&& final(self)@ == old(self)@.receive(id)
                    &&& producer == if old(self)@.log.trails_alone(id) {
                        old(self)@.producer
                    } else {
                        None
                    }
                },
                Err(TryRecvError::Empty) => {
                    &&& old(self)@.log.unread(id).len() == 0
                    &&& old(self)@.connected
                    &&& final(self)@ == old(self)@
                },
                Err(TryRecvError::Disconnected) => {
                    &&& old(self)@.log.unread(id).len() == 0
                    &&& !old(self)@.connected
                    &&& final(self)@ == old(self)@
                },
            },
    {
        proof {
            self.inner.lemma_valid();
        }
        let outcome = self.inner.try_receive(id);
        proof {
            if outcome is Ok {
                self.lemma_received(old(self)@, id);
            }
        }
        outcome
    }

    /// The step of a waiting receive: reads the next message of the receiver `id`, or reports
    /// disconnection, or parks `waker`. A waker of this receiver that is already parked in the
    /// slot `token` is replaced.
    ///
    /// The second result is the waker to dispose of: the one given where it was not parked, the
    /// one replaced where there was one.
    pub fn poll_receive(
        &mut self,
        id: SlotId,
        token: &mut Option<WakerToken>,
        waker: W,
    ) -> (outcome: (Poll<Result<(Arc<T>, Option<W>), RecvError>>, Option<W>))
        requires
            old(self).wf(),
            old(self)@.log.active(id),
        ensures
            final(self).wf(),
            final(self).storage() == old(self).storage(),
            final(self).limit() == old(self).limit(),
            final(self).woken() == old(self).woken(),
            match outcome.0 {
                Poll::Ready(Ok((msg, producer))) => {
                    &&& old(self)@.log.unread(id).len() > 0
                    &&& *msg == old(self)@.log.unread(id)[0]
                    &&& final(self)@ == old(self)@.receive(id)
                    &&& producer == if old(self)@.log.trails_alone(id) {
                        old(self)@.producer
                    } else {
                        None
                    }
                    &&& *final(token) is None
                    &&& outcome.1 == Some(waker)
                },
                Poll::Ready(Err(RecvError::Disconnected)) => {
                    &&& old(self)@.log.unread(id).len() == 0
                    &&& !old(self)@.connected
                    &&& final(self)@ == old(self)@
                    &&& *final(token) is None
                    &&& outcome.1 == Some(waker)
                },
                Poll::Pending => {
                    &&& old(self)@.log.unread(id).len() == 0
                    &&& old(self)@.connected
                    &&& *final(token) is Some
                    &&& final(self)@ == old(self)@.park(id, (*final(token))->0, waker)
                    &&& 0 <= (*final(token))->0.index() <= old(self)@.waiters.len()
                    &&& final(self)@.parked_at(id, *final(token))
                    &&& if old(self)@.parked_at(id, *old(token)) {
                        &&& *final(token) == *old(token)
                        &&& outcome.1 == Some(
                            slot_at(old(self)@.waiters, (*old(token))->0.index())->0.waker,
                        )
                    } else {
                        &&& slot_at(old(self)@.waiters, (*final(token))->0.index()) is None
                        &&& has_vacancy(old(self)@.waiters) ==> (*final(token))->0.index() < old(
                            self,
                        )@.waiters.len()
                        &&& outcome.1 is None
                    }
                },
            },
    {
        proof {
            self.inner.lemma_valid();
        }
        let outcome = self.inner.poll_receive(id, token, waker);
        proof {
            if outcome.0 matches Poll::Ready(Ok(_)) {
                self.lemma_received(old(self)@, id);
            }
        }
        outcome
    }

    /// Gives up a waiting receive: takes the waker of the receiver `id` out of the slot `token`,
    /// if it is still there.
    pub fn unregister(&mut self, id: SlotId, token: Option<WakerToken>) -> (retired: Option<W>)
        requires
            old(self).wf(),
        ensures
            final(self).wf(),
            final(self).storage() == old(self).storage(),
            final(self).limit() == old(self).limit(),
            final(self).woken() == old(self).woken(),
            if old(self)@.parked_at(id, token) {
                &&& final(self)@ == old(self)@.unpark(token->0)
                &&& retired == Some(slot_at(old(self)@.waiters, token->0.index())->0.waker)
            } else {
                &&& final(self)@ == old(self)@
                &&& retired is None
            },
    {
        self.inner.unregister(id, token)
    }

    /// Ends the subscription `id`. The messages that no other receiver still has to read are
    /// returned, and so is the producer's parked waker where the departure shortened the backlog
    /// or left no receiver.
    pub fn unsubscribe(&mut self, id: SlotId) -> (outcome: (Vec<Arc<T>>, Option<W>))
        requires
            old(self).wf(),
            old(self)@.log.active(id),
        ensures
            final(self).wf(),
            final(self).storage() == old(self).storage(),
            final(self).limit() == old(self).limit(),
            final(self).woken() == old(self).woken(),
            final(self)@ == old(self)@.unsubscribe(id),
            outcome.0@.len() <= old(self)@.log.unread(id).len(),
            messages(outcome.0@) == old(self)@.log.unread(id).take(outcome.0@.len() as int),
            forall|version: int|
                old(self)@.log.cursors[id] <= version < old(self)@.log.history.len() ==> (
                #[trigger] old(self)@.log.needed_by_none_but(id, version) <==> version
                    < old(self)@.log.cursors[id] + outcome.0@.len()),
            outcome.1 == if old(self)@.departure_releases(id) {
                old(self)@.producer
            } else {
                None
            },
    {
        proof {
            self.inner.lemma_valid();
        }
        let outcome = self.inner.remove_receiver(id);
        proof {
            let before = old(self)@;
            assert forall|other: SlotId| #[trigger] self@.log.active(other) implies self@.log.unread(
                other,
            ).len() <= self.capacity by {
                assert(before.log.active(other));
            }
            if self@.producer is Some {
                let slowest = choose|slowest: SlotId| #[trigger]
                    before.log.active(slowest) && before.log.unread(slowest).len()
                        >= self.capacity;
                if slowest != id {
                    assert(self@.log.active(slowest) && self@.log.unread(slowest).len()
                        >= self.capacity);
                } else {
                    let level = choose|level: SlotId| #[trigger]
                        before.log.active(level) && level != id && before.log.cursors[id]
                            >= before.log.cursors[level];
                    assert(self@.log.active(level) && self@.log.unread(level).len()
                        >= self.capacity);
                }
            }
        }
        outcome
    }

    /// Records that the sender is gone, and unparks every receiver.
    pub fn disconnect(&mut self) -> (woken: Vec<W>)
        requires
            old(self).wf(),
        ensures
            final(self).wf(),
            final(self).storage() == old(self).storage(),
            final(self).limit() == old(self).limit(),
            final(self).woken() == old(self).woken(),
            final(self)@ == old(self)@.disconnect(),
            woken@ == old(self)@.parked(),
    {
        self.inner.disconnect()
    }

    /// Notes a waker that became due.
    fn note_waker(&mut self, waker: Option<W>)
        requires
            old(self).wf(),
        ensures
            final(self).wf(),
            final(self).storage() == old(self).storage(),
            final(self).limit() == old(self).limit(),
            final(self)@ == old(self)@,
            final(self).woken() == old(self).woken() + as_seq(waker),
    {
        match waker {
            Some(waker) => self.woken.push(waker),
            None => {},
        }
        assert(self.woken@ =~= old(self).woken@ + as_seq(waker));
    }

    /// Notes wakers that became due.
    fn note_wakers(&mut self, wakers: Vec<W>)
        requires
            old(self).wf(),
        ensures
            final(self).wf(),
            final(self).storage() == old(self).storage(),
            final(self).limit() == old(self).limit(),
            final(self)@ == old(self)@,
            final(self).woken() == old(self).woken() + wakers@,
    {
        let mut wakers = wakers;
        self.woken.append(&mut wakers);
    }

    /// Takes the wakers that became due since the last call, oldest first. Each of them is to be
    /// woken.
    pub fn take_woken(&mut self) -> (woken: Vec<W>)
        requires
            old(self).wf(),
        ensures
            final(self).wf(),
            final(self).storage() == old(self).storage(),
            final(self).limit() == old(self).limit(),
            final(self)@ == old(self)@,
            final(self).woken() == Seq::<W>::empty(),
            woken@ == old(self).woken(),
    {
        let mut woken: Vec<W> = Vec::new();
        core::mem::swap(&mut self.woken, &mut woken);
        woken
    }
}

/// Creates a new broadcast channel that retains at most `capacity` messages, with its sender and
/// its first receiver.
///
/// Every accepted value stays readable by every receiver that was active when it was accepted.
/// Once `capacity` messages are retained, a [`BoundedSender::send`] waits and
/// [`BoundedSender::try_send`] reports [`TrySendError::Full`] until the slowest active receiver
/// consumes a message or leaves.
pub fn bounded<T: Clone, W>(capacity: usize) -> (channel: (
    BoundedChannel<T, W>,
    BoundedSender<T>,
    BoundedReceiver<T>,
))
    requires
        capacity > 0,
    ensures
        channel.0.wf(),
        channel.0.limit() == capacity,
        channel.0.storage() == (Storage { slots: 1, elastic: false }),
        channel.2.id().index() == 0,
        channel.0.woken() == Seq::<W>::empty(),
        channel.0@.connected,
        channel.0@.log.history == Seq::<T>::empty(),
        channel.0@.log.cursors == Map::<SlotId, nat>::empty().insert(channel.2.id(), 0),
        channel.0@.waiters == Seq::<Option<Waiter<W>>>::empty(),
        channel.0@.parked() == Seq::<W>::empty(),
        channel.0@.producer is None,
        channel.0@.log.active(channel.2.id()),
        channel.0@.log.unread(channel.2.id()) == Seq::<T>::empty(),
        channel.0@.log.retains(0),
{
    let (inner, key) = Inner::with_first_subscription(Backlog::fixed(capacity));
    let channel = BoundedChannel { inner, capacity, woken: Vec::new() };
    let sender = BoundedSender { marker: PhantomData };
    let receiver = BoundedReceiver { key, marker: PhantomData };
    assert(channel@.parked() =~= Seq::<W>::empty());
    (channel, sender, receiver)
}

/// The sending side of a bounded broadcast channel.
///
/// There is one sender, and it cannot be cloned. Once it is disconnected, each receiver may drain
/// its own buffered messages before observing disconnection.
pub struct BoundedSender<T> {
    marker: PhantomData<T>,
}

/// A receiver for a bounded broadcast channel.
///
/// Each receiver sees every message sent to the channel while the receiver is active. A receiver
/// that stops draining holds capacity for the whole channel, so unsubscribing one that will not
/// keep up is how a caller releases the producer.
pub struct BoundedReceiver<T> {
    key: SlotId,
    marker: PhantomData<T>,
}

/// A send that has not begun, waits for capacity, or is done. It holds the sender, so that no
/// other send of it can begin in the meantime.
pub struct SendState<'a, T> {
    sender: PhantomData<&'a mut BoundedSender<T>>,
    value: Option<Arc<T>>,
    waiting: bool,
}

/// A receive that is under way. It holds the receiver.
pub struct Recv<'a, T> {
    receiver: PhantomData<&'a mut BoundedReceiver<T>>,
    key: SlotId,
    token: Option<WakerToken>,
}

impl<T> BoundedSender<T> {
    /// Begins to broadcast a value to all active receivers. Nothing is published yet, and the
    /// channel is not touched: the value is published by [`SendState::poll_send`], to whoever is
    /// subscribed then, or given up by [`SendState::cancel`].
    pub fn send<'a>(&'a mut self, value: T) -> (send: SendState<'a, T>)
        ensures
            send.pending() == Some(value),
            !send.waits(),
    {
        SendState { sender: PhantomData, value: Some(Arc::new(value)), waiting: false }
    }

    /// Attempts to broadcast a value to all active receivers without waiting.
    ///
    /// The value was published, or discarded because no receivers are active, where this returns
    /// `Ok`. On a channel that already retains `capacity` messages it was not published and is
    /// returned unchanged.
    pub fn try_send<W>(&mut self, channel: &mut BoundedChannel<T, W>, value: T) -> (outcome: Result<
        (),
        TrySendError<T>,
    >)
        requires
            old(channel).wf(),
            !old(channel).is_full() ==> old(channel)@.log.history.len() < u64::MAX,
        ensures
            final(channel).wf(),
            final(channel).storage() == old(channel).storage(),
            final(channel).limit() == old(channel).limit(),
            outcome == if old(channel).is_full() {
                Err(TrySendError::Full(value))
            } else {
                Ok(())
            },
            if old(channel).is_full() {
                &&& final(channel)@ == old(channel)@
                &&& final(channel).woken() == old(channel).woken()
            } else {
                &&& final(channel)@ == old(channel)@.publish(value)
                &&& final(channel).woken() == old(channel).woken() + old(channel)@.parked()
            },
    {
        match channel.publish(value) {
            Ok(published) => {
                channel.note_wakers(published.woken);
                Ok(())
            },
            Err(value) => Err(TrySendError::Full(value)),
        }
    }

    /// Returns the number of messages currently retained by the channel.
    ///
    /// This is not the number of messages any single receiver can still read. It is the shared
    /// backlog kept alive by the slowest active receiver, and it is what the channel measures
    /// against its capacity.
    pub fn retained_message_count<W>(&self, channel: &BoundedChannel<T, W>) -> (n: usize)
        requires
            channel.wf(),
        ensures
            channel@.log.retains(n as nat),
            n <= channel.limit(),
    {
        channel.retained()
    }

    /// Returns the number of messages the channel retains before the producer waits.
    pub fn capacity<W>(&self, channel: &BoundedChannel<T, W>) -> (n: usize)
        ensures
            n == channel.limit(),
    {
        channel.capacity
    }

    /// Creates a new receiver that starts receiving messages from the current tail of the
    /// channel.
    ///
    /// Subscribing never consumes capacity: the new cursor starts at the tail, so it retains
    /// nothing that was not already retained.
    #[must_use]
    pub fn subscribe<W>(&self, channel: &mut BoundedChannel<T, W>) -> (receiver: BoundedReceiver<T>)
        requires
            old(channel).wf(),
        ensures
            final(channel).wf(),
            final(channel).storage() == old(channel).storage().with_slot(receiver.id()),
            old(channel).storage().offers(old(channel)@.log, receiver.id()),
            final(channel).limit() == old(channel).limit(),
            final(channel).woken() == old(channel).woken(),
            !old(channel)@.log.active(receiver.id()),
            final(channel)@ == old(channel)@.subscribe(receiver.id()),
    {
        BoundedReceiver { key: channel.subscribe(), marker: PhantomData }
    }

    /// Gives the sender up. Every parked receiver becomes due.
    pub fn disconnect<W>(self, channel: &mut BoundedChannel<T, W>)
        requires
            old(channel).wf(),
        ensures
            final(channel).wf(),
            final(channel).storage() == old(channel).storage(),
            final(channel).limit() == old(channel).limit(),
            final(channel)@ == old(channel)@.disconnect(),
            final(channel).woken() == old(channel).woken() + old(channel)@.parked(),
    {
        let woken = channel.disconnect();
        channel.note_wakers(woken);
    }
}

impl<'a, T> SendState<'a, T> {
    /// The value that was not published yet.
    pub closed spec fn pending(&self) -> Option<T> {
        match self.value {
            Some(value) => Some(*value),
            None => None,
        }
    }

    /// Whether the producer was parked by this send, the last time that it was polled.
    pub closed spec fn waits(&self) -> bool {
        self.waiting
    }

    /// Publishes the value to every receiver that is active at this moment. On a channel that is
    /// full nothing is published, and `waker` is parked; it becomes due when the slowest active
    /// receiver consumes a retained message or leaves. Where no receiver is active the value is
    /// discarded without waiting.
    ///
    /// A send that is done stays done.
    pub fn poll_send<W>(&mut self, channel: &mut BoundedChannel<T, W>, waker: W) -> (outcome: Poll<
        (),
    >)
        requires
            old(channel).wf(),
            old(self).pending() is Some && !old(channel).is_full() ==> old(
                channel,
            )@.log.history.len() < u64::MAX,
        ensures
            final(channel).wf(),
            final(channel).storage() == old(channel).storage(),
            final(channel).limit() == old(channel).limit(),
            final(self).waits() == (outcome is Pending),
            match old(self).pending() {
                None => {
                    &&& outcome == Poll::Ready(())
                    &&& final(self).pending() is None
                    &&& final(channel)@ == old(channel)@
                    &&& final(channel).woken() == old(channel).woken()
                },
                Some(value) => if old(channel).is_full() {
                    &&& outcome == Poll::<()>::Pending
                    &&& final(self).pending() == Some(value)
                    &&& final(channel)@ == old(channel)@.park_producer(Some(waker))
                    &&& final(channel).woken() == old(channel).woken()
                } else {
                    &&& outcome == Poll::Ready(())
                    &&& final(self).pending() is None
                    &&& final(channel)@ == old(channel)@.publish(value)
                    &&& final(channel).woken() == old(channel).woken() + old(channel)@.parked()
                },
            },
    {
        let attempt = channel.poll_send(&mut self.value, waker);
        channel.note_wakers(attempt.woken);
        self.waiting = match attempt.outcome {
            Poll::Ready(()) => false,
            Poll::Pending => true,
        };
        attempt.outcome
    }

    /// Gives the send up. A value that was not published yet never enters the committed order. A
    /// producer that this send parked is parked no longer; a send that is not waiting leaves the
    /// channel alone.
    pub fn cancel<W>(self, channel: &mut BoundedChannel<T, W>)
        requires
            old(channel).wf(),
        ensures
            final(channel).wf(),
            final(channel).storage() == old(channel).storage(),
            final(channel).limit() == old(channel).limit(),
            final(channel).woken() == old(channel).woken(),
            final(channel)@ == if self.waits() {
                old(channel)@.park_producer(None)
            } else {
                old(channel)@
            },
    {
        if self.waiting {
            let _ = channel.cancel_send();
        }
    }
}

impl<T> BoundedReceiver<T> {
    /// The subscription that this receiver stands for.
    pub closed spec fn id(&self) -> SlotId {
        self.key
    }

    /// The subscription that this receiver stands for, for use with the steps of the channel.
    pub fn subscription(&self) -> (id: SlotId)
        ensures
            id == self.id(),
    {
        self.key
    }

    /// Begins to receive the next value for this receiver. [`Recv::poll`] carries the receive
    /// on and [`Recv::cancel`] gives it up.
    pub fn recv<'a>(&'a mut self) -> (recv: Recv<'a, T>)
        ensures
            *final(self) == *old(self),
            recv.id() == old(self).id(),
            recv.token() is None,
    {
        Recv { receiver: PhantomData, key: self.key, token: None }
    }

    /// Attempts to receive the next value for this receiver without waiting.
    ///
    /// * `Ok`: the next message. It is the one that was sent, or a clone of it where another
    ///   handle to it is left.
    /// * `Empty`: no message is currently available.
    /// * `Disconnected`: the sender is gone and this receiver has no remaining messages.
    pub fn try_recv<W>(&mut self, channel: &mut BoundedChannel<T, W>) -> (outcome: Result<
        T,
        TryRecvError,
    >) where T: Clone
        requires
            old(channel).wf(),
            old(channel)@.log.active(old(self).id()),
        ensures
            *final(self) == *old(self),
            final(channel).wf(),
            final(channel).storage() == old(channel).storage(),
            final(channel).limit() == old(channel).limit(),
            final(channel).woken() + as_seq(final(channel)@.producer) == old(channel).woken() + as_seq(
                old(channel)@.producer,
            ),
            match outcome {
                Ok(value) => {
                    &&& old(channel)@.log.unread(old(self).id()).len() > 0
                    &&& cloned::<T>(old(channel)@.log.unread(old(self).id())[0], value)
                    &&& final(channel)@ == old(channel)@.receive(old(self).id())
                    &&& final(channel).woken() == old(channel).woken() + if old(
                        channel,
                    )@.log.trails_alone(old(self).id()) {
                        as_seq(old(channel)@.producer)
                    } else {
                        Seq::empty()
                    }
                },
                Err(error) => {
                    &&& old(channel)@.log.unread(old(self).id()).len() == 0
                    &&& error == if old(channel)@.connected {
                        TryRecvError::Empty
                    } else {
                        TryRecvError::Disconnected
                    }
                    &&& final(channel)@ == old(channel)@
                    &&& final(channel).woken() == old(channel).woken()
                },
            },
    {
        match channel.try_receive(self.key) {
            Ok((msg, producer)) => {
                channel.note_waker(producer);
                Ok(take_msg(msg))
            },
            Err(error) => Err(error),
        }
    }

    /// Re-subscribes to the channel, returning a new receiver that starts receiving messages from
    /// the *current* tail of the channel.
    ///
    /// The new receiver skips every value already published. The original receiver is unchanged
    /// and continues to retain its own backlog until it consumes those messages or leaves.
    #[must_use]
    pub fn resubscribe<W>(&self, channel: &mut BoundedChannel<T, W>) -> (receiver: BoundedReceiver<T>)
        requires
            old(channel).wf(),
        ensures
            final(channel).wf(),
            final(channel).storage() == old(channel).storage().with_slot(receiver.id()),
            old(channel).storage().offers(old(channel)@.log, receiver.id()),
            final(channel).limit() == old(channel).limit(),
            final(channel).woken() == old(channel).woken(),
            !old(channel)@.log.active(receiver.id()),
            final(channel)@ == old(channel)@.subscribe(receiver.id()),
    {
        BoundedReceiver { key: channel.subscribe(), marker: PhantomData }
    }

    /// Returns the number of messages this receiver can still read.
    pub fn unread_message_count<W>(&self, channel: &BoundedChannel<T, W>) -> (n: usize)
        requires
            channel.wf(),
            channel@.log.active(self.id()),
        ensures
            n == channel@.log.unread(self.id()).len(),
    {
        channel.unread(self.key)
    }

    /// Gives the subscription up. The backlog that only this receiver was holding is released,
    /// and a producer that waits for capacity becomes due where that released any, or where no
    /// receiver is left.
    pub fn unsubscribe<W>(self, channel: &mut BoundedChannel<T, W>)
        requires
            old(channel).wf(),
            old(channel)@.log.active(self.id()),
        ensures
            final(channel).wf(),
            final(channel).storage() == old(channel).storage(),
            final(channel).limit() == old(channel).limit(),
            final(channel).woken() + as_seq(final(channel)@.producer) == old(channel).woken() + as_seq(
                old(channel)@.producer,
            ),
            final(channel)@ == old(channel)@.unsubscribe(self.id()),
            final(channel).woken() == old(channel).woken() + if old(channel)@.departure_releases(
                self.id(),
            ) {
                as_seq(old(channel)@.producer)
            } else {
                Seq::empty()
            },
    {
        let (_, producer) = channel.unsubscribe(self.key);
        channel.note_waker(producer);
    }
}

impl<'a, T> Recv<'a, T> {
    /// The subscription that this receive is for.
    pub closed spec fn id(&self) -> SlotId {
        self.key
    }

    /// Where the waker of this receive was parked.
    pub closed spec fn token(&self) -> Option<WakerToken> {
        self.token
    }

    /// Carries the receive on: completes with the next message or with disconnection, and
    /// otherwise parks `waker`, in place of the one parked by an earlier call. It becomes due
    /// with the next publication, or when the sender leaves.
    pub fn poll<W>(&mut self, channel: &mut BoundedChannel<T, W>, waker: W) -> (outcome: Poll<
        Result<T, RecvError>,
    >) where T: Clone
        requires
            old(channel).wf(),
            old(channel)@.log.active(old(self).id()),
        ensures
            final(self).id() == old(self).id(),
            final(channel).wf(),
            final(channel).storage() == old(channel).storage(),
            final(channel).limit() == old(channel).limit(),
            final(channel).woken() + as_seq(final(channel)@.producer) == old(channel).woken() + as_seq(
                old(channel)@.producer,
            ),
            match outcome {
                Poll::Ready(Ok(value)) => {
                    &&& old(channel)@.log.unread(old(self).id()).len() > 0
                    &&& cloned::<T>(old(channel)@.log.unread(old(self).id())[0], value)
                    &&& final(channel)@ == old(channel)@.receive(old(self).id())
                    &&& final(channel).woken() == old(channel).woken() + if old(
                        channel,
                    )@.log.trails_alone(old(self).id()) {
                        as_seq(old(channel)@.producer)
                    } else {
                        Seq::empty()
                    }
                    &&& final(self).token() is None
                },
                Poll::Ready(Err(RecvError::Disconnected)) => {
                    &&& old(channel)@.log.unread(old(self).id()).len() == 0
                    &&& !old(channel)@.connected
                    &&& final(channel)@ == old(channel)@
                    &&& final(channel).woken() == old(channel).woken()
                    &&& final(self).token() is None
                },
                Poll::Pending => {
                    &&& old(channel)@.log.unread(old(self).id()).len() == 0
                    &&& old(channel)@.connected
                    &&& final(self).token() is Some
                    &&& final(channel)@ == old(channel)@.park(
                        old(self).id(),
                        final(self).token()->0,
                        waker,
                    )
                    &&& final(channel)@.parked_at(old(self).id(), final(self).token())
                    &&& final(channel).woken() == old(channel).woken()
                    &&& 0 <= final(self).token()->0.index() <= old(channel)@.waiters.len()
                    &&& if old(channel)@.parked_at(old(self).id(), old(self).token()) {
                        final(self).token() == old(self).token()
                    } else {
                        &&& slot_at(old(channel)@.waiters, final(self).token()->0.index()) is None
                        &&& has_vacancy(old(channel)@.waiters) ==> final(self).token()->0.index()
                            < old(channel)@.waiters.len()
                    }
                },
            },
    {
        let (outcome, _) = channel.poll_receive(self.key, &mut self.token, waker);
        match outcome {
            Poll::Ready(Ok((msg, producer))) => {
                channel.note_waker(producer);
                Poll::Ready(Ok(take_msg(msg)))
            },
            Poll::Ready(Err(error)) => Poll::Ready(Err(error)),
            Poll::Pending => Poll::Pending,
        }
    }

    /// Gives the receive up. The receiver's cursor does not move, and a waker that is still
    /// parked for this receive is taken out.
    pub fn cancel<W>(self, channel: &mut BoundedChannel<T, W>)
        requires
            old(channel).wf(),
        ensures
            final(channel).wf(),
            final(channel).storage() == old(channel).storage(),
            final(channel).limit() == old(channel).limit(),
            final(channel).woken() == old(channel).woken(),
            final(channel)@ == if old(channel)@.parked_at(self.id(), self.token()) {
                old(channel)@.unpark(self.token()->0)
            } else {
                old(channel)@
            },
    {
        let _ = channel.unregister(self.key, self.token);
    }
}

} // verus!
