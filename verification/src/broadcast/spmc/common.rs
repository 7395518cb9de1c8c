//! The state that both kinds of channel share: the log, the tasks parked on it, and whether the
//! sender is still there.

use crate::broadcast::spmc::backlog::message;
use crate::broadcast::spmc::backlog::messages;
use crate::broadcast::spmc::backlog::Backlog;
use crate::broadcast::spmc::error::RecvError;
use crate::broadcast::spmc::error::TryRecvError;
use crate::broadcast::spmc::log::Log;
use crate::broadcast::spmc::log::LogState;
use crate::broadcast::spmc::log::Storage;
use crate::internal::arena::has_vacancy;
use crate::internal::arena::occupants;
use crate::internal::arena::place;
use crate::internal::arena::slot_at;
use crate::internal::arena::vacate;
use crate::internal::arena::Arena;
use crate::internal::arena::SlotId;
use std::sync::Arc;
use vstd::prelude::*;

verus! {

/// The outcome of one attempt at an operation that may have to wait.
#[derive(Clone, Debug, PartialEq, Eq)]
pub enum Poll<R> {
    /// The operation is done.
    Ready(R),
    /// The operation has to wait, and the waker it was given is parked.
    Pending,
}

impl<R> Poll<R> {
    /// What the operation came to, where it is known to be done.
    pub fn into_ready(self) -> (outcome: R)
        requires
            self is Ready,
        ensures
            self == Poll::Ready(outcome),
    {
        match self {
            Poll::Ready(outcome) => outcome,
            Poll::Pending => vstd::pervasive::unreached(),
        }
    }
}

/// A task parked on behalf of a receiver.
pub struct Waiter<W> {
    pub owner: SlotId,
    pub waker: W,
}

/// The place where a receiver's waker is parked.
pub type WakerToken = SlotId;

/// What a channel amounts to.
#[verifier::ext_equal]
pub struct ChannelState<T, W> {
    /// What was published and how far each receiver has read.
    pub log: LogState<T>,
    /// Whether the sender is still there.
    pub connected: bool,
    /// The receivers' parked wakers, by slot.
    pub waiters: Seq<Option<Waiter<W>>>,
    /// The parked waker of the one producer.
    pub producer: Option<W>,
}

/// The wakers of `waiters`.
pub open spec fn wakers<W>(waiters: Seq<Waiter<W>>) -> Seq<W> {
    waiters.map_values(|waiter: Waiter<W>| waiter.waker)
}

impl<T, W> ChannelState<T, W> {
    /// Every receiver's parked waker, in slot order.
    pub open spec fn parked(self) -> Seq<W> {
        wakers(occupants(self.waiters))
    }

    /// A parked receiver has nothing to read and a sender to wait for.
    pub open spec fn parked_for_a_reason(self) -> bool {
        forall|i: int|
            0 <= i < self.waiters.len() && (#[trigger] self.waiters[i]) is Some ==> {
                &&& self.connected
                &&& self.log.active(self.waiters[i]->0.owner) ==> self.log.unread(
                    self.waiters[i]->0.owner,
                ).len() == 0
            }
    }

    /// Cursors are within the history, and whatever is parked is parked for a reason.
    pub open spec fn valid(self) -> bool {
        self.log.valid() && self.parked_for_a_reason()
    }

    /// Whether `token` names the slot in which a waker of the receiver `id` is parked.
    pub open spec fn parked_at(self, id: SlotId, token: Option<WakerToken>) -> bool {
        &&& token is Some
        &&& slot_at(self.waiters, token->0.index()) is Some
        &&& slot_at(self.waiters, token->0.index())->0.owner == id
    }

    /// The channel after `msg` was published: no receiver is parked any more.
    pub open spec fn publish(self, msg: T) -> Self {
        ChannelState { log: self.log.publish(msg), waiters: Seq::empty(), ..self }
    }

    /// The channel after `id` was subscribed.
    pub open spec fn subscribe(self, id: SlotId) -> Self {
        ChannelState { log: self.log.subscribe(id), ..self }
    }

    /// The channel after `id` read its next message. A read that shortens the backlog unparks
    /// the producer.
    pub open spec fn receive(self, id: SlotId) -> Self {
        ChannelState {
            log: self.log.receive(id),
            producer: if self.log.trails_alone(id) {
                None
            } else {
                self.producer
            },
            ..self
        }
    }

    /// Whether the departure of `id` shortens the backlog or leaves no receiver.
    pub open spec fn departure_releases(self, id: SlotId) -> bool {
        ||| self.log.unread(id).len() > 0 && self.log.trails_alone(id)
        ||| !self.log.unsubscribe(id).has_receivers()
    }

    /// The channel after `id` left.
    pub open spec fn unsubscribe(self, id: SlotId) -> Self {
        ChannelState {
            log: self.log.unsubscribe(id),
            producer: if self.departure_releases(id) {
                None
            } else {
                self.producer
            },
            ..self
        }
    }

    /// The channel after the sender left: no receiver is parked any more.
    pub open spec fn disconnect(self) -> Self {
        ChannelState { connected: false, waiters: Seq::empty(), ..self }
    }

    /// The channel with a waker of the receiver `id` parked in the slot `token`.
    pub open spec fn park(self, id: SlotId, token: WakerToken, waker: W) -> Self {
        ChannelState {
            waiters: place(self.waiters, token.index(), Waiter { owner: id, waker }),
            ..self
        }
    }

    /// The channel with nothing parked in the slot `token`.
    pub open spec fn unpark(self, token: WakerToken) -> Self {
        ChannelState { waiters: vacate(self.waiters, token.index()), ..self }
    }

    /// The channel with this waker parked for the producer.
    pub open spec fn park_producer(self, waker: Option<W>) -> Self {
        ChannelState { producer: waker, ..self }
    }
}

/// `std::sync::Arc::try_unwrap` returns the value itself where no other handle to it is left, and
/// the handle otherwise. Which of the two it is depends on the other handles, and nothing is
/// claimed of it.
#[verifier::external_body]
fn unwrap_sole_handle<T>(handle: Arc<T>) -> (outcome: Result<T, Arc<T>>)
    ensures
        match outcome {
            Ok(value) => value == *handle,
            Err(shared) => shared == handle,
        },
{
    Arc::try_unwrap(handle)
}

/// Turns what came of taking a handle apart into the message: the message itself where it was
/// taken over, a clone of it where it is shared.
pub fn owned_or_cloned<T: Clone>(outcome: Result<T, Arc<T>>) -> (value: T)
    ensures
        match outcome {
            Ok(owned) => value == owned,
            Err(shared) => cloned::<T>(*shared, value),
        },
{
    match outcome {
        Ok(value) => value,
        Err(shared) => T::clone(&shared),
    }
}

/// Turns a received handle into the message: taken over where this was the last handle to it,
/// cloned otherwise.
pub fn take_msg<T: Clone>(msg: Arc<T>) -> (value: T)
    ensures
        cloned::<T>(*msg, value),
{
    owned_or_cloned(unwrap_sole_handle(msg))
}

/// The state that both kinds of channel share.
pub struct Inner<T, W> {
    log: Log<T>,
    waiters: Arena<Waiter<W>>,
    producer: Option<W>,
    connected: bool,
}

impl<T, W> View for Inner<T, W> {
    type V = ChannelState<T, W>;

    closed spec fn view(&self) -> ChannelState<T, W> {
        ChannelState {
            log: self.log@,
            connected: self.connected,
            waiters: self.waiters@,
            producer: self.producer,
        }
    }
}

impl<T, W> Inner<T, W> {
    /// The parts are well formed, and whatever is parked is parked for a reason.
    pub closed spec fn wf(&self) -> bool {
        &&& self.log.wf()
        &&& self.waiters.wf()
        &&& self@.parked_for_a_reason()
    }

    /// How the log of the channel is laid out.
    pub closed spec fn storage(&self) -> Storage {
        self.log.storage()
    }

    /// The state of a well formed channel is valid.
    pub proof fn lemma_valid(&self)
        requires
            self.wf(),
        ensures
            self@.valid(),
    {
        self.log.lemma_valid();
    }

    /// What is parked stays parked for a reason where the sender is there as before and no
    /// receiver has anything more to read.
    proof fn lemma_still_parked_for_a_reason(before: ChannelState<T, W>, after: ChannelState<T, W>)
        requires
            before.parked_for_a_reason(),
            after.waiters == before.waiters,
            after.connected == before.connected,
            forall|id: SlotId| #[trigger]
                after.log.active(id) && after.log.unread(id).len() > 0 ==> before.log.active(id)
                    && before.log.unread(id).len() > 0,
        ensures
            after.parked_for_a_reason(),
    {
        assert forall|i: int|
            0 <= i < after.waiters.len() && (#[trigger] after.waiters[i]) is Some implies {
            &&& after.connected
            &&& after.log.active(after.waiters[i]->0.owner) ==> after.log.unread(
                after.waiters[i]->0.owner,
            ).len() == 0
        } by {
            assert(before.waiters[i] is Some);
        }
    }

    /// A connected channel with one receiver and nothing published.
    pub fn with_first_subscription(backlog: Backlog<T>) -> (first: (Self, SlotId))
        requires
            backlog.wf(),
            backlog@ == Seq::<T>::empty(),
        ensures
            first.0.wf(),
            first.0.storage() == (Storage { slots: 1, elastic: backlog.is_elastic() }),
            first.1.index() == 0,
            first.0@.connected,
            first.0@.log.history == Seq::<T>::empty(),
            first.0@.log.cursors == Map::<SlotId, nat>::empty().insert(first.1, 0),
            first.0@.waiters == Seq::<Option<Waiter<W>>>::empty(),
            first.0@.producer is None,
    {
        let mut log = Log::new(backlog);
        let id = log.subscribe();
        (Inner { log, waiters: Arena::new(), producer: None, connected: true }, id)
    }

    /// Whether any receiver is active.
    pub fn has_receivers(&self) -> (yes: bool)
        requires
            self.wf(),
        ensures
            yes == self@.log.has_receivers(),
    {
        self.log.has_receivers()
    }

    /// The number of messages in the shared backlog.
    pub fn retained(&self) -> (n: usize)
        requires
            self.wf(),
        ensures
            self@.log.retains(n as nat),
    {
        self.log.retained()
    }

    /// The number of messages that the receiver `id` has not read.
    pub fn unread(&self, id: SlotId) -> (n: usize)
        requires
            self.wf(),
            self@.log.active(id),
        ensures
            n == self@.log.unread(id).len(),
    {
        self.log.unread(id)
    }

    /// The number of messages that can still be published.
    pub fn versions_left(&self) -> (n: u64)
        requires
            self.wf(),
        ensures
            n == u64::MAX - self@.log.history.len(),
    {
        self.log.versions_left()
    }

    /// The number of messages that fit in the buffer without another allocation.
    pub fn buffer_capacity(&self) -> (room: usize)
        requires
            self.wf(),
        ensures
            forall|id: SlotId| #[trigger]
                self@.log.active(id) ==> room >= self@.log.unread(id).len(),
    {
        self.log.buffer_capacity()
    }

    /// Unparks every receiver.
    fn drain_waiters(&mut self) -> (woken: Vec<W>)
        requires
            old(self).waiters.wf(),
        ensures
            final(self).waiters.wf(),
            final(self)@ == (ChannelState { waiters: Seq::empty(), ..old(self)@ }),
            final(self).log == old(self).log,
            woken@ == old(self)@.parked(),
    {
        let mut waiters = self.waiters.drain();
        let ghost all = waiters@;
        let mut woken: Vec<W> = Vec::new();
        assert(wakers(all.take(0)) =~= Seq::<W>::empty());
        for waiter in iter: waiters
            invariant
                iter.seq() == all,
                woken@ == wakers(all.take(iter.index() as int)),
        {
            woken.push(waiter.waker);
            assert(wakers(all.take(iter.index() + 1)) =~= wakers(all.take(iter.index() as int)).push(
                waiter.waker,
            ));
        }
        assert(all.take(all.len() as int) == all);
        woken
    }

    /// Subscribes a receiver at the current publication boundary.
    pub fn subscribe(&mut self) -> (id: SlotId)
        requires
            old(self).wf(),
        ensures
            final(self).wf(),
            final(self).storage() == old(self).storage().with_slot(id),
            old(self).storage().offers(old(self)@.log, id),
            !old(self)@.log.active(id),
            final(self)@ == old(self)@.subscribe(id),
    {
        let id = self.log.subscribe();
        proof {
            Self::lemma_still_parked_for_a_reason(old(self)@, self@);
        }
        id
    }

    /// Counts a message that nothing will read, and unparks every receiver.
    pub fn publish_discarded(&mut self, Ghost(msg): Ghost<T>) -> (woken: Vec<W>)
        requires
            old(self).wf(),
            !old(self)@.log.has_receivers(),
            old(self)@.log.history.len() < u64::MAX,
        ensures
            final(self).wf(),
            final(self).storage() == old(self).storage(),
            final(self)@ == old(self)@.publish(msg),
            woken@ == old(self)@.parked(),
    {
        self.log.publish_discarded(Ghost(msg));
        self.drain_waiters()
    }

    /// Appends a message that every active receiver is going to read, and unparks every
    /// receiver.
    pub fn publish_retained(&mut self, msg: Arc<T>) -> (woken: Vec<W>)
        requires
            old(self).wf(),
            old(self)@.log.has_receivers(),
            old(self)@.log.history.len() < u64::MAX,
        ensures
            final(self).wf(),
            final(self).storage() == old(self).storage(),
            final(self)@ == old(self)@.publish(*msg),
            woken@ == old(self)@.parked(),
    {
        self.log.publish_retained(msg);
        self.drain_waiters()
    }

    /// Reads the next message of the receiver `id`. A read that shortens the backlog hands out
    /// the producer's parked waker.
    pub fn try_receive(&mut self, id: SlotId) -> (outcome: Result<
        (Arc<T>, Option<W>),
        TryRecvError,
    >)
        requires
            old(self).wf(),
            old(self)@.log.active(id),
        ensures
            final(self).wf(),
            final(self).storage() == old(self).storage(),
            match outcome {
                Ok((msg, producer)) => {
                    &&& old(self)@.log.unread(id).len() > 0
                    &&& *msg == old(self)@.log.unread(id)[0]
                    &&& final(self)@ == old(self)@.receive(id)
                    &&& producer == if old(self)@.log.trails_alone(id) {
                        old(self)@.producer
                    } else {
                        None
                    }
                },
                Err(TryRecvError::Empty) => {
                    &&& old(self)@.log.unread(id).len() == 0
                    &&& old(self)@.connected
                    &&& final(self)@ == old(self)@
                },
                Err(TryRecvError::Disconnected) => {
                    &&& old(self)@.log.unread(id).len() == 0
                    &&& !old(self)@.connected
                    &&& final(self)@ == old(self)@
                },
            },
    {
        match self.log.receive(id) {
            Some((msg, reclaimed)) => {
                let producer = if reclaimed {
                    self.producer.take()
                } else {
                    None
                };
                proof {
                    Self::lemma_still_parked_for_a_reason(old(self)@, self@);
                }
                Ok((msg, producer))
            },
            None => {
                if self.connected {
                    Err(TryRecvError::Empty)
                } else {
                    Err(TryRecvError::Disconnected)
                }
            },
        }
    }

    /// Ends the subscription `id`. The messages that no other receiver still has to read are
    /// returned, and so is the producer's parked waker where the departure shortened the backlog
    /// or left no receiver.
    pub fn remove_receiver(&mut self, id: SlotId) -> (outcome: (Vec<Arc<T>>, Option<W>))
        requires
            old(self).wf(),
            old(self)@.log.active(id),
        ensures
            final(self).wf(),
            final(self).storage() == old(self).storage(),
            final(self)@ == old(self)@.unsubscribe(id),
            outcome.0@.len() <= old(self)@.log.unread(id).len(),
            messages(outcome.0@) == old(self)@.log.unread(id).take(outcome.0@.len() as int),
            forall|version: int|
                old(self)@.log.cursors[id] <= version < old(self)@.log.history.len() ==> (
                #[trigger] old(self)@.log.needed_by_none_but(id, version) <==> version
                    < old(self)@.log.cursors[id] + outcome.0@.len()),
            outcome.1 == if old(self)@.departure_releases(id) {
                old(self)@.producer
            } else {
                None
            },
    {
        let reclaimed = self.log.remove_receiver(id);
        let drained_last = !self.log.has_receivers();
        proof {
            let first = old(self)@.log.cursors[id] as int;
            old(self).log.lemma_valid();
            assert(old(self)@.log.active(id));
            assert(old(self)@.log.needed_by_none_but(id, first)
                == old(self)@.log.trails_alone(id));
            Self::lemma_still_parked_for_a_reason(old(self)@, self@);
        }
        let producer = self.take_producer_on_reclaim(reclaimed.len() > 0, drained_last);
        (reclaimed, producer)
    }

    /// Takes the producer's parked waker out where a reclaim or the last departure gives it a
    /// reason to try again.
    fn take_producer_on_reclaim(&mut self, reclaimed: bool, drained_last: bool) -> (producer:
        Option<W>)
        ensures
            final(self)@ == if reclaimed || drained_last {
                old(self)@.park_producer(None)
            } else {
                old(self)@
            },
            final(self).log == old(self).log,
            final(self).waiters == old(self).waiters,
            producer == if reclaimed || drained_last {
                old(self)@.producer
            } else {
                None
            },
    {
        if reclaimed || drained_last {
            self.producer.take()
        } else {
            None
        }
    }

    /// Records that the sender is gone, and unparks every receiver.
    pub fn disconnect(&mut self) -> (woken: Vec<W>)
        requires
            old(self).wf(),
        ensures
            final(self).wf(),
            final(self).storage() == old(self).storage(),
            final(self)@ == old(self)@.disconnect(),
            woken@ == old(self)@.parked(),
    {
        self.connected = false;
        self.drain_waiters()
    }

    /// Parks the producer and returns the waker that was parked for it before.
    pub fn park_producer(&mut self, waker: W) -> (retired: Option<W>)
        requires
            old(self).wf(),
        ensures
            final(self).wf(),
            final(self).storage() == old(self).storage(),
            final(self)@ == old(self)@.park_producer(Some(waker)),
            retired == old(self)@.producer,
    {
        let mut slot: Option<W> = Some(waker);
        core::mem::swap(&mut self.producer, &mut slot);
        slot
    }

    /// Takes the producer's parked waker out.
    pub fn take_producer(&mut self) -> (retired: Option<W>)
        requires
            old(self).wf(),
        ensures
            final(self).wf(),
            final(self).storage() == old(self).storage(),
            final(self)@ == old(self)@.park_producer(None),
            retired == old(self)@.producer,
    {
        self.producer.take()
    }

    /// Attempts a receive that may wait: reads the next message, or reports disconnection, or
    /// parks `waker` for the receiver `id`. A waker of this receiver that is already parked in
    /// the slot `token` is replaced.
    ///
    /// The second result is the waker to dispose of: the one given where it was not parked, the
    /// one replaced where there was one.
    pub fn poll_receive(
        &mut self,
        id: SlotId,
        token: &mut Option<WakerToken>,
        waker: W,
    ) -> (outcome: (Poll<Result<(Arc<T>, Option<W>), RecvError>>, Option<W>))
        requires
            old(self).wf(),
            old(self)@.log.active(id),
        ensures
            final(self).wf(),
            final(self).storage() == old(self).storage(),
            match outcome.0 {
                Poll::Ready(Ok((msg, producer))) => {
                    &&& old(self)@.log.unread(id).len() > 0
                    &&& *msg == old(self)@.log.unread(id)[0]
                    &&& final(self)@ == old(self)@.receive(id)
                    &&& producer == if old(self)@.log.trails_alone(id) {
                        old(self)@.producer
                    } else {
                        None
                    }
                    &&& *final(token) is None
                    &&& outcome.1 == Some(waker)
                },
                Poll::Ready(Err(RecvError::Disconnected)) => {
                    &&& old(self)@.log.unread(id).len() == 0
                    &&& !old(self)@.connected
                    &&& final(self)@ == old(self)@
                    &&& *final(token) is None
                    &&& outcome.1 == Some(waker)
                },
                Poll::Pending => {
                    &&& old(self)@.log.unread(id).len() == 0
                    &&& old(self)@.connected
                    &&& *final(token) is Some
                    &&& final(self)@ == old(self)@.park(id, (*final(token))->0, waker)
                    &&& 0 <= (*final(token))->0.index() <= old(self)@.waiters.len()
                    &&& final(self)@.parked_at(id, *final(token))
                    &&& if old(self)@.parked_at(id, *old(token)) {
                        &&& *final(token) == *old(token)
                        &&& outcome.1 == Some(
                            slot_at(old(self)@.waiters, (*old(token))->0.index())->0.waker,
                        )
                    } else {
                        &&& slot_at(old(self)@.waiters, (*final(token))->0.index()) is None
                        &&& has_vacancy(old(self)@.waiters) ==> (*final(token))->0.index() < old(
                            self,
                        )@.waiters.len()
                        &&& outcome.1 is None
                    }
                },
            },
    {
        match self.try_receive(id) {
            Ok((msg, producer)) => {
                *token = None;
                (Poll::Ready(Ok((msg, producer))), Some(waker))
            },
            Err(TryRecvError::Disconnected) => {
                *token = None;
                (Poll::Ready(Err(RecvError::Disconnected)), Some(waker))
            },
            Err(TryRecvError::Empty) => {
                let waiter = Waiter { owner: id, waker };
                let parked = self.is_parked_at(id, *token);
                if parked {
                    let retired = self.waiters.replace(token.unwrap(), waiter);
                    (Poll::Pending, Some(retired.waker))
                } else {
                    *token = Some(self.waiters.insert(waiter));
                    (Poll::Pending, None)
                }
            },
        }
    }

    /// Whether a waker of the receiver `id` is parked in the slot `token`.
    fn is_parked_at(&self, id: SlotId, token: Option<WakerToken>) -> (yes: bool)
        ensures
            yes == self@.parked_at(id, token),
    {
        match token {
            Some(token) => match self.waiters.get(token) {
                Some(waiter) => waiter.owner == id,
                None => false,
            },
            None => false,
        }
    }

    /// Gives up a wait: takes the waker of the receiver `id` out of the slot `token`, if it is
    /// still there. A slot that was handed to another receiver in the meantime stays as it is.
    pub fn unregister(&mut self, id: SlotId, token: Option<WakerToken>) -> (retired: Option<W>)
        requires
            old(self).wf(),
        ensures
            final(self).wf(),
            final(self).storage() == old(self).storage(),
            if old(self)@.parked_at(id, token) {
                &&& final(self)@ == old(self)@.unpark(token->0)
                &&& retired == Some(slot_at(old(self)@.waiters, token->0.index())->0.waker)
            } else {
                &&& final(self)@ == old(self)@
                &&& retired is None
            },
    {
        if self.is_parked_at(id, token) {
            match self.waiters.remove(token.unwrap()) {
                Some(waiter) => Some(waiter.waker),
                None => None,
            }
        } else {
            None
        }
    }
}

} // verus!
