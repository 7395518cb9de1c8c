//! An unbounded fan-out channel with one sender and many receivers.
//!
//! A send publishes one value to every receiver that exists at that moment. Receivers advance
//! independently, and a receiver created later starts with the next value rather than replaying
//! earlier values. The sender cannot be cloned, and [`UnboundedSender::send`] takes `&mut self`,
//! so there is no second producer.
//!
//! # Backlog and memory
//!
//! Published values remain in the shared backlog until every receiver that was eligible for them
//! has advanced past them or left. Because sending has no capacity limit, one stalled receiver can
//! make that backlog exhaust available memory. [`UnboundedSender::retained_message_count`] reports
//! its current length.
//!
//! # Handles and the channel
//!
//! As with the bounded channel, the methods of [`UnboundedChannel`] are the indivisible steps, and
//! the methods of the handles put them together for a caller that owns the channel.

use crate::broadcast::spmc::backlog::message;
use crate::broadcast::spmc::backlog::messages;
use crate::broadcast::spmc::backlog::Backlog;
use crate::broadcast::spmc::common::take_msg;
use crate::broadcast::spmc::common::ChannelState;
use crate::broadcast::spmc::common::Inner;
use crate::broadcast::spmc::common::Poll;
use crate::broadcast::spmc::common::Waiter;
use crate::broadcast::spmc::common::WakerToken;
use crate::broadcast::spmc::error::RecvError;
use crate::broadcast::spmc::error::TryRecvError;
use crate::broadcast::spmc::log::Storage;
use crate::internal::arena::has_vacancy;
use crate::internal::arena::slot_at;
use crate::internal::arena::SlotId;
use std::marker::PhantomData;
use std::sync::Arc;
use vstd::prelude::*;

verus! {

/// An unbounded broadcast channel.
pub struct UnboundedChannel<T, W> {
    inner: Inner<T, W>,
    woken: Vec<W>,
}

impl<T, W> View for UnboundedChannel<T, W> {
    type V = ChannelState<T, W>;

    closed spec fn view(&self) -> ChannelState<T, W> {
        self.inner@
    }
}

impl<T, W> UnboundedChannel<T, W> {
    /// How the log of the channel is laid out.
    pub closed spec fn storage(&self) -> Storage {
        self.inner.storage()
    }

    /// The wakers that became due and were not taken yet.
    pub closed spec fn woken(&self) -> Seq<W> {
        self.woken@
    }

    /// The state is well formed, and the producer, which never waits, is not parked.
    pub closed spec fn wf(&self) -> bool {
        &&& self.inner.wf()
        &&& self@.producer is None
    }

    /// What holds of every unbounded channel: a parked receiver has nothing to read, and the
    /// producer is never parked.
    pub proof fn lemma_wf(&self)
        requires
            self.wf(),
        ensures
            self@.valid(),
            self@.producer is None,
    {
        self.inner.lemma_valid();
    }

    /// The number of messages retained because the slowest active receiver has not read them.
    pub fn retained(&self) -> (n: usize)
        requires
            self.wf(),
        ensures
            self@.log.retains(n as nat),
    {
        self.inner.retained()
    }

    /// The number of messages that fit in the buffer without another allocation.
    pub fn buffer_capacity(&self) -> (room: usize)
        requires
            self.wf(),
        ensures
            forall|id: SlotId| #[trigger]
                self@.log.active(id) ==> room >= self@.log.unread(id).len(),
    {
        self.inner.buffer_capacity()
    }

    /// Whether the next publication would take the version counter past its end.
    pub fn version_overflows(&self) -> (yes: bool)
        requires
            self.wf(),
        ensures
            yes == (self@.log.history.len() == u64::MAX),
    {
        self.inner.versions_left() == 0
    }

    /// The publish step: the message reaches every active receiver, and every parked receiver is
    /// unparked. Where no receiver is active the message comes back as the first result. The
    /// second holds the wakers to wake.
    pub fn publish(&mut self, msg: Arc<T>) -> (outcome: (Option<Arc<T>>, Vec<W>))
        requires
            old(self).wf(),
            old(self)@.log.history.len() < u64::MAX,
        ensures
            final(self).wf(),
            final(self).storage() == old(self).storage(),
            final(self).woken() == old(self).woken(),
            final(self)@ == old(self)@.publish(*msg),
            outcome.0 == if old(self)@.log.has_receivers() {
                None
            } else {
                Some(msg)
            },
            outcome.1@ == old(self)@.parked(),
    {
        if self.inner.has_receivers() {
            let woken = self.inner.publish_retained(msg);
            (None, woken)
        } else {
            let woken = self.inner.publish_discarded(Ghost(message(msg)));
            (Some(msg), woken)
        }
    }

    /// Subscribes a receiver at the current publication boundary.
    pub fn subscribe(&mut self) -> (id: SlotId)
        requires
            old(self).wf(),
        ensures
            final(self).wf(),
            final(self).storage() == old(self).storage().with_slot(id),
            old(self).storage().offers(old(self)@.log, id),
            final(self).woken() == old(self).woken(),
            !old(self)@.log.active(id),
            final(self)@ == old(self)@.subscribe(id),
    {
        self.inner.subscribe()
    }

    /// The number of messages that the receiver `id` has not read.
    pub fn unread(&self, id: SlotId) -> (n: usize)
        requires
            self.wf(),
            self@.log.active(id),
        ensures
            n == self@.log.unread(id).len(),
    {
        self.inner.unread(id)
    }

    /// The receive step: reads the next message of the receiver `id`.
    pub fn try_receive(&mut self, id: SlotId) -> (outcome: Result<Arc<T>, TryRecvError>)
        requires
            old(self).wf(),
            old(self)@.log.active(id),
        ensures
            final(self).wf(),
            final(self).storage() == old(self).storage(),
            final(self).woken() == old(self).woken(),
            match outcome {
                Ok(msg) => {
                    &&& old(self)@.log.unread(id).len() > 0
                    &&& *msg == old(self)@.log.unread(id)[0]
                    &&& final(self)@ == old(self)@.receive(id)
                },
                Err(error) => {
                    &&& old(self)@.log.unread(id).len() == 0
                    &&& error == if old(self)@.connected {
                        TryRecvError::Empty
                    } else {
                        TryRecvError::Disconnected
                    }
                    &&& final(self)@ == old(self)@
                },
            },
    {
        match self.inner.try_receive(id) {
            Ok((msg, _)) => Ok(msg),
            Err(error) => Err(error),
        }
    }

    /// The step of a waiting receive: reads the next message of the receiver `id`, or reports
    /// disconnection, or parks `waker`. A waker of this receiver that is already parked in the
    /// slot `token` is replaced.
    ///
    /// The second result is the waker to dispose of: the one given where it was not parked, the
    /// one replaced where there was one.
    pub fn poll_receive(
        &mut self,
        id: SlotId,
        token: &mut Option<WakerToken>,
        waker: W,
    ) -> (outcome: (Poll<Result<Arc<T>, RecvError>>, Option<W>))
        requires
            old(self).wf(),
            old(self)@.log.active(id),
        ensures
            final(self).wf(),
            final(self).storage() == old(self).storage(),
            final(self).woken() == old(self).woken(),
            match outcome.0 {
                Poll::Ready(Ok(msg)) => {
                    &&& old(self)@.log.unread(id).len() > 0
                    &&& *msg == old(self)@.log.unread(id)[0]
                    &&& final(self)@ == old(self)@.receive(id)
                    &&& *final(token) is None
                    &&& outcome.1 == Some(waker)
                },
                Poll::Ready(Err(RecvError::Disconnected)) => {
                    &&& old(self)@.log.unread(id).len() == 0
                    &&& !old(self)@.connected
                    &&& final(self)@ == old(self)@
                    &&& *final(token) is None
                    &&& outcome.1 == Some(waker)
                },
                Poll::Pending => {
                    &&& old(self)@.log.unread(id).len() == 0
                    &&& old(self)@.connected
                    &&& *final(token) is Some
                    &&& final(self)@ == old(self)@.park(id, (*final(token))->0, waker)
                    &&& 0 <= (*final(token))->0.index() <= old(self)@.waiters.len()
                    &&& final(self)@.parked_at(id, *final(token))
                    &&& if old(self)@.parked_at(id, *old(token)) {
                        &&& *final(token) == *old(token)
                        &&& outcome.1 == Some(
                            slot_at(old(self)@.waiters, (*old(token))->0.index())->0.waker,
                        )
                    } else {
                        &&& slot_at(old(self)@.waiters, (*final(token))->0.index()) is None
                        &&& has_vacancy(old(self)@.waiters) ==> (*final(token))->0.index() < old(
                            self,
                        )@.waiters.len()
                        &&& outcome.1 is None
                    }
                },
            },
    {
        let (outcome, retired) = self.inner.poll_receive(id, token, waker);
        match outcome {
            Poll::Ready(Ok((msg, _))) => (Poll::Ready(Ok(msg)), retired),
            Poll::Ready(Err(error)) => (Poll::Ready(Err(error)), retired),
            Poll::Pending => (Poll::Pending, retired),
        }
    }

    /// Gives up a waiting receive: takes the waker of the receiver `id` out of the slot `token`,
    /// if it is still there.
    pub fn unregister(&mut self, id: SlotId, token: Option<WakerToken>) -> (retired: Option<W>)
        requires
            old(self).wf(),
        ensures
            final(self).wf(),
            final(self).storage() == old(self).storage(),
            final(self).woken() == old(self).woken(),
            if old(self)@.parked_at(id, token) {
                &&& final(self)@ == old(self)@.unpark(token->0)
                &&& retired == Some(slot_at(old(self)@.waiters, token->0.index())->0.waker)
            } else {
                &&& final(self)@ == old(self)@
                &&& retired is None
            },
    {
        self.inner.unregister(id, token)
    }

    /// Ends the subscription `id`. The messages that no other receiver still has to read are
    /// returned, oldest first.
    pub fn unsubscribe(&mut self, id: SlotId) -> (reclaimed: Vec<Arc<T>>)
        requires
            old(self).wf(),
            old(self)@.log.active(id),
        ensures
            final(self).wf(),
            final(self).storage() == old(self).storage(),
            final(self).woken() == old(self).woken(),
            final(self)@ == old(self)@.unsubscribe(id),
            reclaimed@.len() <= old(self)@.log.unread(id).len(),
            messages(reclaimed@) == old(self)@.log.unread(id).take(reclaimed@.len() as int),
            forall|version: int|
                old(self)@.log.cursors[id] <= version < old(self)@.log.history.len() ==> (
                #[trigger] old(self)@.log.needed_by_none_but(id, version) <==> version
                    < old(self)@.log.cursors[id] + reclaimed@.len()),
    {
        let (reclaimed, _) = self.inner.remove_receiver(id);
        reclaimed
    }

    /// Records that the sender is gone, and unparks every receiver.
    pub fn disconnect(&mut self) -> (woken: Vec<W>)
        requires
            old(self).wf(),
        ensures
            final(self).wf(),
            final(self).storage() == old(self).storage(),
            final(self).woken() == old(self).woken(),
            final(self)@ == old(self)@.disconnect(),
            woken@ == old(self)@.parked(),
    {
        self.inner.disconnect()
    }

    /// Notes wakers that became due.
    fn note_wakers(&mut self, wakers: Vec<W>)
        requires
            old(self).wf(),
        ensures
            final(self).wf(),
            final(self).storage() == old(self).storage(),
            final(self)@ == old(self)@,
            final(self).woken() == old(self).woken() + wakers@,
    {
        let mut wakers = wakers;
        self.woken.append(&mut wakers);
    }

    /// Takes the wakers that became due since the last call, oldest first. Each of them is to be
    /// woken.
    pub fn take_woken(&mut self) -> (woken: Vec<W>)
        requires
            old(self).wf(),
        ensures
            final(self).wf(),
            final(self).storage() == old(self).storage(),
            final(self)@ == old(self)@,
            final(self).woken() == Seq::<W>::empty(),
            woken@ == old(self).woken(),
    {
        let mut woken: Vec<W> = Vec::new();
        core::mem::swap(&mut self.woken, &mut woken);
        woken
    }
}

/// Creates an unbounded broadcast channel with its sender and its first receiver.
///
/// The returned receiver is subscribed before any value can be published.
pub fn unbounded<T: Clone, W>() -> (channel: (
    UnboundedChannel<T, W>,
    UnboundedSender<T>,
    UnboundedReceiver<T>,
))
    ensures
        channel.0.wf(),
        channel.0.storage() == (Storage { slots: 1, elastic: true }),
        channel.2.id().index() == 0,
        channel.0.woken() == Seq::<W>::empty(),
        channel.0@.connected,
        channel.0@.log.history == Seq::<T>::empty(),
        channel.0@.log.cursors == Map::<SlotId, nat>::empty().insert(channel.2.id(), 0),
        channel.0@.waiters == Seq::<Option<Waiter<W>>>::empty(),
        channel.0@.parked() == Seq::<W>::empty(),
        channel.0@.producer is None,
        channel.0@.log.active(channel.2.id()),
        channel.0@.log.unread(channel.2.id()) == Seq::<T>::empty(),
        channel.0@.log.retains(0),
{
    let (inner, key) = Inner::with_first_subscription(Backlog::elastic());
    let channel = UnboundedChannel { inner, woken: Vec::new() };
    let sender = UnboundedSender { marker: PhantomData };
    let receiver = UnboundedReceiver { key, marker: PhantomData };
    assert(channel@.parked() =~= Seq::<W>::empty());
    (channel, sender, receiver)
}

/// A publishing handle for an unbounded broadcast channel.
///
/// There is one sender, and it cannot be cloned. Once it is disconnected, each receiver can drain
/// the values already published for it and then observes disconnection.
pub struct UnboundedSender<T> {
    marker: PhantomData<T>,
}

/// An independent subscription to an unbounded broadcast channel.
///
/// This receiver observes every value published after its subscription point and retains its own
/// position in the shared backlog.
pub struct UnboundedReceiver<T> {
    key: SlotId,
    marker: PhantomData<T>,
}

/// A receive that is under way. It holds the receiver.
pub struct Recv<'a, T> {
    receiver: PhantomData<&'a mut UnboundedReceiver<T>>,
    key: SlotId,
    token: Option<WakerToken>,
}

impl<T> UnboundedSender<T> {
    /// Publishes `msg` to every receiver currently subscribed.
    ///
    /// Sending has no backpressure. The channel retains the value until every eligible receiver
    /// consumes it or leaves. When no receivers exist, `msg` is discarded without entering the
    /// backlog.
    pub fn send<W>(&mut self, channel: &mut UnboundedChannel<T, W>, msg: T)
        requires
            old(channel).wf(),
            old(channel)@.log.history.len() < u64::MAX,
        ensures
            final(channel).wf(),
            final(channel).storage() == old(channel).storage(),
            final(channel)@ == old(channel)@.publish(msg),
            final(channel).woken() == old(channel).woken() + old(channel)@.parked(),
    {
        let (_, woken) = channel.publish(Arc::new(msg));
        channel.note_wakers(woken);
    }

    /// Returns the number of values in the shared backlog.
    ///
    /// This is not an unread count for any particular receiver. A value remains included until
    /// the last receiver eligible for it advances or leaves.
    pub fn retained_message_count<W>(&self, channel: &UnboundedChannel<T, W>) -> (n: usize)
        requires
            channel.wf(),
        ensures
            channel@.log.retains(n as nat),
    {
        channel.retained()
    }

    /// Subscribes a new receiver for values published from this point forward.
    ///
    /// Values already in the backlog are not visible to the new receiver.
    #[must_use]
    pub fn subscribe<W>(&self, channel: &mut UnboundedChannel<T, W>) -> (receiver:
        UnboundedReceiver<T>)
        requires
            old(channel).wf(),
        ensures
            final(channel).wf(),
            final(channel).storage() == old(channel).storage().with_slot(receiver.id()),
            old(channel).storage().offers(old(channel)@.log, receiver.id()),
            final(channel).woken() == old(channel).woken(),
            !old(channel)@.log.active(receiver.id()),
            final(channel)@ == old(channel)@.subscribe(receiver.id()),
    {
        UnboundedReceiver { key: channel.subscribe(), marker: PhantomData }
    }

    /// Gives the sender up. Every parked receiver becomes due.
    pub fn disconnect<W>(self, channel: &mut UnboundedChannel<T, W>)
        requires
            old(channel).wf(),
        ensures
            final(channel).wf(),
            final(channel).storage() == old(channel).storage(),
            final(channel)@ == old(channel)@.disconnect(),
            final(channel).woken() == old(channel).woken() + old(channel)@.parked(),
    {
        let woken = channel.disconnect();
        channel.note_wakers(woken);
    }
}

impl<T> UnboundedReceiver<T> {
    /// The subscription that this receiver stands for.
    pub closed spec fn id(&self) -> SlotId {
        self.key
    }

    /// The subscription that this receiver stands for, for use with the steps of the channel.
    pub fn subscription(&self) -> (id: SlotId)
        ensures
            id == self.id(),
    {
        self.key
    }

    /// Begins to wait for this receiver's next value. [`Recv::poll`] carries the receive on and
    /// [`Recv::cancel`] gives it up.
    pub fn recv<'a>(&'a mut self) -> (recv: Recv<'a, T>)
        ensures
            *final(self) == *old(self),
            recv.id() == old(self).id(),
            recv.token() is None,
    {
        Recv { receiver: PhantomData, key: self.key, token: None }
    }

    /// Attempts to take this receiver's next value without waiting.
    ///
    /// The value is the one that was sent, or a clone of it where another handle to it is left.
    /// [`TryRecvError::Empty`] means this receiver is currently caught up while the sender
    /// remains. [`TryRecvError::Disconnected`] means the sender is gone and this receiver has
    /// drained its backlog.
    pub fn try_recv<W>(&mut self, channel: &mut UnboundedChannel<T, W>) -> (outcome: Result<
        T,
        TryRecvError,
    >) where T: Clone
        requires
            old(channel).wf(),
            old(channel)@.log.active(old(self).id()),
        ensures
            *final(self) == *old(self),
            final(channel).wf(),
            final(channel).storage() == old(channel).storage(),
            final(channel).woken() == old(channel).woken(),
            match outcome {
                Ok(value) => {
                    &&& old(channel)@.log.unread(old(self).id()).len() > 0
                    &&& cloned::<T>(old(channel)@.log.unread(old(self).id())[0], value)
                    &&& final(channel)@ == old(channel)@.receive(old(self).id())
                },
                Err(error) => {
                    &&& old(channel)@.log.unread(old(self).id()).len() == 0
                    &&& error == if old(channel)@.connected {
                        TryRecvError::Empty
                    } else {
                        TryRecvError::Disconnected
                    }
                    &&& final(channel)@ == old(channel)@
                },
            },
    {
        match channel.try_receive(self.key) {
            Ok(msg) => Ok(take_msg(msg)),
            Err(error) => Err(error),
        }
    }

    /// Re-subscribes to the channel, returning a new receiver that starts receiving messages from
    /// the *current* tail of the channel.
    ///
    /// The new receiver skips this receiver's unread backlog. The original receiver remains at its
    /// current position and continues retaining those values until it consumes them or leaves.
    #[must_use]
    pub fn resubscribe<W>(&self, channel: &mut UnboundedChannel<T, W>) -> (receiver:
        UnboundedReceiver<T>)
        requires
            old(channel).wf(),
        ensures
            final(channel).wf(),
            final(channel).storage() == old(channel).storage().with_slot(receiver.id()),
            old(channel).storage().offers(old(channel)@.log, receiver.id()),
            final(channel).woken() == old(channel).woken(),
            !old(channel)@.log.active(receiver.id()),
            final(channel)@ == old(channel)@.subscribe(receiver.id()),
    {
        UnboundedReceiver { key: channel.subscribe(), marker: PhantomData }
    }

    /// Returns this receiver's unread value count.
    ///
    /// Unlike [`UnboundedSender::retained_message_count`], this excludes values retained only for
    /// other receivers.
    pub fn unread_message_count<W>(&self, channel: &UnboundedChannel<T, W>) -> (n: usize)
        requires
            channel.wf(),
            channel@.log.active(self.id()),
        ensures
            n == channel@.log.unread(self.id()).len(),
    {
        channel.unread(self.key)
    }

    /// Gives the subscription up. The backlog that only this receiver was holding is released.
    pub fn unsubscribe<W>(self, channel: &mut UnboundedChannel<T, W>)
        requires
            old(channel).wf(),
            old(channel)@.log.active(self.id()),
        ensures
            final(channel).wf(),
            final(channel).storage() == old(channel).storage(),
            final(channel).woken() == old(channel).woken(),
            final(channel)@ == old(channel)@.unsubscribe(self.id()),
    {
        let _ = channel.unsubscribe(self.key);
    }
}

impl<'a, T> Recv<'a, T> {
    /// The subscription that this receive is for.
    pub closed spec fn id(&self) -> SlotId {
        self.key
    }

    /// Where the waker of this receive was parked.
    pub closed spec fn token(&self) -> Option<WakerToken> {
        self.token
    }

    /// Carries the receive on: completes with the next message or with disconnection, and
    /// otherwise parks `waker`, in place of the one parked by an earlier call. It becomes due
    /// with the next publication, or when the sender leaves.
    pub fn poll<W>(&mut self, channel: &mut UnboundedChannel<T, W>, waker: W) -> (outcome: Poll<
        Result<T, RecvError>,
    >) where T: Clone
        requires
            old(channel).wf(),
            old(channel)@.log.active(old(self).id()),
        ensures
            final(self).id() == old(self).id(),
            final(channel).wf(),
            final(channel).storage() == old(channel).storage(),
            final(channel).woken() == old(channel).woken(),
            match outcome {
                Poll::Ready(Ok(value)) => {
                    &&& old(channel)@.log.unread(old(self).id()).len() > 0
                    &&& cloned::<T>(old(channel)@.log.unread(old(self).id())[0], value)
                    &&& final(channel)@ == old(channel)@.receive(old(self).id())
                    &&& final(self).token() is None
                },
                Poll::Ready(Err(RecvError::Disconnected)) => {
                    &&& old(channel)@.log.unread(old(self).id()).len() == 0
                    &&& !old(channel)@.connected
                    &&& final(channel)@ == old(channel)@
                    &&& final(self).token() is None
                },
                Poll::Pending => {
                    &&& old(channel)@.log.unread(old(self).id()).len() == 0
                    &&& old(channel)@.connected
                    &&& final(self).token() is Some
                    &&& final(channel)@ == old(channel)@.park(
                        old(self).id(),
                        final(self).token()->0,
                        waker,
                    )
                    &&& final(channel)@.parked_at(old(self).id(), final(self).token())
                    &&& 0 <= final(self).token()->0.index() <= old(channel)@.waiters.len()
                    &&& if old(channel)@.parked_at(old(self).id(), old(self).token()) {
                        final(self).token() == old(self).token()
                    } else {
                        &&& slot_at(old(channel)@.waiters, final(self).token()->0.index()) is None
                        &&& has_vacancy(old(channel)@.waiters) ==> final(self).token()->0.index()
                            < old(channel)@.waiters.len()
                    }
                },
            },
    {
        let (outcome, _) = channel.poll_receive(self.key, &mut self.token, waker);
        match outcome {
            Poll::Ready(Ok(msg)) => Poll::Ready(Ok(take_msg(msg))),
            Poll::Ready(Err(error)) => Poll::Ready(Err(error)),
            Poll::Pending => Poll::Pending,
        }
    }

    /// Gives the receive up. The receiver's cursor does not move, and a waker that is still
    /// parked for this receive is taken out.
    pub fn cancel<W>(self, channel: &mut UnboundedChannel<T, W>)
        requires
            old(channel).wf(),
        ensures
            final(channel).wf(),
            final(channel).storage() == old(channel).storage(),
            final(channel).woken() == old(channel).woken(),
            final(channel)@ == if old(channel)@.parked_at(self.id(), self.token()) {
                old(channel)@.unpark(self.token()->0)
            } else {
                old(channel)@
            },
    {
        let _ = channel.unregister(self.key, self.token);
    }
}

} // verus!
