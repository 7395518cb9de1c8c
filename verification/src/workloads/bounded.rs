//! The steps of the benchmarks of the bounded channel.

use crate::broadcast::spmc::bounded::bounded;
use crate::broadcast::spmc::bounded::BoundedChannel;
use crate::broadcast::spmc::bounded::BoundedReceiver;
use crate::broadcast::spmc::bounded::BoundedSender;
use crate::broadcast::spmc::bounded::SendState;
use crate::broadcast::spmc::common::Waiter;
use crate::broadcast::spmc::error::TrySendError;
use crate::internal::arena::SlotId;
use crate::workloads::steady::at_rest;
use crate::workloads::steady::drained;
use crate::workloads::steady::lemma_all_drained;
use crate::workloads::steady::lemma_listed;
use crate::workloads::steady::lemma_none_parked;
use crate::workloads::steady::lemma_parked_alone;
use crate::workloads::steady::lemma_published_to_drained;
use crate::workloads::steady::lemma_read;
use crate::workloads::steady::lemma_same_receivers;
use crate::workloads::steady::lemma_sole;
use crate::workloads::steady::lemma_subscribed;
use crate::workloads::steady::subscribed;
use vstd::prelude::*;

verus! {

/// The subscriptions that `receivers` stand for.
pub open spec fn ids<T>(receivers: Seq<BoundedReceiver<T>>) -> Seq<SlotId> {
    receivers.map_values(|receiver: BoundedReceiver<T>| receiver.id())
}

/// The first `n` numbers, as messages.
pub open spec fn counting(n: nat) -> Seq<usize> {
    Seq::new(n, |i: int| i as usize)
}

/// Counting starts at zero and goes up by one.
pub proof fn counting_goes_up_from_zero(n: nat)
    requires
        n <= usize::MAX,
    ensures
        counting(n).len() == n,
        forall|i: int| 0 <= i < n ==> #[trigger] counting(n)[i] == i,
{
}

/// Receivers stand for one subscription each, in their order.
pub proof fn receivers_stand_for_their_subscriptions<T>(receivers: Seq<BoundedReceiver<T>>)
    ensures
        ids(receivers).len() == receivers.len(),
        forall|i: int|
            0 <= i < receivers.len() ==> #[trigger] ids(receivers)[i] == receivers[i].id(),
{
}

/// Creates a channel with `receiver_count` receivers, and with one where that is zero.
pub fn channel_with_receivers<W>(capacity: usize, receiver_count: usize) -> (channel: (
    BoundedChannel<usize, W>,
    BoundedSender<usize>,
    Vec<BoundedReceiver<usize>>,
))
    requires
        capacity > 0,
    ensures
        channel.0.wf(),
        channel.0.limit() == capacity,
        channel.0.woken() == Seq::<W>::empty(),
        channel.0@.connected,
        channel.0@.log.history == Seq::<usize>::empty(),
        channel.2@.len() == if receiver_count == 0 {
            1
        } else {
            receiver_count as nat
        },
        subscribed(channel.0@.log, ids(channel.2@)),
        drained(channel.0@.log),
        at_rest(channel.0@),
{
    let (mut channel, sender, receiver) = bounded::<usize, W>(capacity);
    let mut receivers: Vec<BoundedReceiver<usize>> = Vec::new();
    receivers.push(receiver);
    proof {
        assert(ids(receivers@) =~= seq![receiver.id()]);
        assert forall|id: SlotId| #[trigger] channel@.log.active(id) implies ids(
            receivers@,
        ).contains(id) by {
            assert(ids(receivers@)[0] == id);
        }
    }
    let mut i: usize = 1;
    while i < receiver_count
        invariant
            receivers@.len() == i,
            1 <= i,
            receiver_count > 0 ==> i <= receiver_count,
            receiver_count == 0 ==> i == 1,
            channel.wf(),
            channel.limit() == capacity,
            channel.woken() == Seq::<W>::empty(),
            channel@.connected,
            channel@.log.history == Seq::<usize>::empty(),
            subscribed(channel@.log, ids(receivers@)),
            drained(channel@.log),
            at_rest(channel@),
        decreases receiver_count - i,
    {
        let ghost before = channel@.log;
        let ghost known = ids(receivers@);
        let receiver = sender.subscribe(&mut channel);
        receivers.push(receiver);
        proof {
            lemma_subscribed(before, known, receiver.id());
            assert(ids(receivers@) =~= known.push(receiver.id()));
        }
        i += 1;
    }
    (channel, sender, receivers)
}

/// Sends where no receiver is there: the discard path, which never waits and retains nothing.
pub fn send_without_receivers<W>(
    channel: &mut BoundedChannel<usize, W>,
    sender: &mut BoundedSender<usize>,
    value: usize,
) -> (outcome: Result<(), TrySendError<usize>>)
    requires
        old(channel).wf(),
        !old(channel)@.log.has_receivers(),
        old(channel)@.log.history.len() < u64::MAX,
    ensures
        final(channel).wf(),
        final(channel).storage() == old(channel).storage(),
        final(channel).limit() == old(channel).limit(),
        outcome == Ok::<(), TrySendError<usize>>(()),
        final(channel)@ == old(channel)@.publish(value),
        !final(channel)@.log.has_receivers(),
        final(channel)@.log.retains(0),
        final(channel).woken() == old(channel).woken() + old(channel)@.parked(),
{
    let outcome = sender.try_send(channel, value);
    proof {
        assert forall|id: SlotId| !channel@.log.active(id) by {
            assert(!old(channel)@.log.active(id));
        }
    }
    outcome
}

/// Sends one message and reads it back.
pub fn try_send_and_try_recv<W>(
    channel: &mut BoundedChannel<usize, W>,
    sender: &mut BoundedSender<usize>,
    receiver: &mut BoundedReceiver<usize>,
    value: usize,
) -> (received: usize)
    requires
        old(channel).wf(),
        at_rest(old(channel)@),
        subscribed(old(channel)@.log, seq![old(receiver).id()]),
        drained(old(channel)@.log),
        old(channel)@.log.history.len() < u64::MAX,
    ensures
        *final(receiver) == *old(receiver),
        final(channel).wf(),
        final(channel).storage() == old(channel).storage(),
        final(channel).limit() == old(channel).limit(),
        at_rest(final(channel)@),
        subscribed(final(channel)@.log, seq![old(receiver).id()]),
        drained(final(channel)@.log),
        final(channel)@.log.history == old(channel)@.log.history.push(value),
        final(channel)@.connected == old(channel)@.connected,
        final(channel).woken() == old(channel).woken(),
        received == value,
{
    let ghost before = channel@.log;
    let ghost id = receiver.id();
    proof {
        channel.lemma_wf();
        lemma_none_parked(channel@);
        lemma_published_to_drained(before, seq![id], value);
        lemma_listed(before.publish(value), seq![id], 0);
        assert(before.publish(value).unread(seq![id][0]) == seq![value]);
        lemma_read(before.publish(value), seq![id], id);
        lemma_sole(before.publish(value), id);
    }
    sender.try_send(channel, value).ok().unwrap();
    let received = receiver.try_recv(channel).unwrap();
    proof {
        assert(channel.woken() =~= old(channel).woken());
        lemma_all_drained(channel@.log, seq![id]);
    }
    received
}

/// Tries to send, and tells whether the message was turned away. A channel that is full turns it
/// away and stays as it is; one that is not takes the message.
pub fn try_send_when_full<W>(
    channel: &mut BoundedChannel<usize, W>,
    sender: &mut BoundedSender<usize>,
    value: usize,
) -> (rejected: bool)
    requires
        old(channel).wf(),
        !old(channel).is_full() ==> old(channel)@.log.history.len() < u64::MAX,
    ensures
        final(channel).wf(),
        final(channel).storage() == old(channel).storage(),
        final(channel).limit() == old(channel).limit(),
        rejected == old(channel).is_full(),
        if old(channel).is_full() {
            &&& final(channel)@ == old(channel)@
            &&& final(channel).woken() == old(channel).woken()
        } else {
            &&& final(channel)@ == old(channel)@.publish(value)
            &&& final(channel).woken() == old(channel).woken() + old(channel)@.parked()
        },
{
    sender.try_send(channel, value).is_err()
}

/// Sends one message, and has every receiver read it.
pub fn try_send_and_drain_fanout<W>(
    channel: &mut BoundedChannel<usize, W>,
    sender: &mut BoundedSender<usize>,
    receivers: &mut Vec<BoundedReceiver<usize>>,
    value: usize,
) -> (received: Vec<usize>)
    requires
        old(channel).wf(),
        at_rest(old(channel)@),
        subscribed(old(channel)@.log, ids(old(receivers)@)),
        drained(old(channel)@.log),
        old(channel)@.log.history.len() < u64::MAX,
    ensures
        final(receivers)@ == old(receivers)@,
        final(channel).wf(),
        final(channel).storage() == old(channel).storage(),
        final(channel).limit() == old(channel).limit(),
        at_rest(final(channel)@),
        subscribed(final(channel)@.log, ids(final(receivers)@)),
        drained(final(channel)@.log),
        final(channel)@.log.history == old(channel)@.log.history.push(value),
        final(channel)@.connected == old(channel)@.connected,
        final(channel).woken() == old(channel).woken(),
        received@ == Seq::new(old(receivers)@.len(), |i: int| value),
{
    let ghost listed = ids(receivers@);
    let ghost before = channel@.log;
    proof {
        channel.lemma_wf();
        lemma_none_parked(channel@);
        lemma_published_to_drained(before, listed, value);
    }
    sender.try_send(channel, value).ok().unwrap();
    assert(channel.woken() =~= old(channel).woken());
    let mut received: Vec<usize> = Vec::new();
    let mut i: usize = 0;
    while i < receivers.len()
        invariant
            i <= receivers@.len(),
            receivers@ == old(receivers)@,
            listed == ids(receivers@),
            channel.wf(),
            channel.limit() == old(channel).limit(),
            at_rest(channel@),
            channel.storage() == old(channel).storage(),
            channel@.connected == old(channel)@.connected,
            channel.woken() == old(channel).woken(),
            channel@.log.valid(),
            subscribed(channel@.log, listed),
            channel@.log.history == before.history.push(value),
            forall|j: int| 0 <= j < i ==> channel@.log.unread(#[trigger] listed[j]).len() == 0,
            forall|j: int|
                i <= j < listed.len() ==> channel@.log.unread(#[trigger] listed[j]) == seq![value],
            received@ == Seq::new(i as nat, |j: int| value),
        decreases receivers@.len() - i,
    {
        let ghost log = channel@.log;
        proof {
            lemma_listed(log, listed, i as int);
            assert(log.unread(listed[i as int]) == seq![value]);
            lemma_read(log, listed, listed[i as int]);
        }
        let next = receivers[i].try_recv(channel).unwrap();
        assert(receivers@ =~= old(receivers)@);
        assert(channel.woken() =~= old(channel).woken());
        received.push(next);
        proof {
            assert forall|j: int| 0 <= j < listed.len() && j != i implies channel@.log.unread(
                #[trigger] listed[j],
            ) == log.unread(listed[j]) by {
                assert(listed[j] != listed[i as int]);
            }
        }
        i += 1;
        assert(received@ =~= Seq::new(i as nat, |j: int| value));
    }
    proof {
        lemma_all_drained(channel@.log, listed);
    }
    received
}

/// Takes the one producer through a whole wait: parks it on a full channel, frees a slot, lets it
/// through, and fills the channel again. Returns the two messages that were read.
pub fn reclaim_wakes_the_blocked_producer<W>(
    channel: &mut BoundedChannel<usize, W>,
    sender: &mut BoundedSender<usize>,
    receiver: &mut BoundedReceiver<usize>,
    value: usize,
    refill: usize,
    waker: W,
    again: W,
) -> (received: (usize, usize))
    requires
        old(channel).wf(),
        old(channel).limit() == 1,
        at_rest(old(channel)@),
        subscribed(old(channel)@.log, seq![old(receiver).id()]),
        old(channel)@.log.unread(old(receiver).id()).len() == 1,
        old(channel)@.log.history.len() < u64::MAX - 1,
    ensures
        *final(receiver) == *old(receiver),
        final(channel).wf(),
        final(channel).storage() == old(channel).storage(),
        final(channel).limit() == 1,
        at_rest(final(channel)@),
        subscribed(final(channel)@.log, seq![old(receiver).id()]),
        final(channel)@.log.unread(old(receiver).id()) == seq![refill],
        final(channel)@.log.history == old(channel)@.log.history.push(value).push(refill),
        final(channel)@.connected == old(channel)@.connected,
        final(channel).woken() == old(channel).woken().push(waker),
        received == (old(channel)@.log.unread(old(receiver).id())[0], value),
{
    let ghost id = receiver.id();
    let ghost full_log = channel@.log;
    proof {
        channel.lemma_wf();
        lemma_sole(full_log, id);
        assert(full_log.active(id) && full_log.unread(id).len() >= 1);
        assert(channel.is_full());
        lemma_read(full_log, seq![id], id);
        lemma_all_drained(full_log.receive(id), seq![id]);
    }
    let ghost freed = full_log.receive(id);
    proof {
        lemma_published_to_drained(freed, seq![id], value);
        lemma_sole(freed.publish(value), id);
        assert(freed.publish(value).unread(seq![id][0]) == seq![value]);
        lemma_read(freed.publish(value), seq![id], id);
        lemma_all_drained(freed.publish(value).receive(id), seq![id]);
        lemma_published_to_drained(freed.publish(value).receive(id), seq![id], refill);
        assert(freed.publish(value).receive(id).publish(refill).unread(seq![id][0])
            == seq![refill]);
    }
    let mut send = sender.send(value);
    let _ = send.poll_send(channel, waker);
    let first = receiver.try_recv(channel).unwrap();
    let _ = send.poll_send(channel, again);
    let second = receiver.try_recv(channel).unwrap();
    send.cancel(channel);
    sender.try_send(channel, refill).ok().unwrap();
    proof {
        assert(channel@.log == freed.publish(value).receive(id).publish(refill));
        assert(channel.woken() =~= old(channel).woken().push(waker));
    }
    (first, second)
}

/// Parks the producer on a full channel and gives the send up at once: nothing is published or
/// becomes due, and no producer is parked any more, not even one that a send left behind before.
pub fn cancel_blocked_send<W>(
    channel: &mut BoundedChannel<usize, W>,
    sender: &mut BoundedSender<usize>,
    value: usize,
    waker: W,
)
    requires
        old(channel).wf(),
        old(channel).is_full(),
    ensures
        final(channel).wf(),
        final(channel).storage() == old(channel).storage(),
        final(channel).limit() == old(channel).limit(),
        final(channel)@ == old(channel)@.park_producer(None),
        final(channel).woken() == old(channel).woken(),
{
    let mut send = sender.send(value);
    let _ = send.poll_send(channel, waker);
    send.cancel(channel);
}

/// Delivers a message to a receiver that waits for it.
pub fn deliver_to_waiting_receiver<W>(
    channel: &mut BoundedChannel<usize, W>,
    sender: &mut BoundedSender<usize>,
    receiver: &mut BoundedReceiver<usize>,
    value: usize,
    waker: W,
    again: W,
) -> (received: usize)
    requires
        old(channel).wf(),
        old(channel)@.connected,
        at_rest(old(channel)@),
        subscribed(old(channel)@.log, seq![old(receiver).id()]),
        drained(old(channel)@.log),
        old(channel)@.log.history.len() < u64::MAX,
    ensures
        *final(receiver) == *old(receiver),
        final(channel).wf(),
        final(channel).storage() == old(channel).storage(),
        final(channel).limit() == old(channel).limit(),
        final(channel)@.connected,
        at_rest(final(channel)@),
        subscribed(final(channel)@.log, seq![old(receiver).id()]),
        drained(final(channel)@.log),
        final(channel)@.log.history == old(channel)@.log.history.push(value),
        final(channel).woken() == old(channel).woken().push(waker),
        received == value,
{
    let ghost before = channel@.log;
    let ghost id = receiver.id();
    proof {
        channel.lemma_wf();
        lemma_listed(before, seq![id], 0);
        lemma_published_to_drained(before, seq![id], value);
        lemma_listed(before.publish(value), seq![id], 0);
        assert(before.publish(value).unread(seq![id][0]) == seq![value]);
        lemma_read(before.publish(value), seq![id], id);
        lemma_sole(before.publish(value), id);
    }
    let mut recv = receiver.recv();
    let _ = recv.poll(channel, waker);
    proof {
        let waiter = Waiter { owner: id, waker };
        lemma_parked_alone(waiter);
        assert(channel@.waiters =~= seq![Some(waiter)]);
        assert(channel@.parked() =~= seq![waker]);
    }
    sender.try_send(channel, value).ok().unwrap();
    let received = recv.poll(channel, again).into_ready().unwrap();
    proof {
        lemma_all_drained(channel@.log, seq![id]);
        assert(channel.woken() =~= old(channel).woken().push(waker));
    }
    received
}

/// Fills a channel for one lagging receiver: subscribes it beside `fast`, publishes as many messages
/// as the channel retains, each of which `fast` reads at once, and parks the producer with one more.
/// Returns the receiver that lags and the send that waits.
pub fn lagging_receiver<'a, W>(
    channel: &mut BoundedChannel<usize, W>,
    sender: &'a mut BoundedSender<usize>,
    fast: &mut BoundedReceiver<usize>,
    waker: W,
) -> (prepared: (BoundedReceiver<usize>, SendState<'a, usize>))
    requires
        old(channel).wf(),
        at_rest(old(channel)@),
        subscribed(old(channel)@.log, seq![old(fast).id()]),
        drained(old(channel)@.log),
        old(channel)@.log.history.len() + old(channel).limit() <= u64::MAX,
    ensures
        *final(fast) == *old(fast),
        final(channel).wf(),
        final(channel).storage() == old(channel).storage().with_slot(prepared.0.id()),
        final(channel).limit() == old(channel).limit(),
        final(channel).woken() == old(channel).woken(),
        subscribed(final(channel)@.log, seq![old(fast).id(), prepared.0.id()]),
        final(channel)@.log.unread(prepared.0.id()) == counting(old(channel).limit()),
        final(channel)@.log.unread(old(fast).id()).len() == 0,
        final(channel)@.log.history == old(channel)@.log.history + counting(
            old(channel).limit(),
        ),
        final(channel)@.connected == old(channel)@.connected,
        final(channel)@.waiters.len() == 0,
        final(channel)@.producer == Some(waker),
        prepared.1.pending() == Some(old(channel).limit() as usize),
        prepared.1.waits(),
{
    let ghost fast_id = fast.id();
    let ghost before = channel@.log;
    let backlog: usize = sender.capacity(channel);
    proof {
        channel.lemma_wf();
    }
    let slow = sender.subscribe(channel);
    let ghost slow_id = slow.id();
    let ghost both = seq![fast_id, slow_id];
    proof {
        lemma_listed(before, seq![fast_id], 0);
        lemma_subscribed(before, seq![fast_id], slow_id);
        assert(seq![fast_id].push(slow_id) =~= both);
        assert(both[0] != both[1]);
        assert(channel@.log.unread(slow_id) =~= counting(0));
        assert(channel@.log.history =~= before.history + counting(0));
    }
    let mut value: usize = 0;
    while value < backlog
        invariant
            value <= backlog,
            *fast == *old(fast),
            fast.id() == fast_id,
            slow.id() == slow_id,
            both == seq![fast_id, slow_id],
            fast_id != slow_id,
            before.history.len() + backlog <= u64::MAX,
            channel.wf(),
            channel.storage() == old(channel).storage().with_slot(slow_id),
            channel.limit() == backlog,
            channel.woken() == old(channel).woken(),
            channel@.connected == old(channel)@.connected,
            at_rest(channel@),
            channel@.log.history == before.history + counting(value as nat),
            subscribed(channel@.log, both),
            channel@.log.unread(fast_id).len() == 0,
            channel@.log.unread(slow_id) == counting(value as nat),
        decreases backlog - value,
    {
        let ghost log = channel@.log;
        let ghost published = log.publish(value);
        proof {
            channel.lemma_wf();
            lemma_none_parked(channel@);
            lemma_listed(log, both, 0);
            lemma_listed(log, both, 1);
            assert forall|id: SlotId| #[trigger] log.active(id) implies log.unread(id).len()
                < backlog by {
                assert(both.contains(id));
            }
            lemma_same_receivers(log, published, both);
            assert forall|id: SlotId| #[trigger] published.active(id) implies published.cursors[id]
                <= published.history.len() by {
                assert(log.active(id));
            }
            assert(published.unread(fast_id) =~= seq![value]);
            assert(published.unread(slow_id) =~= log.unread(slow_id).push(value));
            assert(published.unread(slow_id) =~= counting(value as nat + 1));
            assert(published.active(fast_id));
            lemma_read(published, both, fast_id);
        }
        sender.try_send(channel, value).ok().unwrap();
        let read = fast.try_recv(channel).unwrap();
        assert(read == value);
        value += 1;
        assert(channel@.log.history =~= before.history + counting(value as nat));
        assert(channel.woken() =~= old(channel).woken());
    }
    proof {
        lemma_listed(channel@.log, both, 1);
        assert(channel@.log.active(slow_id) && channel@.log.unread(slow_id).len() >= backlog);
    }
    let mut send = sender.send(backlog);
    let _ = send.poll_send(channel, waker);
    (slow, send)
}

/// Lets a lagging receiver go: the backlog that it alone was holding is released, and the producer
/// that was waiting for it becomes due.
pub fn drop_lagging_receiver_wakes_producer<W>(
    channel: &mut BoundedChannel<usize, W>,
    slow: BoundedReceiver<usize>,
    fast: &BoundedReceiver<usize>,
)
    requires
        old(channel).wf(),
        subscribed(old(channel)@.log, seq![fast.id(), slow.id()]),
        old(channel)@.log.unread(slow.id()).len() == old(channel).limit(),
        old(channel)@.log.unread(fast.id()).len() == 0,
        old(channel)@.producer is Some,
    ensures
        final(channel).wf(),
        final(channel).storage() == old(channel).storage(),
        final(channel).limit() == old(channel).limit(),
        subscribed(final(channel)@.log, seq![fast.id()]),
        drained(final(channel)@.log),
        final(channel)@.log.history == old(channel)@.log.history,
        final(channel)@.connected == old(channel)@.connected,
        final(channel)@.waiters == old(channel)@.waiters,
        final(channel)@.producer is None,
        final(channel).woken() == old(channel).woken().push(old(channel)@.producer->0),
{
    let ghost both = seq![fast.id(), slow.id()];
    let ghost before = channel@.log;
    proof {
        channel.lemma_wf();
        lemma_listed(before, both, 0);
        lemma_listed(before, both, 1);
        assert(both[0] != both[1]);
        assert forall|other: SlotId| #[trigger]
            before.active(other) && other != slow.id() implies before.cursors[slow.id()]
            < before.cursors[other] by {
            assert(both.contains(other));
        }
    }
    slow.unsubscribe(channel);
    proof {
        assert forall|id: SlotId| #[trigger] channel@.log.active(id) <==> seq![
            fast.id(),
        ].contains(id) by {
            assert(before.active(id) <==> both.contains(id));
            assert(seq![fast.id()][0] == fast.id());
        }
        lemma_all_drained(channel@.log, seq![fast.id()]);
        assert(channel.woken() =~= old(channel).woken().push(old(channel)@.producer->0));
    }
}

} // verus!
