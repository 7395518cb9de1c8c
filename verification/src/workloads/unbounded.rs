//! The steps of the benchmarks of the unbounded channel.

use crate::broadcast::spmc::common::Waiter;
use crate::broadcast::spmc::error::TryRecvError;
use crate::broadcast::spmc::unbounded::unbounded;
use crate::broadcast::spmc::unbounded::Recv;
use crate::broadcast::spmc::unbounded::UnboundedChannel;
use crate::broadcast::spmc::unbounded::UnboundedReceiver;
use crate::broadcast::spmc::unbounded::UnboundedSender;
use crate::internal::arena::slot_is_its_position;
use crate::internal::arena::slot_named;
use crate::internal::arena::SlotId;
use crate::workloads::shapes::Fanout;
use crate::workloads::steady::at_rest;
use crate::workloads::steady::drained;
use crate::workloads::steady::lemma_all_drained;
use crate::workloads::steady::lemma_all_parked;
use crate::workloads::steady::lemma_listed;
use crate::workloads::steady::lemma_none_parked;
use crate::workloads::steady::lemma_parked_alone;
use crate::workloads::steady::lemma_published_to_drained;
use crate::workloads::steady::lemma_read;
use crate::workloads::steady::lemma_slots_suffice;
use crate::workloads::steady::lemma_subscribed;
use crate::workloads::steady::lemma_unsubscribed;
use crate::workloads::steady::subscribed;
use vstd::prelude::*;
use vstd::string::*;

verus! {

/// The length of the payload that owns memory.
pub const PAYLOAD_LEN: usize = 64;

/// The subscriptions that `receivers` stand for.
pub open spec fn ids<T>(receivers: Seq<UnboundedReceiver<T>>) -> Seq<SlotId> {
    receivers.map_values(|receiver: UnboundedReceiver<T>| receiver.id())
}

/// Receivers stand for one subscription each, in their order.
pub proof fn receivers_stand_for_their_subscriptions<T>(receivers: Seq<UnboundedReceiver<T>>)
    ensures
        ids(receivers).len() == receivers.len(),
        forall|i: int|
            0 <= i < receivers.len() ==> #[trigger] ids(receivers)[i] == receivers[i].id(),
{
}

/// Creates a channel with `receiver_count` receivers, and with one where that is zero.
pub fn channel_with_receivers<W>(receiver_count: usize) -> (channel: (
    UnboundedChannel<usize, W>,
    UnboundedSender<usize>,
    Vec<UnboundedReceiver<usize>>,
))
    ensures
        channel.0.wf(),
        channel.0.woken() == Seq::<W>::empty(),
        channel.0@.connected,
        channel.0@.log.history == Seq::<usize>::empty(),
        channel.2@.len() == if receiver_count == 0 {
            1
        } else {
            receiver_count as nat
        },
        subscribed(channel.0@.log, ids(channel.2@)),
        drained(channel.0@.log),
        at_rest(channel.0@),
{
    let (mut channel, sender, receiver) = unbounded::<usize, W>();
    let mut receivers: Vec<UnboundedReceiver<usize>> = Vec::new();
    receivers.push(receiver);
    proof {
        assert(ids(receivers@) =~= seq![receiver.id()]);
        assert forall|id: SlotId| #[trigger] channel@.log.active(id) implies ids(
            receivers@,
        ).contains(id) by {
            assert(ids(receivers@)[0] == id);
        }
    }
    let mut i: usize = 1;
    while i < receiver_count
        invariant
            receivers@.len() == i,
            1 <= i,
            receiver_count > 0 ==> i <= receiver_count,
            receiver_count == 0 ==> i == 1,
            channel.wf(),
            channel.woken() == Seq::<W>::empty(),
            channel@.connected,
            channel@.log.history == Seq::<usize>::empty(),
            subscribed(channel@.log, ids(receivers@)),
            drained(channel@.log),
            at_rest(channel@),
        decreases receiver_count - i,
    {
        let ghost before = channel@.log;
        let ghost known = ids(receivers@);
        let receiver = sender.subscribe(&mut channel);
        receivers.push(receiver);
        proof {
            lemma_subscribed(before, known, receiver.id());
            assert(ids(receivers@) =~= known.push(receiver.id()));
        }
        i += 1;
    }
    (channel, sender, receivers)
}

/// Creates a channel whose first receiver left and that has `count` others.
fn resubscribed_channel<W>(count: usize) -> (channel: (
    UnboundedChannel<usize, W>,
    UnboundedSender<usize>,
    Vec<UnboundedReceiver<usize>>,
))
    ensures
        channel.0.wf(),
        channel.0.woken() == Seq::<W>::empty(),
        channel.0@.connected,
        channel.0@.log.history == Seq::<usize>::empty(),
        channel.2@.len() == count,
        channel.0.storage().slots == if count == 0 {
            1
        } else {
            count as nat
        },
        subscribed(channel.0@.log, ids(channel.2@)),
        drained(channel.0@.log),
        at_rest(channel.0@),
{
    let (mut channel, sender, receiver) = unbounded::<usize, W>();
    receiver.unsubscribe(&mut channel);
    let mut receivers: Vec<UnboundedReceiver<usize>> = Vec::new();
    assert(ids(receivers@) =~= Seq::<SlotId>::empty());
    while receivers.len() < count
        invariant
            receivers@.len() <= count,
            channel.wf(),
            channel.woken() == Seq::<W>::empty(),
            channel@.connected,
            channel@.log.history == Seq::<usize>::empty(),
            subscribed(channel@.log, ids(receivers@)),
            drained(channel@.log),
            at_rest(channel@),
            channel.storage().slots == if receivers@.len() == 0 {
                1
            } else {
                receivers@.len()
            },
            forall|i: int|
                0 <= i < receivers@.len() ==> (#[trigger] ids(receivers@)[i]).index()
                    < channel.storage().slots,
        decreases count - receivers@.len(),
    {
        let ghost before = channel@.log;
        let ghost known = ids(receivers@);
        let ghost layout = channel.storage();
        proof {
            if known.len() == 0 {
                slot_is_its_position(0);
                assert(!before.active(slot_named(0)));
                assert(layout.has_free_slot(before));
            }
        }
        let receiver = sender.subscribe(&mut channel);
        receivers.push(receiver);
        proof {
            lemma_subscribed(before, known, receiver.id());
            assert(ids(receivers@) =~= known.push(receiver.id()));
            lemma_slots_suffice(ids(receivers@), channel.storage().slots);
        }
    }
    (channel, sender, receivers)
}

/// Creates a channel that peaked at `fanout.peak` receivers and is down to `fanout.live`. The slots
/// of those that left are still there, and so is the one slot of a channel that never had more.
pub fn shed_receivers<W>(fanout: Fanout) -> (channel: (
    UnboundedChannel<usize, W>,
    UnboundedSender<usize>,
    Vec<UnboundedReceiver<usize>>,
))
    ensures
        channel.0.wf(),
        channel.0.woken() == Seq::<W>::empty(),
        channel.0@.connected,
        channel.0@.log.history == Seq::<usize>::empty(),
        channel.2@.len() == if fanout.live < fanout.peak {
            fanout.live
        } else {
            fanout.peak
        },
        channel.0.storage().slots == if fanout.peak == 0 {
            1
        } else {
            fanout.peak as nat
        },
        subscribed(channel.0@.log, ids(channel.2@)),
        drained(channel.0@.log),
        at_rest(channel.0@),
{
    let (mut channel, sender, mut receivers) = resubscribed_channel::<W>(fanout.peak);
    while receivers.len() > fanout.live
        invariant
            receivers@.len() <= fanout.peak,
            fanout.live < fanout.peak ==> receivers@.len() >= fanout.live,
            fanout.live >= fanout.peak ==> receivers@.len() == fanout.peak,
            channel.wf(),
            channel.storage().slots == if fanout.peak == 0 {
                1
            } else {
                fanout.peak as nat
            },
            channel.woken() == Seq::<W>::empty(),
            channel@.connected,
            channel@.log.history == Seq::<usize>::empty(),
            subscribed(channel@.log, ids(receivers@)),
            drained(channel@.log),
            at_rest(channel@),
        decreases receivers@.len(),
    {
        let ghost before = channel@.log;
        let ghost known = ids(receivers@);
        proof {
            lemma_listed(before, known, known.len() - 1);
            lemma_unsubscribed(before, known);
        }
        let receiver = receivers.pop().unwrap();
        assert(receiver.id() == known.last());
        receiver.unsubscribe(&mut channel);
        assert(ids(receivers@) =~= known.drop_last());
    }
    (channel, sender, receivers)
}

/// Sends where no receiver is there: nothing is retained.
pub fn send_without_receivers<W>(
    channel: &mut UnboundedChannel<usize, W>,
    sender: &mut UnboundedSender<usize>,
    value: usize,
)
    requires
        old(channel).wf(),
        !old(channel)@.log.has_receivers(),
        old(channel)@.log.history.len() < u64::MAX,
    ensures
        final(channel).wf(),
        final(channel).storage() == old(channel).storage(),
        final(channel)@ == old(channel)@.publish(value),
        !final(channel)@.log.has_receivers(),
        final(channel)@.log.retains(0),
        final(channel).woken() == old(channel).woken() + old(channel)@.parked(),
{
    sender.send(channel, value);
    proof {
        assert forall|id: SlotId| !channel@.log.active(id) by {
            assert(!old(channel)@.log.active(id));
        }
    }
}

/// Finds nothing to read.
pub fn try_recv_empty<W>(
    channel: &mut UnboundedChannel<usize, W>,
    receiver: &mut UnboundedReceiver<usize>,
) -> (outcome: Result<usize, TryRecvError>)
    requires
        old(channel).wf(),
        old(channel)@.connected,
        old(channel)@.log.active(old(receiver).id()),
        drained(old(channel)@.log),
    ensures
        *final(receiver) == *old(receiver),
        final(channel).wf(),
        final(channel).storage() == old(channel).storage(),
        final(channel)@ == old(channel)@,
        final(channel).woken() == old(channel).woken(),
        outcome == Err::<usize, TryRecvError>(TryRecvError::Empty),
{
    receiver.try_recv(channel)
}

/// Sends one message and has two receivers read it: the first clones it, the second takes it
/// over.
pub fn send_and_try_recv_shared<T: Clone, W>(
    channel: &mut UnboundedChannel<T, W>,
    sender: &mut UnboundedSender<T>,
    first: &mut UnboundedReceiver<T>,
    second: &mut UnboundedReceiver<T>,
    value: T,
) -> (received: (T, T))
    requires
        old(channel).wf(),
        at_rest(old(channel)@),
        subscribed(old(channel)@.log, seq![old(first).id(), old(second).id()]),
        drained(old(channel)@.log),
        old(channel)@.log.history.len() < u64::MAX,
    ensures
        *final(first) == *old(first),
        *final(second) == *old(second),
        final(channel).wf(),
        final(channel).storage() == old(channel).storage(),
        at_rest(final(channel)@),
        subscribed(final(channel)@.log, seq![old(first).id(), old(second).id()]),
        drained(final(channel)@.log),
        final(channel)@.log.history == old(channel)@.log.history.push(value),
        final(channel)@.connected == old(channel)@.connected,
        final(channel).woken() == old(channel).woken(),
        cloned::<T>(value, received.0),
        cloned::<T>(value, received.1),
{
    let ghost both = seq![first.id(), second.id()];
    let ghost published = channel@.log.publish(value);
    proof {
        channel.lemma_wf();
        lemma_none_parked(channel@);
        lemma_published_to_drained(channel@.log, both, value);
        lemma_listed(published, both, 0);
        lemma_listed(published, both, 1);
        assert(both[0] != both[1]);
        assert(published.unread(both[0]) == seq![value]);
        assert(published.unread(both[1]) == seq![value]);
        lemma_read(published, both, both[0]);
        lemma_listed(published.receive(both[0]), both, 1);
        lemma_read(published.receive(both[0]), both, both[1]);
    }
    sender.send(channel, value);
    let one = first.try_recv(channel).unwrap();
    let two = second.try_recv(channel).unwrap();
    proof {
        assert(channel.woken() =~= old(channel).woken());
        lemma_all_drained(channel@.log, both);
    }
    (one, two)
}

/// A payload that owns memory.
pub fn payload() -> (text: String)
    ensures
        text@ == Seq::new(PAYLOAD_LEN as nat, |i: int| 'x'),
{
    let mut text = String::new();
    let mut i: usize = 0;
    assert(text@ =~= Seq::new(0, |i: int| 'x'));
    while i < PAYLOAD_LEN
        invariant
            i <= PAYLOAD_LEN,
            text@ == Seq::new(i as nat, |i: int| 'x'),
        decreases PAYLOAD_LEN - i,
    {
        text.append("x");
        i += 1;
        proof {
            reveal_strlit("x");
            assert(text@ =~= Seq::new(i as nat, |i: int| 'x'));
        }
    }
    text
}

/// Sends a payload and reads it back.
pub fn send_and_try_recv_owned<W>(
    channel: &mut UnboundedChannel<String, W>,
    sender: &mut UnboundedSender<String>,
    receiver: &mut UnboundedReceiver<String>,
) -> (received: String)
    requires
        old(channel).wf(),
        at_rest(old(channel)@),
        subscribed(old(channel)@.log, seq![old(receiver).id()]),
        drained(old(channel)@.log),
        old(channel)@.log.history.len() < u64::MAX,
    ensures
        *final(receiver) == *old(receiver),
        final(channel).wf(),
        final(channel).storage() == old(channel).storage(),
        at_rest(final(channel)@),
        subscribed(final(channel)@.log, seq![old(receiver).id()]),
        drained(final(channel)@.log),
        final(channel)@.log.history.len() == old(channel)@.log.history.len() + 1,
        final(channel)@.log.history.drop_last() == old(channel)@.log.history,
        final(channel)@.log.history.last()@ == Seq::new(PAYLOAD_LEN as nat, |i: int| 'x'),
        final(channel)@.connected == old(channel)@.connected,
        final(channel).woken() == old(channel).woken(),
        received@ == Seq::new(PAYLOAD_LEN as nat, |i: int| 'x'),
{
    let ghost only = seq![receiver.id()];
    let ghost before = channel@.log;
    let value = payload();
    proof {
        channel.lemma_wf();
        lemma_none_parked(channel@);
        lemma_published_to_drained(before, only, value);
        lemma_listed(before.publish(value), only, 0);
        assert(before.publish(value).unread(only[0]) == seq![value]);
        lemma_read(before.publish(value), only, only[0]);
    }
    sender.send(channel, value);
    let received = receiver.try_recv(channel).unwrap();
    proof {
        assert(channel.woken() =~= old(channel).woken());
        assert(channel@.log.history.drop_last() =~= before.history);
        lemma_all_drained(channel@.log, only);
    }
    received
}

/// Sends a payload and has two receivers read it.
pub fn send_and_try_recv_owned_shared<W>(
    channel: &mut UnboundedChannel<String, W>,
    sender: &mut UnboundedSender<String>,
    first: &mut UnboundedReceiver<String>,
    second: &mut UnboundedReceiver<String>,
) -> (received: (String, String))
    requires
        old(channel).wf(),
        at_rest(old(channel)@),
        subscribed(old(channel)@.log, seq![old(first).id(), old(second).id()]),
        drained(old(channel)@.log),
        old(channel)@.log.history.len() < u64::MAX,
    ensures
        *final(first) == *old(first),
        *final(second) == *old(second),
        final(channel).wf(),
        final(channel).storage() == old(channel).storage(),
        at_rest(final(channel)@),
        subscribed(final(channel)@.log, seq![old(first).id(), old(second).id()]),
        drained(final(channel)@.log),
        final(channel)@.log.history.len() == old(channel)@.log.history.len() + 1,
        final(channel)@.log.history.drop_last() == old(channel)@.log.history,
        final(channel)@.log.history.last()@ == Seq::new(PAYLOAD_LEN as nat, |i: int| 'x'),
        final(channel)@.connected == old(channel)@.connected,
        final(channel).woken() == old(channel).woken(),
        received.0@ == Seq::new(PAYLOAD_LEN as nat, |i: int| 'x'),
        received.1@ == Seq::new(PAYLOAD_LEN as nat, |i: int| 'x'),
{
    let received = send_and_try_recv_shared(channel, sender, first, second, payload());
    assert(channel@.log.history.drop_last() =~= old(channel)@.log.history);
    received
}

/// Sends one message, and has every receiver read it.
pub fn drain_with_receivers<W>(
    channel: &mut UnboundedChannel<usize, W>,
    sender: &mut UnboundedSender<usize>,
    receivers: &mut Vec<UnboundedReceiver<usize>>,
    value: usize,
) -> (received: Vec<usize>)
    requires
        old(channel).wf(),
        at_rest(old(channel)@),
        subscribed(old(channel)@.log, ids(old(receivers)@)),
        drained(old(channel)@.log),
        old(channel)@.log.history.len() < u64::MAX,
    ensures
        final(receivers)@ == old(receivers)@,
        final(channel).wf(),
        final(channel).storage() == old(channel).storage(),
        at_rest(final(channel)@),
        subscribed(final(channel)@.log, ids(final(receivers)@)),
        drained(final(channel)@.log),
        final(channel)@.log.history == old(channel)@.log.history.push(value),
        final(channel)@.connected == old(channel)@.connected,
        final(channel).woken() == old(channel).woken(),
        received@ == Seq::new(old(receivers)@.len(), |i: int| value),
{
    let ghost listed = ids(receivers@);
    let ghost before = channel@.log;
    proof {
        channel.lemma_wf();
        lemma_none_parked(channel@);
        lemma_published_to_drained(before, listed, value);
    }
    sender.send(channel, value);
    assert(channel.woken() =~= old(channel).woken());
    let mut received: Vec<usize> = Vec::new();
    let mut i: usize = 0;
    while i < receivers.len()
        invariant
            i <= receivers@.len(),
            receivers@ == old(receivers)@,
            listed == ids(receivers@),
            channel.wf(),
            at_rest(channel@),
            channel.storage() == old(channel).storage(),
            channel@.connected == old(channel)@.connected,
            channel.woken() == old(channel).woken(),
            channel@.log.valid(),
            subscribed(channel@.log, listed),
            channel@.log.history == before.history.push(value),
            forall|j: int| 0 <= j < i ==> channel@.log.unread(#[trigger] listed[j]).len() == 0,
            forall|j: int|
                i <= j < listed.len() ==> channel@.log.unread(#[trigger] listed[j]) == seq![value],
            received@ == Seq::new(i as nat, |j: int| value),
        decreases receivers@.len() - i,
    {
        let ghost log = channel@.log;
        proof {
            lemma_listed(log, listed, i as int);
            assert(log.unread(listed[i as int]) == seq![value]);
            lemma_read(log, listed, listed[i as int]);
        }
        let next = receivers[i].try_recv(channel).unwrap();
        assert(receivers@ =~= old(receivers)@);
        received.push(next);
        proof {
            assert forall|j: int| 0 <= j < listed.len() && j != i implies channel@.log.unread(
                #[trigger] listed[j],
            ) == log.unread(listed[j]) by {
                assert(listed[j] != listed[i as int]);
            }
        }
        i += 1;
        assert(received@ =~= Seq::new(i as nat, |j: int| value));
    }
    proof {
        lemma_all_drained(channel@.log, listed);
    }
    received
}

/// Waits on a new channel and gives the wait up: the receiver stays where it was, and nothing is
/// parked.
pub fn cancel_pending<W>(waker: W) -> (channel: (
    UnboundedChannel<usize, W>,
    UnboundedSender<usize>,
    UnboundedReceiver<usize>,
))
    ensures
        channel.0.wf(),
        channel.0.woken() == Seq::<W>::empty(),
        channel.0@.connected,
        channel.0@.log.history == Seq::<usize>::empty(),
        channel.0@.log.cursors == Map::<SlotId, nat>::empty().insert(channel.2.id(), 0),
        channel.0@.waiters == seq![None::<Waiter<W>>],
        channel.0@.producer is None,
{
    let (mut channel, sender, mut receiver) = unbounded::<usize, W>();
    let mut recv = receiver.recv();
    let _ = recv.poll(&mut channel, waker);
    recv.cancel(&mut channel);
    assert(channel@.waiters =~= seq![None::<Waiter<W>>]);
    (channel, sender, receiver)
}

/// Delivers a message to a receiver that waits for it on a new channel. The receiver becomes due
/// exactly once.
pub fn deliver_to_waiter<W>(value: usize, waker: W, again: W) -> (delivered: (
    usize,
    UnboundedChannel<usize, W>,
))
    ensures
        delivered.0 == value,
        delivered.1.wf(),
        drained(delivered.1@.log),
        delivered.1@.log.history == seq![value],
        delivered.1@.connected,
        exists|id: SlotId| #[trigger] subscribed(delivered.1@.log, seq![id]),
        at_rest(delivered.1@),
        delivered.1.woken() == seq![waker],
{
    let (mut channel, mut sender, mut receiver) = unbounded::<usize, W>();
    let ghost before = channel@.log;
    let ghost id = receiver.id();
    proof {
        channel.lemma_wf();
        assert forall|other: SlotId| #[trigger] before.active(other) <==> seq![id].contains(
            other,
        ) by {
            assert(seq![id][0] == id);
        }
        lemma_published_to_drained(before, seq![id], value);
        lemma_listed(before.publish(value), seq![id], 0);
        assert(before.publish(value).unread(seq![id][0]) == seq![value]);
        lemma_read(before.publish(value), seq![id], id);
    }
    let mut recv = receiver.recv();
    let _ = recv.poll(&mut channel, waker);
    proof {
        let waiter = Waiter { owner: id, waker };
        lemma_parked_alone(waiter);
        assert(channel@.waiters =~= seq![Some(waiter)]);
        assert(channel@.parked() =~= seq![waker]);
    }
    sender.send(&mut channel, value);
    let received = recv.poll(&mut channel, again).into_ready().unwrap();
    proof {
        lemma_all_drained(channel@.log, seq![id]);
        assert(channel.woken() =~= seq![waker]);
        assert(channel@.log.history =~= seq![value]);
        assert(subscribed(channel@.log, seq![id]));
    }
    (received, channel)
}

/// The subscriptions that `recvs` are for.
pub open spec fn recv_ids(recvs: Seq<Recv<usize>>) -> Seq<SlotId> {
    recvs.map_values(|recv: Recv<usize>| recv.id())
}

/// Delivers one message to `receiver_count` receivers that wait for it on a new channel. Each of
/// them becomes due exactly once.
pub fn deliver_to_receiver_batch<W: Clone>(receiver_count: usize, value: usize, waker: &W) -> (
    delivered: (Vec<usize>, UnboundedChannel<usize, W>))
    ensures
        delivered.0@ == Seq::new(receiver_count as nat, |i: int| value),
        delivered.1.wf(),
        drained(delivered.1@.log),
        at_rest(delivered.1@),
        delivered.1@.log.history == seq![value],
        delivered.1@.connected,
        exists|listed: Seq<SlotId>|
            listed.len() == receiver_count && #[trigger] subscribed(delivered.1@.log, listed),
        delivered.1.woken().len() == receiver_count,
        forall|i: int|
            0 <= i < receiver_count ==> cloned::<W>(*waker, #[trigger] delivered.1.woken()[i]),
{
    let (mut channel, mut sender, mut receivers) = resubscribed_channel::<W>(receiver_count);
    let ghost listed = ids(receivers@);
    let ghost before = channel@.log;
    let mut recvs: Vec<Recv<usize>> = Vec::new();
    proof {
        channel.lemma_wf();
        assert(recv_ids(recvs@) =~= listed.take(0));
    }
    let mut rest: &mut [UnboundedReceiver<usize>] = receivers.as_mut_slice();
    assert(ids(rest@) =~= listed.skip(0));
    let mut i: usize = 0;
    while i < receiver_count
        invariant
            i <= receiver_count,
            listed.len() == receiver_count,
            ids(rest@) == listed.skip(i as int),
            recv_ids(recvs@) == listed.take(i as int),
            channel.wf(),
            channel.woken() == Seq::<W>::empty(),
            channel@.connected,
            channel@.log == before,
            channel@.producer is None,
            before.history == Seq::<usize>::empty(),
            before.valid(),
            subscribed(before, listed),
            drained(before),
            channel@.waiters.len() == i,
            forall|j: int|
                0 <= j < i ==> (#[trigger] channel@.waiters[j]) is Some && cloned::<W>(
                    *waker,
                    channel@.waiters[j]->0.waker,
                ),
        decreases receiver_count - i,
    {
        proof {
            lemma_listed(before, listed, i as int);
            assert(rest@.len() == ids(rest@).len());
            assert(rest@[0].id() == ids(rest@)[0]);
        }
        let ghost others = ids(rest@);
        let (first, tail) = rest.split_at_mut(1);
        assert(ids(tail@) =~= others.skip(1));
        assert(others.skip(1) =~= listed.skip(i + 1));
        rest = tail;
        let mut recv = first[0].recv();
        assert(recv.id() == listed[i as int]);
        let _ = recv.poll(&mut channel, waker.clone());
        let ghost known = recv_ids(recvs@);
        recvs.push(recv);
        assert(recv_ids(recvs@) =~= known.push(listed[i as int]));
        i += 1;
        assert(listed.take(i as int) =~= known.push(listed[i - 1]));
    }
    proof {
        lemma_all_parked(channel@.waiters);
        lemma_published_to_drained(before, listed, value);
        assert(listed.take(i as int) =~= listed);
    }
    let ghost due = channel@.parked();
    assert forall|j: int| 0 <= j < receiver_count implies cloned::<W>(
        *waker,
        #[trigger] due[j],
    ) by {
        assert(due[j] == channel@.waiters[j]->0.waker);
    }
    sender.send(&mut channel, value);
    proof {
        assert(channel.woken() =~= due);
        assert(channel@.log.history =~= seq![value]);
    }
    let mut received: Vec<usize> = Vec::new();
    let mut k: usize = 0;
    while k < recvs.len()
        invariant
            k <= recvs@.len(),
            recvs@.len() == receiver_count,
            listed == recv_ids(recvs@),
            channel.wf(),
            channel.woken() == due,
            channel@.connected,
            channel@.log.history == seq![value],
            at_rest(channel@),
            channel@.log.valid(),
            subscribed(channel@.log, listed),
            forall|j: int| 0 <= j < k ==> channel@.log.unread(#[trigger] listed[j]).len() == 0,
            forall|j: int|
                k <= j < listed.len() ==> channel@.log.unread(#[trigger] listed[j]) == seq![value],
            received@ == Seq::new(k as nat, |j: int| value),
        decreases recvs@.len() - k,
    {
        let ghost log = channel@.log;
        proof {
            lemma_listed(log, listed, k as int);
            assert(log.unread(listed[k as int]) == seq![value]);
            lemma_read(log, listed, listed[k as int]);
        }
        let next = recvs[k].poll(&mut channel, waker.clone()).into_ready().unwrap();
        received.push(next);
        proof {
            assert(recv_ids(recvs@) =~= listed);
            assert forall|j: int| 0 <= j < listed.len() && j != k implies channel@.log.unread(
                #[trigger] listed[j],
            ) == log.unread(listed[j]) by {
                assert(listed[j] != listed[k as int]);
            }
        }
        k += 1;
        assert(received@ =~= Seq::new(k as nat, |j: int| value));
    }
    proof {
        lemma_all_drained(channel@.log, listed);
        assert(listed.len() == receiver_count && subscribed(channel@.log, listed));
    }
    (received, channel)
}

} // verus!
