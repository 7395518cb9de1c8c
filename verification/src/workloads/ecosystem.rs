//! The steps of the benchmarks that compare channels through one interface.

use crate::broadcast::spmc::log::LogState;
use crate::internal::arena::SlotId;
use crate::workloads::adapters::BoundedBroadcastSpmc;
use crate::workloads::adapters::BroadcastSpmc;
use crate::workloads::shapes::sum_below;
use crate::workloads::shapes::sum_below_in_closed_form;
use crate::workloads::shapes::BATCH_MESSAGES;
use crate::workloads::steady::drained;
use crate::workloads::steady::lemma_all_drained;
use crate::workloads::steady::lemma_listed;
use crate::workloads::steady::lemma_published_to_drained;
use crate::workloads::steady::lemma_read;
use crate::workloads::steady::subscribed;
use vstd::prelude::*;

verus! {

/// The messages of a batch, in the order in which they are published.
pub open spec fn batch() -> Seq<usize> {
    Seq::new(BATCH_MESSAGES as nat, |i: int| i as usize)
}

/// A batch counts up from zero, and adds up to half of the product of its length and the number
/// before that.
pub proof fn a_batch_counts_up_from_zero()
    ensures
        batch().len() == 4096,
        forall|i: int| 0 <= i < batch().len() ==> #[trigger] batch()[i] == i,
        2 * sum_below(batch().len()) == 4096 * 4095,
{
    sum_below_in_closed_form(batch().len());
}

/// Reads the next message of a batch that was published.
pub fn recv<W, C: BroadcastSpmc<W>>(channel: &mut C::Channel, receiver: &mut C::Receiver) -> (value:
    usize)
    requires
        C::ready(&*old(channel)),
        C::log(&*old(channel)).active(C::id(&*old(receiver))),
        C::log(&*old(channel)).unread(C::id(&*old(receiver))).len() > 0,
    ensures
        C::ready(&*final(channel)),
        C::id(&*final(receiver)) == C::id(&*old(receiver)),
        value == C::log(&*old(channel)).unread(C::id(&*old(receiver)))[0],
        C::log(&*final(channel)) == C::log(&*old(channel)).receive(C::id(&*old(receiver))),
{
    C::try_recv(channel, receiver).expect("the published benchmark batch must be ready")
}

/// Publishes a batch.
pub fn publish_batch<W, C: BroadcastSpmc<W>>(channel: &mut C::Channel, sender: &mut C::Sender)
    requires
        C::ready(&*old(channel)),
        C::log(&*old(channel)).history.len() + BATCH_MESSAGES <= u64::MAX,
    ensures
        C::ready(&*final(channel)),
        C::log(&*final(channel)).history == C::log(&*old(channel)).history + batch(),
        C::log(&*final(channel)).cursors == C::log(&*old(channel)).cursors,
{
    let ghost before = C::log(&*channel);
    let mut value: usize = 0;
    assert(before.history + batch().take(0) =~= before.history);
    while value < BATCH_MESSAGES
        invariant
            value <= BATCH_MESSAGES,
            C::ready(&*channel),
            before.history.len() + BATCH_MESSAGES <= u64::MAX,
            C::log(&*channel).history == before.history + batch().take(value as int),
            C::log(&*channel).cursors == before.cursors,
        decreases BATCH_MESSAGES - value,
    {
        C::send(channel, sender, value);
        value += 1;
        assert(C::log(&*channel).history =~= before.history + batch().take(value as int));
    }
    assert(batch().take(value as int) =~= batch());
}

/// Reads a batch and adds it up.
pub fn drain_batch<W, C: BroadcastSpmc<W>>(
    channel: &mut C::Channel,
    receiver: &mut C::Receiver,
) -> (checksum: usize)
    requires
        C::ready(&*old(channel)),
        C::log(&*old(channel)).valid(),
        C::log(&*old(channel)).active(C::id(&*old(receiver))),
        C::log(&*old(channel)).unread(C::id(&*old(receiver))) == batch(),
    ensures
        C::ready(&*final(channel)),
        C::id(&*final(receiver)) == C::id(&*old(receiver)),
        C::log(&*final(channel)).history == C::log(&*old(channel)).history,
        C::log(&*final(channel)).cursors == C::log(&*old(channel)).cursors.insert(
            C::id(&*old(receiver)),
            C::log(&*old(channel)).history.len(),
        ),
        checksum == sum_below(BATCH_MESSAGES as nat),
{
    let ghost id = C::id(&*receiver);
    let ghost before = C::log(&*channel);
    let ghost start = before.cursors[id];
    let mut checksum: usize = 0;
    let mut i: usize = 0;
    proof {
        assert(before.unread(id) =~= batch().skip(0));
        assert(before.cursors.insert(id, start) =~= before.cursors);
        assert(before.unread(id).len() == before.history.len() - start);
    }
    while i < BATCH_MESSAGES
        invariant
            i <= BATCH_MESSAGES,
            C::ready(&*channel),
            C::id(&*receiver) == id,
            start == before.cursors[id],
            before.history.len() == start + BATCH_MESSAGES,
            before.active(id),
            C::log(&*channel).history == before.history,
            C::log(&*channel).cursors == before.cursors.insert(id, start + i as nat),
            C::log(&*channel).unread(id) == batch().skip(i as int),
            checksum == sum_below(i as nat),
        decreases BATCH_MESSAGES - i,
    {
        let ghost log = C::log(&*channel);
        let value = recv::<W, C>(channel, receiver);
        proof {
            sum_below_in_closed_form(i as nat);
            sum_below_in_closed_form((i + 1) as nat);
            assert((i + 1) * i <= 4096 * 4096) by (nonlinear_arith)
                requires
                    i < 4096,
            ;
            assert(value == i);
            assert(log.cursors[id] == start + i);
            assert(C::log(&*channel).unread(id) =~= log.unread(id).drop_first());
            assert(batch().skip(i as int).drop_first() =~= batch().skip(i + 1));
            assert(C::log(&*channel).cursors =~= before.cursors.insert(id, start + (i + 1) as nat));
        }
        checksum = checksum.wrapping_add(value);
        i += 1;
    }
    checksum
}

/// Sends one message and reads it back.
pub fn try_round_trip<W, C: BoundedBroadcastSpmc<W>>(
    channel: &mut C::Channel,
    sender: &mut C::Sender,
    receiver: &mut C::Receiver,
    value: usize,
) -> (received: usize)
    requires
        C::ready(&*old(channel)),
        C::limit(&*old(channel)) > 0,
        C::log(&*old(channel)).valid(),
        C::log(&*old(channel)).history.len() < u64::MAX,
        subscribed(C::log(&*old(channel)), seq![C::id(&*old(receiver))]),
        drained(C::log(&*old(channel))),
    ensures
        C::ready(&*final(channel)),
        C::limit(&*final(channel)) == C::limit(&*old(channel)),
        C::id(&*final(receiver)) == C::id(&*old(receiver)),
        C::log(&*final(channel)).valid(),
        C::log(&*final(channel)).history == C::log(&*old(channel)).history.push(value),
        subscribed(C::log(&*final(channel)), seq![C::id(&*old(receiver))]),
        drained(C::log(&*final(channel))),
        received == value,
{
    let ghost id = C::id(&*receiver);
    proof {
        lemma_round_trip(C::log(&*channel), id, value);
    }
    C::try_send(channel, sender, value);
    C::try_recv(channel, receiver).unwrap()
}

/// Sends one message and reads it back, both as operations that could wait.
pub fn ready_round_trip<W, C: BoundedBroadcastSpmc<W>>(
    channel: &mut C::Channel,
    sender: &mut C::Sender,
    receiver: &mut C::Receiver,
    value: usize,
    send_waker: W,
    recv_waker: W,
) -> (received: usize)
    requires
        C::ready(&*old(channel)),
        C::limit(&*old(channel)) > 0,
        C::log(&*old(channel)).valid(),
        C::log(&*old(channel)).history.len() < u64::MAX,
        subscribed(C::log(&*old(channel)), seq![C::id(&*old(receiver))]),
        drained(C::log(&*old(channel))),
    ensures
        C::ready(&*final(channel)),
        C::limit(&*final(channel)) == C::limit(&*old(channel)),
        C::id(&*final(receiver)) == C::id(&*old(receiver)),
        C::log(&*final(channel)).valid(),
        C::log(&*final(channel)).history == C::log(&*old(channel)).history.push(value),
        subscribed(C::log(&*final(channel)), seq![C::id(&*old(receiver))]),
        drained(C::log(&*final(channel))),
        received == value,
{
    let ghost id = C::id(&*receiver);
    proof {
        lemma_round_trip(C::log(&*channel), id, value);
    }
    C::send_ready(channel, sender, value, send_waker);
    C::recv_ready(channel, receiver, recv_waker)
}

/// A message that is published on a drained log and read by its only receiver leaves the log
/// drained.
proof fn lemma_round_trip(log: LogState<usize>, id: SlotId, value: usize)
    requires
        log.valid(),
        subscribed(log, seq![id]),
        drained(log),
    ensures
        log.publish(value).active(id),
        log.publish(value).unread(id) == seq![value],
        log.publish(value).receive(id).valid(),
        subscribed(log.publish(value).receive(id), seq![id]),
        drained(log.publish(value).receive(id)),
{
    let published = log.publish(value);
    lemma_published_to_drained(log, seq![id], value);
    lemma_listed(published, seq![id], 0);
    assert(published.unread(seq![id][0]) == seq![value]);
    lemma_read(published, seq![id], id);
    lemma_all_drained(published.receive(id), seq![id]);
}

} // verus!
