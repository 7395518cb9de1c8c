//! One interface to the channels that are compared, and what stands behind it for the channels of
//! this library.

use crate::broadcast::spmc::bounded::full;
use crate::broadcast::spmc::bounded::BoundedChannel;
use crate::broadcast::spmc::bounded::BoundedReceiver;
use crate::broadcast::spmc::bounded::BoundedSender;
use crate::broadcast::spmc::error::TryRecvError;
use crate::broadcast::spmc::log::LogState;
use crate::broadcast::spmc::unbounded::UnboundedChannel;
use crate::broadcast::spmc::unbounded::UnboundedReceiver;
use crate::broadcast::spmc::unbounded::UnboundedSender;
use crate::internal::arena::SlotId;
use crate::workloads::bounded;
use crate::workloads::steady::drained;
use crate::workloads::steady::subscribed;
use crate::workloads::unbounded;
use vstd::prelude::*;

verus! {

/// The channels of this library.
pub struct Asyncband;

/// A channel on which a send never waits.
pub trait BroadcastSpmc<W>: Sized {
    type Channel;

    type Sender;

    type Receiver;

    /// What was published, and how far each receiver has read.
    spec fn log(channel: &Self::Channel) -> LogState<usize>;

    /// Whether the channel is in order and its sender is still there.
    spec fn ready(channel: &Self::Channel) -> bool;

    /// The subscription that a receiver stands for.
    spec fn id(receiver: &Self::Receiver) -> SlotId;

    /// Creates a channel with room for `capacity` messages, where that matters, and with
    /// `receiver_count` receivers, or with one where that is zero.
    fn channel(capacity: usize, receiver_count: usize) -> (channel: (
        Self::Channel,
        Self::Sender,
        Vec<Self::Receiver>,
    ))
        ensures
            Self::ready(&channel.0),
            Self::log(&channel.0).history == Seq::<usize>::empty(),
            drained(Self::log(&channel.0)),
            channel.2@.len() == if receiver_count == 0 {
                1
            } else {
                receiver_count as nat
            },
            subscribed(
                Self::log(&channel.0),
                channel.2@.map_values(|receiver: Self::Receiver| Self::id(&receiver)),
            ),
    ;

    /// Publishes a message.
    fn send(channel: &mut Self::Channel, sender: &mut Self::Sender, value: usize)
        requires
            Self::ready(&*old(channel)),
            Self::log(&*old(channel)).history.len() < u64::MAX,
        ensures
            Self::ready(&*final(channel)),
            Self::log(&*final(channel)) == Self::log(&*old(channel)).publish(value),
    ;

    /// Reads the next message, if there is one.
    fn try_recv(channel: &mut Self::Channel, receiver: &mut Self::Receiver) -> (next: Option<usize>)
        requires
            Self::ready(&*old(channel)),
            Self::log(&*old(channel)).active(Self::id(&*old(receiver))),
        ensures
            Self::ready(&*final(channel)),
            Self::id(&*final(receiver)) == Self::id(&*old(receiver)),
            match next {
                Some(value) => {
                    let id = Self::id(&*old(receiver));
                    let log = Self::log(&*old(channel));
                    &&& log.unread(id).len() > 0
                    &&& value == log.unread(id)[0]
                    &&& Self::log(&*final(channel)) == log.receive(id)
                },
                None => {
                    &&& Self::log(&*old(channel)).unread(Self::id(&*old(receiver))).len() == 0
                    &&& Self::log(&*final(channel)) == Self::log(&*old(channel))
                },
            },
    ;

    /// Reads the next message, which is there, as a receive that could wait.
    fn recv_ready(channel: &mut Self::Channel, receiver: &mut Self::Receiver, waker: W) -> (value:
        usize)
        requires
            Self::ready(&*old(channel)),
            Self::log(&*old(channel)).active(Self::id(&*old(receiver))),
            Self::log(&*old(channel)).unread(Self::id(&*old(receiver))).len() > 0,
        ensures
            Self::ready(&*final(channel)),
            Self::id(&*final(receiver)) == Self::id(&*old(receiver)),
            value == Self::log(&*old(channel)).unread(Self::id(&*old(receiver)))[0],
            Self::log(&*final(channel)) == Self::log(&*old(channel)).receive(
                Self::id(&*old(receiver)),
            ),
    ;
}

/// A channel on which a send waits at a capacity.
pub trait BoundedBroadcastSpmc<W>: Sized {
    type Channel;

    type Sender;

    type Receiver;

    /// What was published, and how far each receiver has read.
    spec fn log(channel: &Self::Channel) -> LogState<usize>;

    /// Whether the channel is in order and its sender is still there.
    spec fn ready(channel: &Self::Channel) -> bool;

    /// The number of messages that the channel retains before a send waits.
    spec fn limit(channel: &Self::Channel) -> nat;

    /// The subscription that a receiver stands for.
    spec fn id(receiver: &Self::Receiver) -> SlotId;

    /// Creates a channel that retains at most `capacity` messages, with `receiver_count`
    /// receivers, or with one where that is zero.
    fn channel(capacity: usize, receiver_count: usize) -> (channel: (
        Self::Channel,
        Self::Sender,
        Vec<Self::Receiver>,
    ))
        requires
            capacity > 0,
        ensures
            Self::ready(&channel.0),
            Self::limit(&channel.0) == capacity,
            Self::log(&channel.0).history == Seq::<usize>::empty(),
            drained(Self::log(&channel.0)),
            channel.2@.len() == if receiver_count == 0 {
                1
            } else {
                receiver_count as nat
            },
            subscribed(
                Self::log(&channel.0),
                channel.2@.map_values(|receiver: Self::Receiver| Self::id(&receiver)),
            ),
    ;

    /// Publishes a message for which there is room.
    fn try_send(channel: &mut Self::Channel, sender: &mut Self::Sender, value: usize)
        requires
            Self::ready(&*old(channel)),
            !full(Self::log(&*old(channel)), Self::limit(&*old(channel))),
            Self::log(&*old(channel)).history.len() < u64::MAX,
        ensures
            Self::ready(&*final(channel)),
            Self::limit(&*final(channel)) == Self::limit(&*old(channel)),
            Self::log(&*final(channel)) == Self::log(&*old(channel)).publish(value),
    ;

    /// Publishes a message for which there is room, as a send that could wait.
    fn send_ready(channel: &mut Self::Channel, sender: &mut Self::Sender, value: usize, waker: W)
        requires
            Self::ready(&*old(channel)),
            !full(Self::log(&*old(channel)), Self::limit(&*old(channel))),
            Self::log(&*old(channel)).history.len() < u64::MAX,
        ensures
            Self::ready(&*final(channel)),
            Self::limit(&*final(channel)) == Self::limit(&*old(channel)),
            Self::log(&*final(channel)) == Self::log(&*old(channel)).publish(value),
    ;

    /// Reads the next message, if there is one.
    fn try_recv(channel: &mut Self::Channel, receiver: &mut Self::Receiver) -> (next: Option<usize>)
        requires
            Self::ready(&*old(channel)),
            Self::log(&*old(channel)).active(Self::id(&*old(receiver))),
        ensures
            Self::ready(&*final(channel)),
            Self::limit(&*final(channel)) == Self::limit(&*old(channel)),
            Self::id(&*final(receiver)) == Self::id(&*old(receiver)),
            match next {
                Some(value) => {
                    let id = Self::id(&*old(receiver));
                    let log = Self::log(&*old(channel));
                    &&& log.unread(id).len() > 0
                    &&& value == log.unread(id)[0]
                    &&& Self::log(&*final(channel)) == log.receive(id)
                },
                None => {
                    &&& Self::log(&*old(channel)).unread(Self::id(&*old(receiver))).len() == 0
                    &&& Self::log(&*final(channel)) == Self::log(&*old(channel))
                },
            },
    ;

    /// Reads the next message, which is there, as a receive that could wait.
    fn recv_ready(channel: &mut Self::Channel, receiver: &mut Self::Receiver, waker: W) -> (value:
        usize)
        requires
            Self::ready(&*old(channel)),
            Self::log(&*old(channel)).active(Self::id(&*old(receiver))),
            Self::log(&*old(channel)).unread(Self::id(&*old(receiver))).len() > 0,
        ensures
            Self::ready(&*final(channel)),
            Self::limit(&*final(channel)) == Self::limit(&*old(channel)),
            Self::id(&*final(receiver)) == Self::id(&*old(receiver)),
            value == Self::log(&*old(channel)).unread(Self::id(&*old(receiver)))[0],
            Self::log(&*final(channel)) == Self::log(&*old(channel)).receive(
                Self::id(&*old(receiver)),
            ),
    ;
}

impl<W> BroadcastSpmc<W> for Asyncband {
    type Channel = UnboundedChannel<usize, W>;

    type Sender = UnboundedSender<usize>;

    type Receiver = UnboundedReceiver<usize>;

    open spec fn log(channel: &UnboundedChannel<usize, W>) -> LogState<usize> {
        channel@.log
    }

    open spec fn ready(channel: &UnboundedChannel<usize, W>) -> bool {
        channel.wf() && channel@.connected
    }

    open spec fn id(receiver: &UnboundedReceiver<usize>) -> SlotId {
        receiver.id()
    }

    fn channel(_capacity: usize, receiver_count: usize) -> (channel: (
        UnboundedChannel<usize, W>,
        UnboundedSender<usize>,
        Vec<UnboundedReceiver<usize>>,
    )) {
        let (channel, sender, receivers) = unbounded::channel_with_receivers::<W>(receiver_count);
        assert(unbounded::ids(receivers@) =~= receivers@.map_values(
            |receiver: UnboundedReceiver<usize>| <Asyncband as BroadcastSpmc<W>>::id(&receiver),
        ));
        (channel, sender, receivers)
    }

    fn send(
        channel: &mut UnboundedChannel<usize, W>,
        sender: &mut UnboundedSender<usize>,
        value: usize,
    ) {
        sender.send(channel, value);
    }

    fn try_recv(
        channel: &mut UnboundedChannel<usize, W>,
        receiver: &mut UnboundedReceiver<usize>,
    ) -> (next: Option<usize>) {
        match receiver.try_recv(channel) {
            Ok(value) => Some(value),
            Err(TryRecvError::Empty) => None,
            Err(TryRecvError::Disconnected) => vstd::pervasive::unreached(),
        }
    }

    fn recv_ready(
        channel: &mut UnboundedChannel<usize, W>,
        receiver: &mut UnboundedReceiver<usize>,
        waker: W,
    ) -> (value: usize) {
        receiver.recv().poll(channel, waker).into_ready().unwrap()
    }
}

impl<W> BoundedBroadcastSpmc<W> for Asyncband {
    type Channel = BoundedChannel<usize, W>;

    type Sender = BoundedSender<usize>;

    type Receiver = BoundedReceiver<usize>;

    open spec fn log(channel: &BoundedChannel<usize, W>) -> LogState<usize> {
        channel@.log
    }

    open spec fn ready(channel: &BoundedChannel<usize, W>) -> bool {
        channel.wf() && channel@.connected
    }

    open spec fn limit(channel: &BoundedChannel<usize, W>) -> nat {
        channel.limit()
    }

    open spec fn id(receiver: &BoundedReceiver<usize>) -> SlotId {
        receiver.id()
    }

    fn channel(capacity: usize, receiver_count: usize) -> (channel: (
        BoundedChannel<usize, W>,
        BoundedSender<usize>,
        Vec<BoundedReceiver<usize>>,
    )) {
        let (channel, sender, receivers) = bounded::channel_with_receivers::<W>(
            capacity,
            receiver_count,
        );
        assert(bounded::ids(receivers@) =~= receivers@.map_values(
            |receiver: BoundedReceiver<usize>|
                <Asyncband as BoundedBroadcastSpmc<W>>::id(&receiver),
        ));
        (channel, sender, receivers)
    }

    fn try_send(
        channel: &mut BoundedChannel<usize, W>,
        sender: &mut BoundedSender<usize>,
        value: usize,
    ) {
        sender.try_send(channel, value).ok().unwrap();
    }

    fn send_ready(
        channel: &mut BoundedChannel<usize, W>,
        sender: &mut BoundedSender<usize>,
        value: usize,
        waker: W,
    ) {
        let mut send = sender.send(value);
        let _ = send.poll_send(channel, waker).into_ready();
    }

    fn try_recv(
        channel: &mut BoundedChannel<usize, W>,
        receiver: &mut BoundedReceiver<usize>,
    ) -> (next: Option<usize>) {
        match receiver.try_recv(channel) {
            Ok(value) => Some(value),
            Err(TryRecvError::Empty) => None,
            Err(TryRecvError::Disconnected) => vstd::pervasive::unreached(),
        }
    }

    fn recv_ready(
        channel: &mut BoundedChannel<usize, W>,
        receiver: &mut BoundedReceiver<usize>,
        waker: W,
    ) -> (value: usize) {
        receiver.recv().poll(channel, waker).into_ready().unwrap()
    }
}

/// What stands behind the interface is the channel itself: its log, its receivers and its limit.
/// It is ready only while its sender is there.
pub proof fn the_interface_shows_the_channel<W>(
    channel: UnboundedChannel<usize, W>,
    receiver: UnboundedReceiver<usize>,
    limited: BoundedChannel<usize, W>,
    reader: BoundedReceiver<usize>,
)
    ensures
        <Asyncband as BroadcastSpmc<W>>::log(&channel) == channel@.log,
        <Asyncband as BroadcastSpmc<W>>::id(&receiver) == receiver.id(),
        <Asyncband as BroadcastSpmc<W>>::ready(&channel) <==> channel.wf() && channel@.connected,
        <Asyncband as BoundedBroadcastSpmc<W>>::log(&limited) == limited@.log,
        <Asyncband as BoundedBroadcastSpmc<W>>::id(&reader) == reader.id(),
        <Asyncband as BoundedBroadcastSpmc<W>>::limit(&limited) == limited.limit(),
        <Asyncband as BoundedBroadcastSpmc<W>>::ready(&limited) <==> limited.wf()
            && limited@.connected,
{
}

} // verus!
