use asyncband::broadcast::spmc::bounded;
use asyncband::broadcast::spmc::common::Poll;
use asyncband::broadcast::spmc::unbounded;
use asyncband::broadcast::spmc::TryRecvError;
use asyncband::internal::text::decimal_text;
use asyncband::workloads::bounded as bounded_steps;
use asyncband::workloads::ecosystem;
use asyncband::workloads::shapes;
use asyncband::workloads::shapes::Fanout;
use asyncband::workloads::unbounded as unbounded_steps;
use asyncband::workloads::Asyncband;
use asyncband::workloads::BoundedBroadcastSpmc;
use asyncband::workloads::BoundedShape;
use asyncband::workloads::BroadcastSpmc;

#[test]
fn numbers_are_written_in_decimal() {
    assert_eq!(decimal_text(0), "0");
    assert_eq!(decimal_text(9), "9");
    assert_eq!(decimal_text(10), "10");
    assert_eq!(decimal_text(1234567890), "1234567890");
    assert_eq!(decimal_text(u64::MAX), "18446744073709551615");
}

#[test]
fn shapes_have_names() {
    assert_eq!(
        BoundedShape::new(64, 8).to_string(),
        "cap 64 1 producer 8 receivers"
    );
    assert_eq!(Fanout { peak: 256, live: 32 }.to_string(), "peak 256 live 32");
    assert_eq!(shapes::bounded_shapes().len(), 6);
    assert_eq!(shapes::bounded_shapes()[5], BoundedShape { capacity: 64, receivers: 32 });
    assert_eq!(shapes::reclaim_fanouts().len(), 8);
    assert_eq!(shapes::reclaim_fanouts()[4], Fanout { peak: 32, live: 4 });
    assert_eq!(shapes::batch_checksum(), (0..4096usize).sum::<usize>());
}

#[test]
fn bounded_steps_leave_the_channel_as_they_found_it() {
    let (mut ch, mut tx, mut rx) = bounded::<usize, u8>(1);
    for value in 0..100 {
        let received =
            bounded_steps::try_send_and_try_recv(&mut ch, &mut tx, &mut rx, value);
        assert_eq!(received, value);
        assert_eq!(ch.retained(), 0);
    }
    for value in 0..100 {
        let received = bounded_steps::deliver_to_waiting_receiver(
            &mut ch, &mut tx, &mut rx, value, 1, 2,
        );
        assert_eq!(received, value);
        assert_eq!(ch.take_woken(), vec![1]);
    }
    tx.try_send(&mut ch, 0).ok().unwrap();
    for value in 0..100 {
        assert!(bounded_steps::try_send_when_full(&mut ch, &mut tx, value));
        bounded_steps::cancel_blocked_send(&mut ch, &mut tx, value, 3);
        assert_eq!(ch.retained(), 1);
        assert_eq!(ch.take_woken(), Vec::<u8>::new());
    }
    for value in 1..100 {
        let received = bounded_steps::reclaim_wakes_the_blocked_producer(
            &mut ch, &mut tx, &mut rx, value, 0, 4, 5,
        );
        assert_eq!(received, (0, value));
        assert_eq!(ch.retained(), 1);
        assert_eq!(ch.take_woken(), vec![4]);
    }
    assert_eq!(rx.try_recv(&mut ch), Ok(0));
    rx.unsubscribe(&mut ch);
    for value in 0..100 {
        assert!(bounded_steps::send_without_receivers(&mut ch, &mut tx, value).is_ok());
        assert_eq!(ch.retained(), 0);
    }
}

#[test]
fn a_channel_with_room_takes_what_a_full_one_turns_away() {
    let (mut ch, mut tx, mut rx) = bounded::<usize, u8>(2);
    assert!(!bounded_steps::try_send_when_full(&mut ch, &mut tx, 1));
    assert!(!bounded_steps::try_send_when_full(&mut ch, &mut tx, 2));
    assert!(bounded_steps::try_send_when_full(&mut ch, &mut tx, 3));
    assert_eq!(rx.try_recv(&mut ch), Ok(1));
    assert_eq!(rx.try_recv(&mut ch), Ok(2));
    assert_eq!(rx.try_recv(&mut ch), Err(TryRecvError::Empty));
}

#[test]
fn a_cancelled_send_leaves_no_producer_parked() {
    let (mut ch, mut tx, mut rx) = bounded::<usize, u8>(1);
    tx.try_send(&mut ch, 0).ok().unwrap();
    let mut forgotten = tx.send(1);
    assert_eq!(forgotten.poll_send(&mut ch, 7), Poll::Pending);
    bounded_steps::cancel_blocked_send(&mut ch, &mut tx, 2, 8);
    assert_eq!(rx.try_recv(&mut ch), Ok(0));
    assert_eq!(ch.take_woken(), Vec::<u8>::new());
    assert_eq!(rx.try_recv(&mut ch), Err(TryRecvError::Empty));
}

#[test]
fn a_fan_out_is_drained_by_every_receiver() {
    let (mut ch, mut tx, mut receivers) = bounded_steps::channel_with_receivers::<u8>(64, 8);
    assert_eq!(receivers.len(), 8);
    for value in 0..100 {
        let received = bounded_steps::try_send_and_drain_fanout(
            &mut ch, &mut tx, &mut receivers, value,
        );
        assert_eq!(received, vec![value; 8]);
        assert_eq!(ch.retained(), 0);
    }
    let (_, _, receivers) = bounded_steps::channel_with_receivers::<u8>(1, 0);
    assert_eq!(receivers.len(), 1);
}

#[test]
fn a_lagging_receiver_that_leaves_lets_the_producer_through() {
    for backlog in [1, 2, 32, 256] {
        let (mut ch, mut tx, mut fast) = bounded::<usize, u8>(backlog);
        let (slow, mut send) =
            bounded_steps::lagging_receiver(&mut ch, &mut tx, &mut fast, 9);
        assert_eq!(ch.retained(), backlog);
        assert_eq!(send.poll_send(&mut ch, 10), Poll::Pending);
        bounded_steps::drop_lagging_receiver_wakes_producer(&mut ch, slow, &fast);
        assert_eq!(ch.retained(), 0);
        assert_eq!(ch.take_woken(), vec![10]);
        assert_eq!(send.poll_send(&mut ch, 11), Poll::Ready(()));
        assert_eq!(fast.try_recv(&mut ch), Ok(backlog));
    }
}

#[test]
fn unbounded_steps_leave_the_channel_drained() {
    let (mut ch, mut tx, mut first) = unbounded::<usize, u8>();
    assert_eq!(
        unbounded_steps::try_recv_empty(&mut ch, &mut first),
        Err(TryRecvError::Empty)
    );
    let mut second = tx.subscribe(&mut ch);
    for value in 0..100 {
        let received = unbounded_steps::send_and_try_recv_shared(
            &mut ch, &mut tx, &mut first, &mut second, value,
        );
        assert_eq!(received, (value, value));
        assert_eq!(ch.retained(), 0);
    }
    first.unsubscribe(&mut ch);
    second.unsubscribe(&mut ch);
    for value in 0..100 {
        unbounded_steps::send_without_receivers(&mut ch, &mut tx, value);
        assert_eq!(ch.retained(), 0);
    }
}

#[test]
fn owned_payloads_arrive_whole() {
    assert_eq!(unbounded_steps::payload(), "x".repeat(64));
    let (mut ch, mut tx, mut first) = unbounded::<String, u8>();
    for _ in 0..10 {
        assert_eq!(
            unbounded_steps::send_and_try_recv_owned(&mut ch, &mut tx, &mut first),
            "x".repeat(64)
        );
    }
    let mut second = tx.subscribe(&mut ch);
    for _ in 0..10 {
        let (one, two) = unbounded_steps::send_and_try_recv_owned_shared(
            &mut ch, &mut tx, &mut first, &mut second,
        );
        assert_eq!(one, "x".repeat(64));
        assert_eq!(two, "x".repeat(64));
        assert_eq!(ch.retained(), 0);
    }
}

#[test]
fn shed_receivers_read_nothing_any_more() {
    for fanout in shapes::reclaim_fanouts() {
        let (mut ch, mut tx, mut receivers) = unbounded_steps::shed_receivers::<u8>(fanout);
        assert_eq!(receivers.len(), fanout.live);
        let received =
            unbounded_steps::drain_with_receivers(&mut ch, &mut tx, &mut receivers, 5);
        assert_eq!(received, vec![5; fanout.live]);
        assert_eq!(ch.retained(), 0);
    }
    let (_, _, receivers) = unbounded_steps::shed_receivers::<u8>(Fanout { peak: 2, live: 5 });
    assert_eq!(receivers.len(), 2);
}

#[test]
fn waiting_receivers_are_served_once() {
    let (mut ch, _tx, receiver) = unbounded_steps::cancel_pending(1u8);
    assert_eq!(receiver.unread_message_count(&ch), 0);
    assert_eq!(ch.take_woken(), Vec::<u8>::new());

    let (value, mut ch) = unbounded_steps::deliver_to_waiter(7, 1u8, 2);
    assert_eq!(value, 7);
    assert_eq!(ch.take_woken(), vec![1]);

    for receiver_count in [0, 1, 8, 32] {
        let (values, mut ch) =
            unbounded_steps::deliver_to_receiver_batch(receiver_count, 3, &6u8);
        assert_eq!(values, vec![3; receiver_count]);
        assert_eq!(ch.take_woken(), vec![6; receiver_count]);
    }
}

#[test]
fn a_batch_adds_up_for_every_receiver() {
    let (mut ch, mut tx, mut receivers) =
        <Asyncband as BroadcastSpmc<u8>>::channel(shapes::BATCH_MESSAGES, 3);
    for _ in 0..2 {
        ecosystem::publish_batch::<u8, Asyncband>(&mut ch, &mut tx);
        for receiver in receivers.iter_mut() {
            assert_eq!(
                ecosystem::drain_batch::<u8, Asyncband>(&mut ch, receiver),
                shapes::batch_checksum()
            );
        }
        assert_eq!(ch.retained(), 0);
    }
    <Asyncband as BroadcastSpmc<u8>>::send(&mut ch, &mut tx, 12);
    assert_eq!(ecosystem::recv::<u8, Asyncband>(&mut ch, &mut receivers[0]), 12);
    assert_eq!(
        <Asyncband as BroadcastSpmc<u8>>::recv_ready(&mut ch, &mut receivers[1], 1),
        12
    );
    assert_eq!(
        <Asyncband as BroadcastSpmc<u8>>::try_recv(&mut ch, &mut receivers[2]),
        Some(12)
    );
    assert_eq!(
        <Asyncband as BroadcastSpmc<u8>>::try_recv(&mut ch, &mut receivers[2]),
        None
    );
}

#[test]
fn round_trips_return_what_was_sent() {
    let (mut ch, mut tx, mut receivers) =
        <Asyncband as BoundedBroadcastSpmc<u8>>::channel(shapes::ROUND_TRIP_CAPACITY, 1);
    let mut rx = receivers.pop().unwrap();
    for _ in 0..200 {
        assert_eq!(
            ecosystem::try_round_trip::<u8, Asyncband>(&mut ch, &mut tx, &mut rx, usize::MAX),
            usize::MAX
        );
        assert_eq!(
            ecosystem::ready_round_trip::<u8, Asyncband>(
                &mut ch, &mut tx, &mut rx, 17, 1, 2
            ),
            17
        );
        assert_eq!(ch.retained(), 0);
    }
}
