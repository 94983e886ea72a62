use mnemos_core::channel::{
    DequeueOutcome, EnqueueOutcome, Envelope, KChannel, ReplyCell, ReplyState, SendOutcome,
};

#[test]
fn messages_arrive_in_order() {
    let mut ch: KChannel<u32> = KChannel::new(4);
    assert!(ch.try_enqueue(1).is_ok());
    assert!(ch.try_enqueue(2).is_ok());
    assert!(ch.try_enqueue(3).is_ok());
    assert_eq!(ch.len(), 3);

    assert_eq!(ch.try_dequeue().unwrap().0, 1);
    assert_eq!(ch.try_dequeue().unwrap().0, 2);
    assert_eq!(ch.try_dequeue().unwrap().0, 3);
    assert!(ch.try_dequeue().is_none());
}

#[test]
fn full_queue_rejects_or_parks_the_sender() {
    let mut ch: KChannel<&'static str> = KChannel::new(2);
    ch.try_enqueue("a").unwrap();
    ch.try_enqueue("b").unwrap();

    // The non-suspending path hands the message back.
    assert_eq!(ch.try_enqueue("c"), Err("c"));

    // The suspending path parks the sender's wake token and hands the
    // message back for the sender to hold while suspended.
    let held = match ch.enqueue("c", 17) {
        EnqueueOutcome::Parked(msg) => msg,
        EnqueueOutcome::Sent(_) => panic!("the queue was full"),
    };
    assert_eq!(held, "c");

    // The next dequeue hands that token back for waking...
    match ch.try_dequeue() {
        Some((msg, wake)) => {
            assert_eq!(msg, "a");
            assert_eq!(wake, Some(17));
        }
        None => panic!("queue was not empty"),
    }

    // ...and the woken sender completes its send with the held message.
    assert!(matches!(ch.enqueue(held, 17), EnqueueOutcome::Sent(None)));
}

#[test]
fn empty_queue_parks_the_receiver() {
    let mut ch: KChannel<u8> = KChannel::new(2);
    assert!(matches!(ch.dequeue(5), DequeueOutcome::Parked));

    // The next enqueue hands the parked receiver's token back.
    assert_eq!(ch.try_enqueue(9), Ok(Some(5)));
    match ch.dequeue(5) {
        DequeueOutcome::Received(msg, wake) => {
            assert_eq!(msg, 9);
            assert_eq!(wake, None);
        }
        DequeueOutcome::Parked => panic!("a message was in flight"),
    }
}

#[test]
fn abandoned_waiters_can_be_removed_from_both_lists() {
    let mut ch: KChannel<u8> = KChannel::new(1);
    assert!(matches!(ch.dequeue(3), DequeueOutcome::Parked));
    assert!(ch.cancel_recv_wait(3));
    assert!(!ch.cancel_recv_wait(3));

    ch.try_enqueue(1).unwrap();
    assert!(matches!(ch.enqueue(2, 4), EnqueueOutcome::Parked(2)));
    assert!(ch.cancel_send_wait(4));
    assert!(!ch.cancel_send_wait(4));
    assert_eq!(ch.len(), 1);
}

#[test]
fn reply_is_delivered_at_most_once() {
    let mut cell: ReplyCell<u32> = ReplyCell::new();
    assert_eq!(cell.state(), ReplyState::Waiting);

    assert!(matches!(cell.send(11), SendOutcome::Delivered));
    // A second reply is handed back, a silent no-op.
    assert!(matches!(cell.send(12), SendOutcome::Discarded(12)));

    assert_eq!(cell.take_reply(), Some(11));
    assert_eq!(cell.state(), ReplyState::Taken);
    assert_eq!(cell.take_reply(), None);
    assert!(matches!(cell.send(13), SendOutcome::Discarded(13)));
}

#[test]
fn reply_after_abandoned_wait_is_a_silent_no_op() {
    let mut ch: KChannel<Envelope<u8, u32>> = KChannel::new(2);
    assert!(ch.try_enqueue(Envelope::new(42)).is_ok());

    // The service picks the request up...
    let (mut env, _wake) = ch.try_dequeue().unwrap();
    assert_eq!(*env.payload(), 42);

    // ...but the requester has meanwhile dropped its future.
    env.abandon();

    // The late reply does not panic and is silently discarded.
    assert!(matches!(env.reply_with(1000), SendOutcome::Discarded(1000)));
    assert_eq!(env.take_reply(), None);

    // The queue is intact and keeps working.
    assert_eq!(ch.len(), 0);
    assert!(ch.try_enqueue(Envelope::new(43)).is_ok());
    let (mut env2, _) = ch.try_dequeue().unwrap();
    assert!(matches!(env2.reply_with(7), SendOutcome::Delivered));
    assert_eq!(env2.take_reply(), Some(7));
}

#[test]
fn abandoning_after_delivery_drops_the_reply() {
    let mut env: Envelope<&'static str, u8> = Envelope::new("ping");
    assert!(matches!(env.reply_with(1), SendOutcome::Delivered));
    // The requester walks away without collecting: the reply comes back
    // out to be dropped, and nothing can be delivered afterwards.
    assert_eq!(env.abandon(), Some(1));
    assert!(matches!(env.reply_with(2), SendOutcome::Discarded(2)));
}
