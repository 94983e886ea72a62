use mnemos_core::ring::{RingBuffer, RingError};

#[test]
fn one_frame_through_a_large_ring() {
    let mut ring = RingBuffer::new(4096, 0);
    let (prod, cons) = ring.split().unwrap();

    ring.grant(&prod, 4).unwrap();
    ring.grant_write(&prod, &[1, 2, 3, 4]);
    ring.commit(&prod, 4);

    // The consumer observes exactly the committed bytes, and a repeated
    // read sees the same frame.
    assert_eq!(ring.read(&cons).unwrap().as_slice(), &[1, 2, 3, 4]);
    assert_eq!(ring.read(&cons).unwrap().as_slice(), &[1, 2, 3, 4]);

    ring.release(&cons);
    assert!(ring.read(&cons).is_none());

    // The released bytes are grantable again, up to the full capacity.
    assert_eq!(ring.free_space(), 4096);
    ring.grant(&prod, 4096).unwrap();
}

#[test]
fn grant_fails_exactly_when_space_is_short() {
    let mut ring = RingBuffer::new(8, 1);
    let (prod, cons) = ring.split().unwrap();

    assert_eq!(ring.grant(&prod, 9), Err(RingError::Exhausted));
    ring.grant(&prod, 5).unwrap();
    // Only one reservation may be outstanding.
    assert_eq!(ring.grant(&prod, 1), Err(RingError::GrantInProgress));

    // Committing three of the five granted bytes discards the remainder.
    ring.grant_write(&prod, &[7, 8, 9, 0, 0]);
    ring.commit(&prod, 3);
    assert_eq!(ring.free_space(), 5);
    assert_eq!(ring.grant(&prod, 6), Err(RingError::Exhausted));
    ring.grant(&prod, 5).unwrap();
    ring.commit(&prod, 0);

    assert_eq!(ring.read(&cons).unwrap().as_slice(), &[7, 8, 9]);
    ring.release(&cons);
    assert_eq!(ring.free_space(), 8);
}

#[test]
fn halves_are_taken_exactly_once() {
    let mut ring = RingBuffer::new(16, 2);
    let _prod = ring.take_producer().unwrap();
    assert!(matches!(ring.take_producer(), Err(RingError::HalfTaken)));
    assert!(matches!(ring.split(), Err(RingError::HalfTaken)));
    let _cons = ring.take_consumer().unwrap();
    assert!(matches!(ring.take_consumer(), Err(RingError::HalfTaken)));
}

#[test]
fn frames_arrive_in_commit_order_without_loss() {
    let mut ring = RingBuffer::new(64, 3);
    let (prod, cons) = ring.split().unwrap();

    // Three frames committed back to back...
    for k in 0..3u8 {
        ring.grant(&prod, 2).unwrap();
        ring.grant_write(&prod, &[k, k + 10]);
        ring.commit(&prod, 2);
    }
    assert_eq!(ring.frame_count(), 3);

    // ...are read in exactly that order, none lost, none duplicated.
    for k in 0..3u8 {
        assert_eq!(ring.read(&cons).unwrap().as_slice(), &[k, k + 10]);
        ring.release(&cons);
    }
    assert!(ring.read(&cons).is_none());

    // Driving grant, commit, read, release repeatedly loses nothing either.
    for round in 0..20u8 {
        ring.grant(&prod, 3).unwrap();
        ring.grant_write(&prod, &[round, round, round]);
        ring.commit(&prod, 3);
        assert_eq!(ring.read(&cons).unwrap().as_slice(), &[round, round, round]);
        ring.release(&cons);
        assert_eq!(ring.frame_count(), 0);
        assert_eq!(ring.free_space(), 64);
    }
}

#[test]
fn partial_writes_fill_a_prefix_and_keep_the_rest() {
    let mut ring = RingBuffer::new(8, 4);
    let (prod, cons) = ring.split().unwrap();

    // Write a 2-byte record into a 4-byte reservation: the remainder keeps
    // its zero fill, and committing 3 publishes exactly that prefix.
    ring.grant(&prod, 4).unwrap();
    ring.grant_write(&prod, &[7, 8]);
    ring.commit(&prod, 3);
    assert_eq!(ring.read(&cons).unwrap().as_slice(), &[7, 8, 0]);
    ring.release(&cons);

    // A later write touches only its own prefix of the reservation.
    ring.grant(&prod, 4).unwrap();
    ring.grant_write(&prod, &[1, 2, 3, 4]);
    ring.grant_write(&prod, &[9]);
    ring.commit(&prod, 4);
    assert_eq!(ring.read(&cons).unwrap().as_slice(), &[9, 2, 3, 4]);
}

#[test]
fn fresh_grant_starts_zero_filled() {
    let mut ring = RingBuffer::new(8, 1);
    let (prod, cons) = ring.split().unwrap();
    ring.grant(&prod, 4).unwrap();
    ring.commit(&prod, 4);
    assert_eq!(ring.read(&cons).unwrap().as_slice(), &[0, 0, 0, 0]);
}
