use mnemos_core::containers::{Arc, ArrayBuf, Box, FixedVec};
use mnemos_core::heap::{AllocOutcome, Heap};

#[test]
fn box_construction_draws_from_the_heap() {
    let mut heap = Heap::new(1024);

    // 600 of 1024 bytes go to the first box.
    let first = Box::try_new(&mut heap, 600, 11u32).unwrap();
    assert_eq!(*first.as_ref(), 11);
    assert_eq!(heap.used_space(), 600);
    assert_eq!(heap.free_space(), 424);

    // Only 424 bytes remain: a second 600-byte box fails immediately,
    // hands the value back, and leaves the heap untouched.
    match Box::try_new(&mut heap, 600, 22u32) {
        Err(value) => assert_eq!(value, 22),
        Ok(_) => panic!("424 free bytes cannot back a 600-byte box"),
    }
    assert_eq!(heap.used_space(), 600);
    assert_eq!(heap.free_space(), 424);

    // Freeing the first box returns exactly its 600 bytes...
    let (value, woken) = first.free(&mut heap);
    assert_eq!(value, 11);
    assert!(woken.is_empty());
    assert_eq!(heap.used_space(), 0);

    // ...and the same construction now succeeds.
    let second = Box::try_new(&mut heap, 600, 22u32).unwrap();
    assert_eq!(*second.as_ref(), 22);
    assert_eq!(heap.used_space(), 600);
}

#[test]
fn container_accounting_stays_within_capacity() {
    let mut heap = Heap::new(256);
    let boxed = Box::try_new(&mut heap, 100, 1u8).unwrap();
    let vec: FixedVec<u8> = FixedVec::try_new(&mut heap, 100, 1).unwrap();
    assert_eq!(heap.used_space(), 200);

    // 56 bytes left: an ArrayBuf needing 64 is refused with nothing
    // changed, so the outstanding total never exceeds the capacity.
    assert!(ArrayBuf::<u32>::try_new_uninit(&mut heap, 16, 4).is_none());
    assert_eq!(heap.used_space(), 200);

    let buf: ArrayBuf<u8> = ArrayBuf::try_new_uninit(&mut heap, 56, 1).unwrap();
    assert_eq!(heap.used_space(), 256);
    assert_eq!(heap.free_space(), 0);

    // Each free returns exactly the size drawn at construction.
    buf.free(&mut heap);
    assert_eq!(heap.used_space(), 200);
    vec.free(&mut heap);
    assert_eq!(heap.used_space(), 100);
    boxed.free(&mut heap);
    assert_eq!(heap.used_space(), 0);
}

#[test]
fn fixed_vec_accepts_exactly_its_capacity() {
    let mut heap = Heap::new(64);
    let mut v: FixedVec<u32> = FixedVec::try_new(&mut heap, 4, 4).unwrap();
    for k in 0..4u32 {
        assert_eq!(v.try_push(k), Ok(()));
    }
    // The fifth push is rejected without mutating length or contents.
    assert_eq!(v.try_push(99), Err(99));
    assert_eq!(v.as_slice(), &[0, 1, 2, 3]);
    assert!(v.is_full());
}

#[test]
fn fixed_vec_extend_fails_atomically() {
    let mut heap = Heap::new(64);
    let mut v: FixedVec<u8> = FixedVec::try_new(&mut heap, 4, 1).unwrap();
    v.try_push(1).unwrap();
    v.try_push(2).unwrap();
    // Three more would overflow the capacity: nothing is copied.
    assert_eq!(v.try_extend_from_slice(&[7, 8, 9]), Err(()));
    assert_eq!(v.as_slice(), &[1, 2]);
    // Two fit exactly.
    assert_eq!(v.try_extend_from_slice(&[7, 8]), Ok(()));
    assert_eq!(v.as_slice(), &[1, 2, 7, 8]);
    assert!(v.is_full());
}

#[test]
fn fixed_vec_clear_keeps_capacity() {
    let mut heap = Heap::new(64);
    let mut v: FixedVec<u8> = FixedVec::try_new(&mut heap, 2, 1).unwrap();
    v.try_push(5).unwrap();
    v.try_push(6).unwrap();
    assert!(v.is_full());
    v.clear();
    assert_eq!(v.as_vec().len(), 0);
    assert!(!v.is_full());
    // The capacity survives a clear: two more pushes fit, a third does not.
    assert_eq!(v.try_push(7), Ok(()));
    assert_eq!(v.try_push(8), Ok(()));
    assert_eq!(v.try_push(9), Err(9));
    // Clearing released no heap bytes: the storage is retained.
    assert_eq!(heap.used_space(), 2);
}

#[test]
fn fixed_vec_slice_access() {
    let mut heap = Heap::new(64);
    let mut v: FixedVec<u8> = FixedVec::try_new(&mut heap, 3, 1).unwrap();
    v.try_extend_from_slice(&[1, 2, 3]).unwrap();
    assert_eq!(v.as_vec(), &vec![1, 2, 3]);
    let s = v.as_slice_mut();
    s[1] = 20;
    assert_eq!(v.as_slice(), &[1, 20, 3]);
}

#[test]
fn shared_cell_freed_exactly_at_zero() {
    let mut cell: Arc<u32> = Arc::try_new(7).unwrap();
    assert_eq!(cell.strong_count(), 1);
    assert!(cell.is_live());
    assert_eq!(*cell.peek(), 7);

    // A second handle exists: dropping one must not free.
    cell.increment_strong_count();
    assert_eq!(cell.strong_count(), 2);
    assert_eq!(cell.release(), None);
    assert!(cell.is_live());

    // The last handle goes: the value is freed exactly now, exactly once.
    assert_eq!(cell.release(), Some(7));
    assert!(!cell.is_live());
    assert_eq!(cell.strong_count(), 0);
}

#[test]
fn weak_handles_never_force_or_extend_life() {
    let mut cell: Arc<&'static str> = Arc::try_new("shared").unwrap();
    cell.downgrade();
    cell.downgrade();
    assert_eq!(cell.weak_count(), 2);
    assert!(cell.is_live());

    // Weak handles disappearing changes nothing about the value.
    cell.release_weak();
    assert!(cell.is_live());
    assert_eq!(cell.strong_count(), 1);

    // The value dies with the last strong handle even while a weak handle
    // remains, and that weak handle never resurrects it.
    assert_eq!(cell.release(), Some("shared"));
    assert!(!cell.is_live());
    cell.release_weak();
    assert!(!cell.is_live());
    assert_eq!(cell.weak_count(), 0);
}

#[test]
fn box_round_trips_through_raw_form() {
    let mut heap = Heap::new(64);
    let owned: Box<u64> = Box::try_new(&mut heap, 8, 55).unwrap();
    assert_eq!(*owned.as_ref(), 55);
    let raw = Box::into_raw(owned);
    let restored = Box::from_raw(raw);
    assert_eq!(*restored.as_ref(), 55);
    // The obligation survived the round trip: the free returns the bytes.
    assert_eq!(heap.used_space(), 8);
    let (value, _woken) = restored.free(&mut heap);
    assert_eq!(value, 55);
    assert_eq!(heap.used_space(), 0);
}

#[test]
fn box_as_mut_updates_the_value() {
    let mut heap = Heap::new(64);
    let mut owned: Box<u32> = Box::try_new(&mut heap, 4, 1).unwrap();
    *owned.as_mut() = 2;
    assert_eq!(*owned.as_ref(), 2);
    let plain = owned.into_alloc_box();
    assert_eq!(*plain.0, 2);
    // The block handed out with the plain box still owes the heap.
    assert_eq!(plain.1.size, 4);
    assert_eq!(heap.used_space(), 4);
}

#[test]
fn array_buf_owns_uninitialized_slots() {
    let mut heap = Heap::new(64);
    let mut buf: ArrayBuf<u16> = ArrayBuf::try_new_uninit(&mut heap, 3, 2).unwrap();
    assert_eq!(buf.len(), 3);
    assert_eq!(heap.used_space(), 6);
    let (slots, len) = buf.ptrlen();
    assert_eq!(len, 3);
    assert!(slots.iter().all(|s| s.is_none()));

    buf.write(1, 900);
    assert_eq!(buf.take(1), Some(900));
    // Taking again finds the slot uninitialized once more.
    assert_eq!(buf.take(1), None);
    assert_eq!(buf.len(), 3);

    let woken = buf.free(&mut heap);
    assert!(woken.is_empty());
    assert_eq!(heap.used_space(), 0);
}

#[test]
fn freeing_a_container_wakes_a_parked_allocation() {
    let mut heap = Heap::new(1024);
    let big: Box<u8> = Box::try_new(&mut heap, 600, 0).unwrap();

    // A task that can suspend parks instead of failing...
    assert!(matches!(heap.allocate(600, 42), AllocOutcome::Parked));

    // ...and the container's free runs the same wake pass as any
    // deallocation.
    let (_value, woken) = big.free(&mut heap);
    assert_eq!(woken, vec![42]);
    assert!(matches!(heap.allocate(600, 42), AllocOutcome::Ready(_)));
}
