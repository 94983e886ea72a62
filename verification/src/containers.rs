//! Owned container shapes layered on the kernel heap.
//!
//! Four shapes are provided, mirroring what kernel code builds out of the
//! allocator: an exclusively-owned box ([`Box`]), a reference-counted shared
//! cell ([`Arc`]), a raw fixed-length array ([`ArrayBuf`]), and a
//! capacity-bounded vector that never reallocates ([`FixedVec`]).
//!
//! The box, array and vector draw their backing bytes from a [`Heap`]: each
//! non-suspending constructor takes the heap and the byte size the layout
//! asks for, fails immediately — handing the value back and leaving the
//! heap untouched — exactly when that many bytes are not free, and records
//! the granted [`Block`] inside the container as its deallocation
//! obligation. The matching `free` operation returns the bytes to the heap
//! and hands back the wake tokens its wake pass released. A caller that
//! would rather suspend than fail parks with [`Heap::allocate`] on the same
//! size and retries the constructor once its token is invoked.
//!
//! The reference-counted cell is modelled sequentially: the strong and weak
//! counters live beside the value, and every count transition is an explicit
//! verified operation, so the free-at-zero discipline is checked rather than
//! trusted.

use crate::heap::{wake_rest, wake_tokens, Block, Heap};
use vstd::pervasive::VecAdditionalExecFns;
use vstd::prelude::*;

verus! {

//
// Arc
//

/// A reference-counted shared cell: one value colocated with its strong and
/// weak counters.
///
/// Each handle that exists in the wider system corresponds to one unit of
/// the strong count; handing a handle across a boundary where it cannot be
/// tracked is done by moving the count explicitly with
/// [`Arc::increment_strong_count`] and [`Arc::release`]. The value is freed
/// (returned by [`Arc::release`]) exactly when the strong count goes from
/// one to zero; weak references never force a free and never extend the
/// value's life.
pub struct Arc<T> {
    value: Option<T>,
    strong: u64,
    weak: u64,
}

impl<T> Arc<T> {
    /// The current strong count.
    pub closed spec fn strong_count_spec(self) -> u64 {
        self.strong
    }

    /// The current weak count.
    pub closed spec fn weak_count_spec(self) -> u64 {
        self.weak
    }

    /// Whether the storage still holds the value.
    pub closed spec fn is_live_spec(self) -> bool {
        self.value is Some
    }

    /// The value held, if still live.
    pub closed spec fn value_spec(self) -> Option<T> {
        self.value
    }

    /// Well-formed: storage is live exactly while strong handles remain.
    pub closed spec fn wf(self) -> bool {
        self.value is Some <==> self.strong > 0
    }

    /// Allocate a new reference-counted cell holding `t`.
    ///
    /// The error case is the shape reserved for a failed allocation; this
    /// cell is created in place, so the call always succeeds.
    pub fn try_new(t: T) -> (r: Result<Arc<T>, T>)
        ensures
            r matches Ok(a) && a.wf() && a.value_spec() == Some(t) && a.strong_count_spec() == 1
                && a.weak_count_spec() == 0,
    {
        Ok(Arc { value: Some(t), strong: 1, weak: 0 })
    }

    /// The current strong count.
    pub fn strong_count(&self) -> (r: u64)
        ensures
            r == self.strong_count_spec(),
    {
        self.strong
    }

    /// The current weak count.
    pub fn weak_count(&self) -> (r: u64)
        ensures
            r == self.weak_count_spec(),
    {
        self.weak
    }

    /// Whether the storage still holds the value.
    pub fn is_live(&self) -> (r: bool)
        ensures
            r == self.is_live_spec(),
    {
        self.value.is_some()
    }

    /// Borrow the shared value.
    pub fn peek(&self) -> (r: &T)
        requires
            self.wf(),
            self.strong_count_spec() > 0,
        ensures
            self.value_spec() == Some(*r),
    {
        match &self.value {
            Some(v) => v,
            None => vstd::pervasive::unreached(),
        }
    }

    /// Record one more strong handle, as when a handle is cloned or a raw
    /// pointer to the cell is handed out without dropping the original.
    ///
    /// Requires a live handle to count from, so the storage is live and
    /// stays live.
    pub fn increment_strong_count(&mut self)
        requires
            old(self).wf(),
            old(self).strong_count_spec() > 0,
            old(self).strong_count_spec() < u64::MAX,
        ensures
            final(self).wf(),
            final(self).strong_count_spec() == old(self).strong_count_spec() + 1,
            final(self).weak_count_spec() == old(self).weak_count_spec(),
            final(self).value_spec() == old(self).value_spec(),
    {
        self.strong = self.strong + 1;
    }

    /// Drop one strong handle.
    ///
    /// Frees and returns the value exactly when this was the last strong
    /// handle (the count goes from one to zero); otherwise the value stays
    /// in place and `None` comes back. The weak count is untouched either
    /// way.
    pub fn release(&mut self) -> (r: Option<T>)
        requires
            old(self).wf(),
            old(self).strong_count_spec() > 0,
        ensures
            final(self).wf(),
            final(self).strong_count_spec() == old(self).strong_count_spec() - 1,
            final(self).weak_count_spec() == old(self).weak_count_spec(),
            old(self).strong_count_spec() == 1 ==> r == old(self).value_spec()
                && r is Some && !final(self).is_live_spec(),
            old(self).strong_count_spec() > 1 ==> r is None
                && final(self).value_spec() == old(self).value_spec(),
    {
        self.strong = self.strong - 1;
        if self.strong == 0 {
            self.value.take()
        } else {
            None
        }
    }

    /// Record one more weak handle. Weak handles never keep the value alive.
    pub fn downgrade(&mut self)
        requires
            old(self).weak_count_spec() < u64::MAX,
        ensures
            final(self).weak_count_spec() == old(self).weak_count_spec() + 1,
            final(self).strong_count_spec() == old(self).strong_count_spec(),
            final(self).value_spec() == old(self).value_spec(),
            final(self).wf() == old(self).wf(),
    {
        self.weak = self.weak + 1;
    }

    /// Drop one weak handle. Weak handles never force a free: the value and
    /// the strong count are untouched.
    pub fn release_weak(&mut self)
        requires
            old(self).weak_count_spec() > 0,
        ensures
            final(self).weak_count_spec() == old(self).weak_count_spec() - 1,
            final(self).strong_count_spec() == old(self).strong_count_spec(),
            final(self).value_spec() == old(self).value_spec(),
            final(self).wf() == old(self).wf(),
    {
        self.weak = self.weak - 1;
    }
}

/// Law: a shared cell's storage is live exactly while its strong count is
/// nonzero. Together with the contract of [`Arc::release`] — which hands the
/// value out exactly at the one-to-zero transition and leaves it in place on
/// every other transition — the storage is freed exactly once, never
/// earlier and never a second time, and no weak operation changes liveness.
pub proof fn lemma_shared_storage_freed_at_zero<T>(a: Arc<T>)
    requires
        a.wf(),
    ensures
        a.is_live_spec() <==> a.strong_count_spec() > 0,
{
}

//
// Box
//

/// An exclusively-owned heap value: the value together with its
/// deallocation obligation, the [`Block`] its constructor drew from the
/// heap.
///
/// Exactly one owner exists at a time; the owner may decompose the box into
/// a raw part and later reconstruct it, which models handing a pointer
/// across a boundary and taking it back unchanged, and must eventually
/// return the block with [`Box::free`].
pub struct Box<T> {
    value: T,
    block: Block,
}

/// The raw, caller-managed form of a [`Box`]: ownership of the value and of
/// the deallocation obligation without the container, as when a pointer is
/// leaked to a foreign domain.
///
/// The holder must hand it back through [`Box::from_raw`] exactly once to
/// restore the owned form.
pub struct RawBox<T> {
    value: T,
    block: Block,
}

impl<T> Box<T> {
    /// The value owned.
    pub closed spec fn value_spec(self) -> T {
        self.value
    }

    /// The heap block backing the value: the deallocation obligation.
    pub closed spec fn block_spec(self) -> Block {
        self.block
    }

    /// Attempt to allocate a new owned value, drawing `size` bytes — the
    /// value's layout size — from `heap`.
    ///
    /// Fails immediately, handing the value back with the heap untouched,
    /// exactly when `size` bytes are not free right now; it never suspends.
    /// A caller that can suspend parks with [`Heap::allocate`] instead and
    /// retries once woken.
    pub fn try_new(heap: &mut Heap, size: usize, t: T) -> (r: Result<Box<T>, T>)
        requires
            old(heap).wf(),
            old(heap).ids_used_spec() < u64::MAX,
        ensures
            final(heap).wf(),
            final(heap).capacity_spec() == old(heap).capacity_spec(),
            final(heap).waiters_spec() == old(heap).waiters_spec(),
            size > old(heap).free_spec() ==> r == Err::<Box<T>, T>(t) && *final(heap) == *old(
                heap,
            ),
            size <= old(heap).free_spec() ==> (r matches Ok(b)
                && b.value_spec() == t
                && b.block_spec().size == size
                && !old(heap).is_live_id(b.block_spec().id)
                && final(heap).has_block(b.block_spec())
                && final(heap).live_spec() == old(heap).live_spec().push(b.block_spec())
                && final(heap).used_spec() == old(heap).used_spec() + size
                && final(heap).ids_used_spec() == old(heap).ids_used_spec() + 1),
            forall|b2: Block| old(heap).has_block(b2) ==> final(heap).has_block(b2),
    {
        match heap.try_allocate(size) {
            Ok(block) => Ok(Box { value: t, block }),
            Err(_) => Err(t),
        }
    }

    /// Return the backing block to the heap and hand the value out.
    ///
    /// The heap's wake pass runs as for any deallocation; the woken tokens
    /// come back with the value.
    pub fn free(self, heap: &mut Heap) -> (r: (T, Vec<u64>))
        requires
            old(heap).wf(),
            old(heap).has_block(self.block_spec()),
        ensures
            final(heap).wf(),
            final(heap).capacity_spec() == old(heap).capacity_spec(),
            final(heap).ids_used_spec() == old(heap).ids_used_spec(),
            r.0 == self.value_spec(),
            final(heap).used_spec() == old(heap).used_spec() - self.block_spec().size,
            !final(heap).is_live_id(self.block_spec().id),
            forall|b2: Block|
                b2.id != self.block_spec().id ==> (final(heap).has_block(b2) <==> old(
                    heap,
                ).has_block(b2)),
            r.1@ == wake_tokens(
                old(heap).waiters_spec(),
                old(heap).capacity_spec() - (old(heap).used_spec() - self.block_spec().size),
            ),
            final(heap).waiters_spec() == wake_rest(
                old(heap).waiters_spec(),
                old(heap).capacity_spec() - (old(heap).used_spec() - self.block_spec().size),
            ),
    {
        let woken = heap.deallocate(self.block);
        (self.value, woken)
    }

    /// Decompose into the raw form, keeping the value and the obligation
    /// intact.
    pub fn into_raw(me: Box<T>) -> (r: RawBox<T>)
        ensures
            r.value_spec() == me.value_spec(),
            r.block_spec() == me.block_spec(),
    {
        RawBox { value: me.value, block: me.block }
    }

    /// Reconstruct from the raw form. Round-tripping through
    /// [`Box::into_raw`] gives back a box owning the same value and the
    /// same block.
    pub fn from_raw(raw: RawBox<T>) -> (r: Box<T>)
        ensures
            r.value_spec() == raw.value_spec(),
            r.block_spec() == raw.block_spec(),
    {
        Box { value: raw.value, block: raw.block }
    }

    /// Convert to a regular allocator box holding the same value.
    ///
    /// The deallocation obligation does not disappear: the backing block
    /// comes back alongside and must still be returned to the heap.
    pub fn into_alloc_box(self) -> (r: (std::boxed::Box<T>, Block))
        ensures
            *r.0 == self.value_spec(),
            r.1 == self.block_spec(),
    {
        (std::boxed::Box::new(self.value), self.block)
    }

    /// Borrow the owned value.
    pub fn as_ref(&self) -> (r: &T)
        ensures
            *r == self.value_spec(),
    {
        &self.value
    }

    /// Borrow the owned value mutably.
    pub fn as_mut(&mut self) -> (r: &mut T)
        ensures
            *r == old(self).value_spec(),
            final(self).value_spec() == *final(r),
            final(self).block_spec() == old(self).block_spec(),
    {
        &mut self.value
    }
}

impl<T> RawBox<T> {
    /// The value owned through the raw form.
    pub closed spec fn value_spec(self) -> T {
        self.value
    }

    /// The heap block backing the value: the deallocation obligation.
    pub closed spec fn block_spec(self) -> Block {
        self.block
    }
}

//
// ArrayBuf
//

/// An owned array of `len` possibly-uninitialized slots, backed by a heap
/// block.
///
/// This is a low-level building block for structures that want to own a
/// fixed number of slots and manage their own initialization discipline,
/// such as ring buffers. The length is fixed at construction and is never
/// zero; the backing block must eventually go back to the heap through
/// [`ArrayBuf::free`].
pub struct ArrayBuf<T> {
    slots: Vec<Option<T>>,
    block: Block,
}

impl<T> ArrayBuf<T> {
    /// The slots, uninitialized ones as `None`.
    pub closed spec fn view(self) -> Seq<Option<T>> {
        self.slots@
    }

    /// The heap block backing the slots: the deallocation obligation.
    pub closed spec fn block_spec(self) -> Block {
        self.block
    }

    /// Well-formed: a zero-length buffer is never constructed.
    pub closed spec fn wf(self) -> bool {
        self.slots@.len() > 0
    }

    /// Try to allocate a buffer of `len` uninitialized slots of
    /// `elem_size` bytes each, drawing `len * elem_size` bytes from
    /// `heap`.
    ///
    /// Fails immediately with the heap untouched exactly when that many
    /// bytes are not free; it never suspends. A zero length, or a byte
    /// size no layout could represent, is a construction error and is
    /// excluded.
    pub fn try_new_uninit(heap: &mut Heap, len: usize, elem_size: usize) -> (r: Option<
        ArrayBuf<T>,
    >)
        requires
            old(heap).wf(),
            old(heap).ids_used_spec() < u64::MAX,
            len > 0,
            len * elem_size <= usize::MAX,
        ensures
            final(heap).wf(),
            final(heap).capacity_spec() == old(heap).capacity_spec(),
            final(heap).waiters_spec() == old(heap).waiters_spec(),
            len * elem_size > old(heap).free_spec() ==> r is None && *final(heap) == *old(heap),
            len * elem_size <= old(heap).free_spec() ==> (r matches Some(b)
                && b.wf()
                && b@.len() == len
                && (forall|i: int| 0 <= i < len ==> b@[i] is None)
                && b.block_spec().size == len * elem_size
                && final(heap).has_block(b.block_spec())
                && final(heap).used_spec() == old(heap).used_spec() + len * elem_size),
            forall|b2: Block| old(heap).has_block(b2) ==> final(heap).has_block(b2),
    {
        let size: usize = len * elem_size;
        let block = match heap.try_allocate(size) {
            Ok(block) => block,
            Err(_) => {
                return None;
            },
        };
        let mut slots: Vec<Option<T>> = Vec::new();
        for k in 0..len
            invariant
                slots@.len() == k,
                forall|i: int| 0 <= i < k ==> slots@[i] is None,
        {
            slots.push(None);
        }
        Some(ArrayBuf { slots, block })
    }

    /// Return the backing block to the heap, dropping the slots.
    ///
    /// The heap's wake pass runs as for any deallocation and its woken
    /// tokens are handed back.
    pub fn free(self, heap: &mut Heap) -> (woken: Vec<u64>)
        requires
            old(heap).wf(),
            old(heap).has_block(self.block_spec()),
        ensures
            final(heap).wf(),
            final(heap).capacity_spec() == old(heap).capacity_spec(),
            final(heap).ids_used_spec() == old(heap).ids_used_spec(),
            final(heap).used_spec() == old(heap).used_spec() - self.block_spec().size,
            !final(heap).is_live_id(self.block_spec().id),
            forall|b2: Block|
                b2.id != self.block_spec().id ==> (final(heap).has_block(b2) <==> old(
                    heap,
                ).has_block(b2)),
            woken@ == wake_tokens(
                old(heap).waiters_spec(),
                old(heap).capacity_spec() - (old(heap).used_spec() - self.block_spec().size),
            ),
            final(heap).waiters_spec() == wake_rest(
                old(heap).waiters_spec(),
                old(heap).capacity_spec() - (old(heap).used_spec() - self.block_spec().size),
            ),
    {
        heap.deallocate(self.block)
    }

    /// The storage and the number of slots, without giving up ownership.
    pub fn ptrlen(&self) -> (r: (&[Option<T>], usize))
        ensures
            r.0@ == self@,
            r.1 == self@.len(),
    {
        (self.slots.as_slice(), self.slots.len())
    }

    /// The fixed number of slots.
    pub fn len(&self) -> (r: usize)
        ensures
            r == self@.len(),
    {
        self.slots.len()
    }

    /// Initialize or overwrite one slot.
    pub fn write(&mut self, idx: usize, t: T)
        requires
            idx < old(self)@.len(),
        ensures
            final(self)@ == old(self)@.update(idx as int, Some(t)),
            final(self).block_spec() == old(self).block_spec(),
    {
        self.slots.set(idx, Some(t));
    }

    /// Move the contents of one slot out, leaving it uninitialized.
    pub fn take(&mut self, idx: usize) -> (r: Option<T>)
        requires
            idx < old(self)@.len(),
        ensures
            r == old(self)@[idx as int],
            final(self)@ == old(self)@.update(idx as int, None),
            final(self).block_spec() == old(self).block_spec(),
    {
        let mut slot: Option<T> = None;
        self.slots.set_and_swap(idx, &mut slot);
        slot
    }
}

//
// FixedVec
//

/// A `Vec` with a fixed upper size, chosen once at construction, backed by
/// a heap block.
///
/// Works like an ordinary vector, except that it will never reallocate to
/// grow: pushes beyond the capacity are rejected and leave the contents
/// untouched. Holders of views into the storage therefore stay valid for as
/// long as the capacity is respected. The backing block must eventually go
/// back to the heap through [`FixedVec::free`].
pub struct FixedVec<T> {
    inner: Vec<T>,
    capacity: usize,
    block: Block,
}

impl<T> FixedVec<T> {
    /// The sequence of elements currently held.
    pub closed spec fn view(self) -> Seq<T> {
        self.inner@
    }

    /// The fixed capacity chosen at construction.
    pub closed spec fn capacity_spec(self) -> usize {
        self.capacity
    }

    /// The heap block backing the storage: the deallocation obligation.
    pub closed spec fn block_spec(self) -> Block {
        self.block
    }

    /// Well-formed: the contents never exceed the fixed capacity.
    pub closed spec fn wf(self) -> bool {
        self.inner@.len() <= self.capacity
    }

    /// Try to allocate a FixedVec with storage for up to `capacity` items
    /// of `elem_size` bytes each, drawing `capacity * elem_size` bytes
    /// from `heap`.
    ///
    /// Fails immediately with the heap untouched exactly when that many
    /// bytes are not free; it never suspends. A zero capacity, or a byte
    /// size no layout could represent, is a construction error and is
    /// excluded.
    pub fn try_new(heap: &mut Heap, capacity: usize, elem_size: usize) -> (r: Option<FixedVec<T>>)
        requires
            old(heap).wf(),
            old(heap).ids_used_spec() < u64::MAX,
            capacity > 0,
            capacity * elem_size <= usize::MAX,
        ensures
            final(heap).wf(),
            final(heap).capacity_spec() == old(heap).capacity_spec(),
            final(heap).waiters_spec() == old(heap).waiters_spec(),
            capacity * elem_size > old(heap).free_spec() ==> r is None && *final(heap) == *old(
                heap,
            ),
            capacity * elem_size <= old(heap).free_spec() ==> (r matches Some(v)
                && v.wf()
                && v.capacity_spec() == capacity
                && v@ == Seq::<T>::empty()
                && v.block_spec().size == capacity * elem_size
                && final(heap).has_block(v.block_spec())
                && final(heap).used_spec() == old(heap).used_spec() + capacity * elem_size),
            forall|b2: Block| old(heap).has_block(b2) ==> final(heap).has_block(b2),
    {
        let size: usize = capacity * elem_size;
        match heap.try_allocate(size) {
            Ok(block) => Some(FixedVec { inner: Vec::new(), capacity, block }),
            Err(_) => None,
        }
    }

    /// Return the backing block to the heap, dropping the contents.
    ///
    /// The heap's wake pass runs as for any deallocation and its woken
    /// tokens are handed back.
    pub fn free(self, heap: &mut Heap) -> (woken: Vec<u64>)
        requires
            old(heap).wf(),
            old(heap).has_block(self.block_spec()),
        ensures
            final(heap).wf(),
            final(heap).capacity_spec() == old(heap).capacity_spec(),
            final(heap).ids_used_spec() == old(heap).ids_used_spec(),
            final(heap).used_spec() == old(heap).used_spec() - self.block_spec().size,
            !final(heap).is_live_id(self.block_spec().id),
            forall|b2: Block|
                b2.id != self.block_spec().id ==> (final(heap).has_block(b2) <==> old(
                    heap,
                ).has_block(b2)),
            woken@ == wake_tokens(
                old(heap).waiters_spec(),
                old(heap).capacity_spec() - (old(heap).used_spec() - self.block_spec().size),
            ),
            final(heap).waiters_spec() == wake_rest(
                old(heap).waiters_spec(),
                old(heap).capacity_spec() - (old(heap).used_spec() - self.block_spec().size),
            ),
    {
        heap.deallocate(self.block)
    }

    /// Attempt to push an item, handing it back if the vector is full.
    ///
    /// A vector holding fewer items than its capacity always accepts the
    /// push; a full one rejects it without mutating length or contents.
    /// The storage never moves either way.
    pub fn try_push(&mut self, t: T) -> (r: Result<(), T>)
        requires
            old(self).wf(),
        ensures
            final(self).wf(),
            final(self).capacity_spec() == old(self).capacity_spec(),
            final(self).block_spec() == old(self).block_spec(),
            old(self)@.len() < old(self).capacity_spec() ==> r == Ok::<(), T>(())
                && final(self)@ == old(self)@.push(t),
            old(self)@.len() == old(self).capacity_spec() ==> r == Err::<(), T>(t)
                && final(self)@ == old(self)@,
    {
        if self.is_full() {
            Err(t)
        } else {
            self.inner.push(t);
            Ok(())
        }
    }

    /// Attempt to append every element of a slice.
    ///
    /// Fails atomically: if the slice would not fit in the remaining
    /// capacity, nothing is copied and the contents are unchanged.
    pub fn try_extend_from_slice(&mut self, sli: &[T]) -> (r: Result<(), ()>) where T: Clone
        requires
            old(self).wf(),
        ensures
            final(self).wf(),
            final(self).capacity_spec() == old(self).capacity_spec(),
            final(self).block_spec() == old(self).block_spec(),
            old(self)@.len() + sli@.len() > old(self).capacity_spec() ==> r == Err::<(), ()>(())
                && final(self)@ == old(self)@,
            old(self)@.len() + sli@.len() <= old(self).capacity_spec() ==> r == Ok::<(), ()>(())
                && final(self)@.len() == old(self)@.len() + sli@.len()
                && (forall|i: int| 0 <= i < old(self)@.len() ==> final(self)@[i] == old(self)@[i])
                && (forall|i: int|
                    old(self)@.len() <= i < final(self)@.len()
                        ==> cloned::<T>(sli@[i - old(self)@.len()], #[trigger] final(self)@[i])),
    {
        let new_len = match self.inner.len().checked_add(sli.len()) {
            Some(c) => c,
            None => {
                return Err(());
            },
        };
        if new_len > self.capacity {
            return Err(());
        }
        self.inner.extend_from_slice(sli);
        Ok(())
    }

    /// Borrow the underlying vector.
    pub fn as_vec(&self) -> (r: &Vec<T>)
        ensures
            r@ == self@,
    {
        &self.inner
    }

    /// Borrow the current contents.
    pub fn as_slice(&self) -> (r: &[T])
        ensures
            r@ == self@,
    {
        self.inner.as_slice()
    }

    /// Borrow the current contents mutably.
    ///
    /// A slice cannot change length, so element-wise updates through it keep
    /// the vector within its capacity.
    pub fn as_slice_mut(&mut self) -> (r: &mut [T])
        requires
            old(self).wf(),
        ensures
            r@ == old(self)@,
            final(self)@ == final(r)@,
            final(self).capacity_spec() == old(self).capacity_spec(),
            final(self).block_spec() == old(self).block_spec(),
            final(r)@.len() == old(self)@.len() ==> final(self).wf(),
    {
        self.inner.as_mut_slice()
    }

    /// Clear the contents; the capacity and the backing storage are
    /// retained.
    pub fn clear(&mut self)
        ensures
            final(self).wf(),
            final(self)@ == Seq::<T>::empty(),
            final(self).capacity_spec() == old(self).capacity_spec(),
            final(self).block_spec() == old(self).block_spec(),
    {
        self.inner.clear();
    }

    /// Is the vector holding as many items as its capacity allows?
    pub fn is_full(&self) -> (r: bool)
        ensures
            r <==> self@.len() == self.capacity_spec(),
    {
        self.inner.len() == self.capacity
    }
}

} // verus!
