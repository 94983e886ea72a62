//! Bookkeeping for the kernel's fixed-size heap.
//!
//! The heap owns one memory region whose length is fixed at initialization.
//! This module tracks the region's accounting as plain values: the set of
//! live allocations, the bytes they occupy, and a FIFO queue of parked
//! allocation requests. Callers that cannot suspend use
//! [`Heap::try_allocate`]; callers that can, use [`Heap::allocate`] with a
//! wake token from the scheduler, and are parked when space is short. Every
//! deallocation runs a wake pass that picks, in FIFO order, the parked
//! requests that now plausibly fit; a woken task retries its allocation and
//! may park again if a non-suspending caller got there first.
//!
//! Live allocations are identified by tokens ([`Block`]) with ever-fresh
//! ids, so distinct live allocations never overlap by construction.

use vstd::prelude::*;

verus! {

/// Why an allocation request cannot be satisfied.
#[derive(Clone, Copy, PartialEq, Eq, Structural, Debug)]
pub enum AllocError {
    /// Not enough free space right now; a later deallocation may make the
    /// same request succeed.
    Exhausted,
    /// The request is larger than the heap's whole fixed capacity, so no
    /// deallocation could ever satisfy it. Permanent.
    CapacityViolation,
}

/// A live allocation: the token for `size` bytes handed out by the heap.
///
/// The id stands in for the region's address; ids are never reused, so two
/// live blocks never denote overlapping memory.
#[derive(Clone, Copy, PartialEq, Eq, Structural, Debug)]
pub struct Block {
    /// Which allocation this is; fresh for every grant.
    pub id: u64,
    /// How many bytes the matching allocation requested.
    pub size: usize,
}

/// A parked allocation request: the requester's wake token and the size it
/// asked for.
#[derive(Clone, Copy)]
pub struct Waiter {
    /// Scheduler wake token for the parked task.
    pub token: u64,
    /// Bytes the parked request asked for.
    pub size: usize,
}

/// What a suspending allocation did.
pub enum AllocOutcome {
    /// Space was available: the allocation succeeded at once.
    Ready(Block),
    /// Space was short: the request was parked at the back of the FIFO
    /// waiter queue and the task should suspend until woken.
    Parked,
    /// The request exceeds the heap's fixed capacity and can never succeed;
    /// it was not parked.
    Failed(AllocError),
}

/// Total bytes of a sequence of blocks.
pub open spec fn sum_sizes(s: Seq<Block>) -> int
    decreases s.len(),
{
    if s.len() == 0 {
        0
    } else {
        sum_sizes(s.drop_last()) + s.last().size
    }
}

/// The wake tokens released by a wake pass over the FIFO waiter queue
/// `ws` when `avail` bytes are free: waiters are retried in order, each
/// reserving its size, and the pass stops at the first that does not fit.
pub open spec fn wake_tokens(ws: Seq<Waiter>, avail: int) -> Seq<u64>
    decreases ws.len(),
{
    if ws.len() == 0 {
        Seq::empty()
    } else if ws.first().size <= avail {
        seq![ws.first().token] + wake_tokens(ws.drop_first(), avail - ws.first().size)
    } else {
        Seq::empty()
    }
}

/// The waiters still parked after the wake pass described by
/// [`wake_tokens`].
pub open spec fn wake_rest(ws: Seq<Waiter>, avail: int) -> Seq<Waiter>
    decreases ws.len(),
{
    if ws.len() == 0 {
        ws
    } else if ws.first().size <= avail {
        wake_rest(ws.drop_first(), avail - ws.first().size)
    } else {
        ws
    }
}

/// Whether some parked request carries this wake token.
pub open spec fn has_waiter_token(ws: Seq<Waiter>, token: u64) -> bool
    decreases ws.len(),
{
    if ws.len() == 0 {
        false
    } else {
        ws.first().token == token || has_waiter_token(ws.drop_first(), token)
    }
}

/// `ws` with its oldest entry carrying `token` removed; unchanged when no
/// entry carries it.
pub open spec fn remove_first_token(ws: Seq<Waiter>, token: u64) -> Seq<Waiter>
    decreases ws.len(),
{
    if ws.len() == 0 {
        ws
    } else if ws.first().token == token {
        ws.drop_first()
    } else {
        seq![ws.first()] + remove_first_token(ws.drop_first(), token)
    }
}

/// The bookkeeping of one fixed-size heap region.
pub struct Heap {
    capacity: usize,
    used: usize,
    next_id: u64,
    live: Vec<Block>,
    waiters: Vec<Waiter>,
}

impl Heap {
    /// The fixed length of the region, set at initialization.
    pub closed spec fn capacity_spec(self) -> usize {
        self.capacity
    }

    /// Bytes currently allocated.
    pub closed spec fn used_spec(self) -> usize {
        self.used
    }

    /// The live allocations, in allocation order.
    pub closed spec fn live_spec(self) -> Seq<Block> {
        self.live@
    }

    /// The parked requests, oldest first.
    pub closed spec fn waiters_spec(self) -> Seq<Waiter> {
        self.waiters@
    }

    /// How many ids have been handed out; the next block gets this id.
    pub closed spec fn ids_used_spec(self) -> u64 {
        self.next_id
    }

    /// Bytes currently free.
    pub open spec fn free_spec(self) -> int {
        self.capacity_spec() - self.used_spec()
    }

    /// Whether a block with this id is currently allocated.
    pub open spec fn is_live_id(self, id: u64) -> bool {
        exists|i: int| 0 <= i < self.live_spec().len() && self.live_spec()[i].id == id
    }

    /// Whether exactly this block (id and size) is currently allocated.
    pub open spec fn has_block(self, b: Block) -> bool {
        exists|i: int| 0 <= i < self.live_spec().len() && self.live_spec()[i] == b
    }

    /// Well-formed bookkeeping: the used counter is exactly the bytes of
    /// the live blocks and never exceeds the capacity; live ids are
    /// pairwise distinct and below the id watermark; and nothing ever
    /// parked a request that could not fit in an empty heap.
    pub closed spec fn wf(self) -> bool {
        &&& self.used == sum_sizes(self.live@)
        &&& self.used <= self.capacity
        &&& (forall|i: int, j: int|
            0 <= i < j < self.live@.len() ==> self.live@[i].id != self.live@[j].id)
        &&& (forall|i: int| 0 <= i < self.live@.len() ==> #[trigger] self.live@[i].id < self.next_id)
        &&& (forall|i: int|
            0 <= i < self.waiters@.len() ==> #[trigger] self.waiters@[i].size <= self.capacity)
    }

    /// Initialize the bookkeeping for a region of `capacity` bytes. The
    /// capacity never changes afterwards.
    pub fn new(capacity: usize) -> (r: Heap)
        ensures
            r.wf(),
            r.capacity_spec() == capacity,
            r.used_spec() == 0,
            r.live_spec() == Seq::<Block>::empty(),
            r.waiters_spec() == Seq::<Waiter>::empty(),
            r.ids_used_spec() == 0,
    {
        Heap { capacity, used: 0, next_id: 0, live: Vec::new(), waiters: Vec::new() }
    }

    /// Bytes currently allocated.
    pub fn used_space(&self) -> (r: usize)
        ensures
            r == self.used_spec(),
    {
        self.used
    }

    /// Bytes currently free.
    pub fn free_space(&self) -> (r: usize)
        requires
            self.wf(),
        ensures
            r == self.free_spec(),
    {
        self.capacity - self.used
    }

    /// Non-suspending allocation of `size` bytes.
    ///
    /// Succeeds exactly when `size` bytes are free right now. A request
    /// larger than the whole capacity fails permanently with
    /// [`AllocError::CapacityViolation`]; one that merely does not fit
    /// right now fails with [`AllocError::Exhausted`] and may be retried.
    /// Failure leaves the bookkeeping untouched; the waiter queue is never
    /// consulted or changed.
    pub fn try_allocate(&mut self, size: usize) -> (r: Result<Block, AllocError>)
        requires
            old(self).wf(),
            old(self).ids_used_spec() < u64::MAX,
        ensures
            final(self).wf(),
            final(self).capacity_spec() == old(self).capacity_spec(),
            final(self).waiters_spec() == old(self).waiters_spec(),
            size > old(self).capacity_spec() ==> r == Err::<Block, AllocError>(
                AllocError::CapacityViolation,
            ) && *final(self) == *old(self),
            size <= old(self).capacity_spec() && size > old(self).free_spec() ==> r
                == Err::<Block, AllocError>(AllocError::Exhausted) && *final(self) == *old(self),
            size <= old(self).free_spec() ==> (r matches Ok(b)
                && b.size == size
                && b.id == old(self).ids_used_spec()
                && !old(self).is_live_id(b.id)
                && final(self).is_live_id(b.id)
                && final(self).has_block(b)
                && final(self).live_spec() == old(self).live_spec().push(b)
                && final(self).used_spec() == old(self).used_spec() + size
                && final(self).ids_used_spec() == old(self).ids_used_spec() + 1),
            forall|b2: Block| old(self).has_block(b2) ==> final(self).has_block(b2),
    {
        if size > self.capacity {
            Err(AllocError::CapacityViolation)
        } else if size > self.capacity - self.used {
            Err(AllocError::Exhausted)
        } else {
            let ghost pre = *self;
            let b = Block { id: self.next_id, size };
            proof {
                lemma_sum_push(self.live@, b);
                assert(self.live@.push(b).drop_last() =~= self.live@);
                assert(forall|i: int|
                    0 <= i < pre.live@.len() ==> #[trigger] pre.live@[i].id != b.id);
            }
            self.live.push(b);
            self.used = self.used + size;
            self.next_id = self.next_id + 1;
            proof {
                assert(self.live_spec()[self.live_spec().len() - 1].id == b.id);
                assert(self.live_spec()[self.live_spec().len() - 1] == b);
                assert(self.is_live_id(b.id));
                assert(!pre.is_live_id(b.id));
                assert forall|b2: Block| pre.has_block(b2) implies self.has_block(b2) by {
                    let j = choose|j: int|
                        0 <= j < pre.live_spec().len() && pre.live_spec()[j] == b2;
                    assert(self.live_spec()[j] == b2);
                };
            }
            Ok(b)
        }
    }

    /// Suspending allocation of `size` bytes, on behalf of a task whose
    /// scheduler wake token is `token`.
    ///
    /// Tries the non-suspending path first. If space is merely short, the
    /// request is parked at the back of the FIFO waiter queue and the
    /// caller must suspend until the token is invoked by a later
    /// deallocation's wake pass. A request larger than the whole capacity
    /// fails permanently and is never parked.
    pub fn allocate(&mut self, size: usize, token: u64) -> (r: AllocOutcome)
        requires
            old(self).wf(),
            old(self).ids_used_spec() < u64::MAX,
        ensures
            final(self).wf(),
            final(self).capacity_spec() == old(self).capacity_spec(),
            size > old(self).capacity_spec() ==> r == AllocOutcome::Failed(
                AllocError::CapacityViolation,
            ) && *final(self) == *old(self),
            size <= old(self).capacity_spec() && size > old(self).free_spec() ==> r
                == AllocOutcome::Parked && final(self).waiters_spec() == old(self).waiters_spec().push(Waiter { token, size }) && final(self).live_spec() == old(self).live_spec() && final(self).used_spec() == old(self).used_spec() && final(self).ids_used_spec() == old(self).ids_used_spec(),
            size <= old(self).free_spec() ==> (r matches AllocOutcome::Ready(b)
                && b.size == size
                && b.id == old(self).ids_used_spec()
                && !old(self).is_live_id(b.id)
                && final(self).is_live_id(b.id)
                && final(self).has_block(b)
                && final(self).live_spec() == old(self).live_spec().push(b)
                && final(self).used_spec() == old(self).used_spec() + size
                && final(self).ids_used_spec() == old(self).ids_used_spec() + 1
                && final(self).waiters_spec() == old(self).waiters_spec()),
            forall|b2: Block| old(self).has_block(b2) ==> final(self).has_block(b2),
    {
        let r = match self.try_allocate(size) {
            Ok(b) => AllocOutcome::Ready(b),
            Err(AllocError::CapacityViolation) => AllocOutcome::Failed(
                AllocError::CapacityViolation,
            ),
            Err(AllocError::Exhausted) => {
                self.waiters.push(Waiter { token, size });
                AllocOutcome::Parked
            },
        };
        proof {
            assert forall|b2: Block| old(self).has_block(b2) implies self.has_block(b2) by {
                let j = choose|j: int|
                    0 <= j < old(self).live_spec().len() && old(self).live_spec()[j] == b2;
                assert(self.live_spec()[j] == b2);
            };
        }
        r
    }

    /// Return a live block's bytes to the region and run the wake pass.
    ///
    /// Frees exactly the `size` bytes recorded in the block at its matching
    /// allocation. The parked requests are then retried in FIFO order
    /// against the freed-up space: each that plausibly fits is removed from
    /// the queue and its token returned for the scheduler to invoke, and
    /// the pass stops at the first that does not fit.
    pub fn deallocate(&mut self, block: Block) -> (woken: Vec<u64>)
        requires
            old(self).wf(),
            old(self).has_block(block),
        ensures
            final(self).wf(),
            final(self).capacity_spec() == old(self).capacity_spec(),
            final(self).used_spec() == old(self).used_spec() - block.size,
            final(self).ids_used_spec() == old(self).ids_used_spec(),
            !final(self).is_live_id(block.id),
            forall|b2: Block|
                b2.id != block.id ==> (final(self).has_block(b2) <==> old(self).has_block(b2)),
            forall|id: u64|
                id != block.id ==> (final(self).is_live_id(id) <==> old(self).is_live_id(id)),
            exists|i: int|
                0 <= i < old(self).live_spec().len() && old(self).live_spec()[i] == block && final(self).live_spec() == old(self).live_spec().remove(i),
            woken@ == wake_tokens(
                old(self).waiters_spec(),
                old(self).capacity_spec() - (old(self).used_spec() - block.size),
            ),
            final(self).waiters_spec() == wake_rest(
                old(self).waiters_spec(),
                old(self).capacity_spec() - (old(self).used_spec() - block.size),
            ),
    {
        let ghost pre = *self;
        // Find the unique live entry carrying this block's id.
        let mut idx: usize = 0;
        while idx < self.live.len() && self.live[idx].id != block.id
            invariant
                *self == pre,
                0 <= idx <= self.live@.len(),
                forall|j: int| 0 <= j < idx ==> self.live@[j].id != block.id,
            decreases self.live@.len() - idx,
        {
            idx = idx + 1;
        }
        proof {
            let i = choose|i: int|
                0 <= i < pre.live_spec().len() && pre.live_spec()[i] == block;
            assert(idx < self.live@.len());
            assert(self.live@[idx as int] == block);
            lemma_sum_remove(self.live@, idx as int);
            lemma_sum_nonneg(self.live@.remove(idx as int));
        }
        let ghost gidx = idx as int;
        self.live.remove(idx);
        self.used = self.used - block.size;
        proof {
            assert(forall|j: int|
                0 <= j < self.live@.len() ==> #[trigger] self.live@[j].id != block.id);
        }
        // Wake pass: retry parked requests FIFO against the freed-up space.
        let ghost ws0 = self.waiters@;
        let ghost avail0 = self.capacity - self.used;
        let mut avail: usize = self.capacity - self.used;
        let mut woken: Vec<u64> = Vec::new();
        while self.waiters.len() > 0 && self.waiters[0].size <= avail
            invariant
                self.capacity == pre.capacity,
                self.used == pre.used - block.size,
                self.next_id == pre.next_id,
                self.live@ == pre.live@.remove(
                    choose|i: int|
                        0 <= i < pre.live_spec().len() && pre.live_spec()[i] == block,
                ),
                self.wf(),
                avail <= self.capacity,
                wake_tokens(ws0, avail0 as int) == woken@ + wake_tokens(self.waiters@, avail as int),
                wake_rest(ws0, avail0 as int) == wake_rest(self.waiters@, avail as int),
            decreases self.waiters@.len(),
        {
            let w = self.waiters[0];
            proof {
                assert(self.waiters@.first() == w);
                assert(wake_tokens(self.waiters@, avail as int) == seq![w.token] + wake_tokens(
                    self.waiters@.drop_first(),
                    avail - w.size,
                ));
                assert(self.waiters@.remove(0) =~= self.waiters@.drop_first());
            }
            self.waiters.remove(0);
            avail = avail - w.size;
            let ghost woken_pre = woken@;
            woken.push(w.token);
            proof {
                assert(woken@ =~= woken_pre + seq![w.token]);
                assert(woken_pre + (seq![w.token] + wake_tokens(self.waiters@, avail as int))
                    =~= (woken_pre + seq![w.token]) + wake_tokens(self.waiters@, avail as int));
            }
        }
        proof {
            assert(wake_tokens(self.waiters@, avail as int) =~= Seq::<u64>::empty());
            assert(wake_rest(self.waiters@, avail as int) == self.waiters@);
            assert(woken@ + Seq::<u64>::empty() =~= woken@);
        }
        proof {
            assert forall|b2: Block| b2.id != block.id implies (self.has_block(b2)
                <==> pre.has_block(b2)) by {
                if pre.has_block(b2) {
                    let j = choose|j: int|
                        0 <= j < pre.live_spec().len() && pre.live_spec()[j] == b2;
                    if j < gidx {
                        assert(self.live_spec()[j] == b2);
                    } else {
                        assert(pre.live_spec()[gidx].id == block.id);
                        assert(j != gidx);
                        assert(self.live_spec()[j - 1] == b2);
                    }
                }
                if self.has_block(b2) {
                    let j = choose|j: int|
                        0 <= j < self.live_spec().len() && self.live_spec()[j] == b2;
                    if j < gidx {
                        assert(pre.live_spec()[j] == b2);
                    } else {
                        assert(pre.live_spec()[j + 1] == b2);
                    }
                }
            };
            assert forall|id: u64| id != block.id implies (self.is_live_id(id)
                <==> pre.is_live_id(id)) by {
                if pre.is_live_id(id) {
                    let j = choose|j: int|
                        0 <= j < pre.live_spec().len() && pre.live_spec()[j].id == id;
                    if j < gidx {
                        assert(self.live_spec()[j].id == id);
                    } else {
                        assert(pre.live_spec()[gidx].id == block.id);
                        assert(j != gidx);
                        assert(self.live_spec()[j - 1].id == id);
                    }
                }
                if self.is_live_id(id) {
                    let j = choose|j: int|
                        0 <= j < self.live_spec().len() && self.live_spec()[j].id == id;
                    if j < gidx {
                        assert(pre.live_spec()[j].id == id);
                    } else {
                        assert(pre.live_spec()[j + 1].id == id);
                    }
                }
            };
        }
        woken
    }

    /// Remove an abandoned task's parked request from the waiter queue.
    ///
    /// A task parked on allocation can be dropped before it is woken; its
    /// entry must be removable from outside the normal wake path so no
    /// dangling waiter is left behind. Removes the oldest entry carrying
    /// `token`, if any, and reports whether one was found.
    pub fn cancel_wait(&mut self, token: u64) -> (found: bool)
        requires
            old(self).wf(),
        ensures
            final(self).wf(),
            final(self).capacity_spec() == old(self).capacity_spec(),
            final(self).used_spec() == old(self).used_spec(),
            final(self).live_spec() == old(self).live_spec(),
            final(self).ids_used_spec() == old(self).ids_used_spec(),
            found == has_waiter_token(old(self).waiters_spec(), token),
            final(self).waiters_spec() == remove_first_token(old(self).waiters_spec(), token),
    {
        let ghost pre = *self;
        let mut idx: usize = 0;
        while idx < self.waiters.len() && self.waiters[idx].token != token
            invariant
                *self == pre,
                0 <= idx <= self.waiters@.len(),
                forall|j: int| 0 <= j < idx ==> self.waiters@[j].token != token,
            decreases self.waiters@.len() - idx,
        {
            idx = idx + 1;
        }
        if idx < self.waiters.len() {
            let ghost i0 = idx as int;
            proof {
                lemma_remove_first_token_at(pre.waiters_spec(), token, i0);
            }
            self.waiters.remove(idx);
            true
        } else {
            proof {
                lemma_remove_first_token_absent(pre.waiters_spec(), token);
            }
            false
        }
    }
}

/// Law: for any sequence of allocations and deallocations against a
/// well-formed heap, the bytes outstanding — the sizes of the live blocks,
/// which is exactly the used counter — never exceed the fixed capacity.
pub proof fn lemma_outstanding_within_capacity(h: Heap)
    requires
        h.wf(),
    ensures
        sum_sizes(h.live_spec()) == h.used_spec(),
        sum_sizes(h.live_spec()) <= h.capacity_spec(),
{
}

/// When the oldest entry carrying `token` stands at position `i`, removing
/// the first occurrence is removing position `i`.
proof fn lemma_remove_first_token_at(ws: Seq<Waiter>, token: u64, i: int)
    requires
        0 <= i < ws.len(),
        ws[i].token == token,
        forall|j: int| 0 <= j < i ==> ws[j].token != token,
    ensures
        has_waiter_token(ws, token),
        remove_first_token(ws, token) == ws.remove(i),
    decreases i,
{
    if i == 0 {
        assert(ws.drop_first() =~= ws.remove(0));
    } else {
        assert(forall|j: int| 0 <= j < i - 1 ==> ws.drop_first()[j].token != token);
        assert(ws.drop_first()[i - 1].token == token);
        lemma_remove_first_token_at(ws.drop_first(), token, i - 1);
        assert(ws.remove(i) =~= seq![ws.first()] + ws.drop_first().remove(i - 1));
    }
}

/// When no entry carries `token`, the wait list is left as it is.
proof fn lemma_remove_first_token_absent(ws: Seq<Waiter>, token: u64)
    requires
        forall|j: int| 0 <= j < ws.len() ==> ws[j].token != token,
    ensures
        !has_waiter_token(ws, token),
        remove_first_token(ws, token) == ws,
    decreases ws.len(),
{
    if ws.len() > 0 {
        assert(forall|j: int| 0 <= j < ws.drop_first().len() ==> ws.drop_first()[j].token != token);
        lemma_remove_first_token_absent(ws.drop_first(), token);
        assert(seq![ws.first()] + ws.drop_first() =~= ws);
    }
}

/// The block total is never negative.
proof fn lemma_sum_nonneg(s: Seq<Block>)
    ensures
        sum_sizes(s) >= 0,
    decreases s.len(),
{
    if s.len() > 0 {
        lemma_sum_nonneg(s.drop_last());
    }
}

/// Appending a block adds its size to the total.
proof fn lemma_sum_push(s: Seq<Block>, b: Block)
    ensures
        sum_sizes(s.push(b)) == sum_sizes(s) + b.size,
{
    assert(s.push(b).drop_last() =~= s);
    assert(s.push(b).last() == b);
}

/// Removing a block subtracts its size from the total.
proof fn lemma_sum_remove(s: Seq<Block>, i: int)
    requires
        0 <= i < s.len(),
    ensures
        sum_sizes(s.remove(i)) == sum_sizes(s) - s[i].size,
    decreases s.len(),
{
    if i == s.len() - 1 {
        assert(s.remove(i) =~= s.drop_last());
    } else {
        assert(s.remove(i).drop_last() =~= s.drop_last().remove(i));
        assert(s.remove(i).last() == s.last());
        lemma_sum_remove(s.drop_last(), i);
    }
}

} // verus!
