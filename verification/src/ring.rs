//! A framed byte ring buffer crossing two execution contexts.
//!
//! The buffer has a fixed byte capacity and is split once into exactly one
//! producer half and one consumer half; on hardware the two halves live in
//! an interrupt handler and a cooperative task, in a hosted build in two
//! threads. Only one side ever writes the state the other side reads, so
//! neither side blocks. This module verifies the protocol itself over a
//! sequential model of the shared state; taking a half hands out a
//! capability token ([`Producer`], [`Consumer`]) that carries the id of
//! the ring that issued it, and every operation requires the token's id to
//! match the ring's, so a token drives only its own ring. The creator
//! names each ring with a distinct id when constructing it.
//!
//! The producer reserves space with [`RingBuffer::grant`], fills it, and
//! publishes a prefix with [`RingBuffer::commit`], which turns it into one
//! framed record. The consumer sees whole frames with [`RingBuffer::read`],
//! oldest first, and frees a frame's bytes with [`RingBuffer::release`].
//! Frames arrive in exactly the order they were committed. The model
//! accounts frames at their payload length; the length prefix a wire
//! format would add is representation, not protocol.

use vstd::pervasive::VecAdditionalExecFns;
use vstd::prelude::*;

verus! {

/// Why a ring-buffer operation was refused.
#[derive(Clone, Copy, PartialEq, Eq, Structural, Debug)]
pub enum RingError {
    /// Fewer bytes are free than the grant asked for. Recoverable: the
    /// caller may retry, back off, or drop data.
    Exhausted,
    /// A grant is already outstanding; at most one write reservation may
    /// exist at a time. A protocol violation by the producer.
    GrantInProgress,
    /// This half of the buffer was already taken by its one owner, ever. A
    /// protocol violation by the caller.
    HalfTaken,
}

/// The capability of the one producer of a [`RingBuffer`]. Only
/// [`RingBuffer::take_producer`] or [`RingBuffer::split`] mint it, once,
/// carrying the issuing ring's id.
pub struct Producer {
    ring: u64,
}

impl Producer {
    /// The id of the ring that issued this token.
    pub closed spec fn ring_spec(self) -> u64 {
        self.ring
    }
}

/// The capability of the one consumer of a [`RingBuffer`]. Only
/// [`RingBuffer::take_consumer`] or [`RingBuffer::split`] mint it, once,
/// carrying the issuing ring's id.
pub struct Consumer {
    ring: u64,
}

impl Consumer {
    /// The id of the ring that issued this token.
    pub closed spec fn ring_spec(self) -> u64 {
        self.ring
    }
}

/// Total payload bytes of a sequence of frames.
pub open spec fn sum_frame_lens(s: Seq<Seq<u8>>) -> int
    decreases s.len(),
{
    if s.len() == 0 {
        0
    } else {
        sum_frame_lens(s.drop_last()) + s.last().len()
    }
}

/// A fixed-capacity byte ring carrying variable-length framed records.
pub struct RingBuffer {
    id: u64,
    capacity: usize,
    committed: usize,
    frames: Vec<Vec<u8>>,
    grant: Option<Vec<u8>>,
    producer_taken: bool,
    consumer_taken: bool,
}

impl RingBuffer {
    /// The name the creator gave this ring; its tokens carry the same id.
    pub closed spec fn id_spec(self) -> u64 {
        self.id
    }

    /// The fixed byte capacity chosen at construction.
    pub closed spec fn capacity_spec(self) -> usize {
        self.capacity
    }

    /// The committed, not yet released frames, oldest first.
    pub closed spec fn frames_view(self) -> Seq<Seq<u8>> {
        self.frames@.map_values(|f: Vec<u8>| f@)
    }

    /// The bytes of the outstanding write reservation, if one exists.
    pub closed spec fn grant_view(self) -> Option<Seq<u8>> {
        match self.grant {
            Some(g) => Some(g@),
            None => None,
        }
    }

    /// Whether a write reservation is outstanding.
    pub open spec fn has_grant(self) -> bool {
        self.grant_view() is Some
    }

    /// The size of the outstanding write reservation, or zero.
    pub open spec fn grant_len_spec(self) -> int {
        match self.grant_view() {
            Some(g) => g.len() as int,
            None => 0,
        }
    }

    /// Whether the producer half was taken.
    pub closed spec fn producer_taken_spec(self) -> bool {
        self.producer_taken
    }

    /// Whether the consumer half was taken.
    pub closed spec fn consumer_taken_spec(self) -> bool {
        self.consumer_taken
    }

    /// Bytes currently free: capacity minus committed frames minus the
    /// outstanding reservation.
    pub open spec fn free_spec(self) -> int {
        self.capacity_spec() - sum_frame_lens(self.frames_view()) - self.grant_len_spec()
    }

    /// Well-formed accounting: the committed counter mirrors the frame
    /// bytes, and frames plus reservation always fit in the capacity.
    pub closed spec fn wf(self) -> bool {
        &&& self.committed == sum_frame_lens(self.frames_view())
        &&& sum_frame_lens(self.frames_view()) + self.grant_len_spec() <= self.capacity
    }

    /// Create a ring over a fresh region of `capacity` bytes, with both
    /// halves still untaken.
    ///
    /// The creator names the ring with `id`; the tokens minted for its two
    /// halves carry the same id, and no other ring should be given it.
    pub fn new(capacity: usize, id: u64) -> (r: RingBuffer)
        ensures
            r.wf(),
            r.id_spec() == id,
            r.capacity_spec() == capacity,
            r.frames_view() == Seq::<Seq<u8>>::empty(),
            !r.has_grant(),
            !r.producer_taken_spec(),
            !r.consumer_taken_spec(),
    {
        let r = RingBuffer {
            id,
            capacity,
            committed: 0,
            frames: Vec::new(),
            grant: None,
            producer_taken: false,
            consumer_taken: false,
        };
        proof {
            assert(r.frames@.map_values(|f: Vec<u8>| f@) =~= Seq::<Seq<u8>>::empty());
        }
        r
    }

    /// The fixed byte capacity.
    pub fn capacity(&self) -> (r: usize)
        ensures
            r == self.capacity_spec(),
    {
        self.capacity
    }

    /// Bytes currently free for a new grant.
    pub fn free_space(&self) -> (r: usize)
        requires
            self.wf(),
        ensures
            r == self.free_spec(),
    {
        let reserved: usize = match &self.grant {
            Some(g) => g.len(),
            None => 0,
        };
        proof {
            lemma_sum_frame_lens_nonneg(self.frames_view());
        }
        self.capacity - self.committed - reserved
    }

    /// How many committed frames await the consumer.
    pub fn frame_count(&self) -> (r: usize)
        ensures
            r == self.frames_view().len(),
    {
        self.frames.len()
    }

    /// Take the producer half. Each half may be taken exactly once, ever;
    /// a second take is refused.
    pub fn take_producer(&mut self) -> (r: Result<Producer, RingError>)
        ensures
            final(self).capacity_spec() == old(self).capacity_spec(),
            final(self).frames_view() == old(self).frames_view(),
            final(self).grant_view() == old(self).grant_view(),
            final(self).consumer_taken_spec() == old(self).consumer_taken_spec(),
            final(self).wf() == old(self).wf(),
            final(self).id_spec() == old(self).id_spec(),
            old(self).producer_taken_spec() ==> r == Err::<Producer, RingError>(
                RingError::HalfTaken,
            ) && *final(self) == *old(self),
            !old(self).producer_taken_spec() ==> (r matches Ok(p) && p.ring_spec() == old(self).id_spec() && final(self).producer_taken_spec()),
    {
        if self.producer_taken {
            Err(RingError::HalfTaken)
        } else {
            self.producer_taken = true;
            Ok(Producer { ring: self.id })
        }
    }

    /// Take the consumer half. Each half may be taken exactly once, ever;
    /// a second take is refused.
    pub fn take_consumer(&mut self) -> (r: Result<Consumer, RingError>)
        ensures
            final(self).capacity_spec() == old(self).capacity_spec(),
            final(self).frames_view() == old(self).frames_view(),
            final(self).grant_view() == old(self).grant_view(),
            final(self).producer_taken_spec() == old(self).producer_taken_spec(),
            final(self).wf() == old(self).wf(),
            final(self).id_spec() == old(self).id_spec(),
            old(self).consumer_taken_spec() ==> r == Err::<Consumer, RingError>(
                RingError::HalfTaken,
            ) && *final(self) == *old(self),
            !old(self).consumer_taken_spec() ==> (r matches Ok(c) && c.ring_spec() == old(self).id_spec() && final(self).consumer_taken_spec()),
    {
        if self.consumer_taken {
            Err(RingError::HalfTaken)
        } else {
            self.consumer_taken = true;
            Ok(Consumer { ring: self.id })
        }
    }

    /// Split the buffer once into its producer half and its consumer half.
    ///
    /// Fails fast if either half was already taken.
    pub fn split(&mut self) -> (r: Result<(Producer, Consumer), RingError>)
        ensures
            final(self).capacity_spec() == old(self).capacity_spec(),
            final(self).frames_view() == old(self).frames_view(),
            final(self).grant_view() == old(self).grant_view(),
            final(self).wf() == old(self).wf(),
            final(self).id_spec() == old(self).id_spec(),
            old(self).producer_taken_spec() || old(self).consumer_taken_spec() ==> r
                == Err::<(Producer, Consumer), RingError>(RingError::HalfTaken) && *final(self)
                == *old(self),
            !old(self).producer_taken_spec() && !old(self).consumer_taken_spec() ==> (r
                matches Ok(pc) && pc.0.ring_spec() == old(self).id_spec() && pc.1.ring_spec()
                == old(self).id_spec() && final(self).producer_taken_spec() && final(self).consumer_taken_spec()),
    {
        if self.producer_taken || self.consumer_taken {
            Err(RingError::HalfTaken)
        } else {
            self.producer_taken = true;
            self.consumer_taken = true;
            Ok((Producer { ring: self.id }, Consumer { ring: self.id }))
        }
    }

    /// Reserve `n` contiguous bytes of free space for the producer.
    ///
    /// At most one reservation may be outstanding; a second request before
    /// commit is refused as a protocol violation. Otherwise the request
    /// fails exactly when fewer than `n` bytes are free, and failure
    /// changes nothing; the caller decides whether to retry, back off, or
    /// discard data. On success the reservation starts out zero-filled.
    pub fn grant(&mut self, producer: &Producer, n: usize) -> (r: Result<(), RingError>)
        requires
            old(self).wf(),
            producer.ring_spec() == old(self).id_spec(),
        ensures
            final(self).wf(),
            final(self).id_spec() == old(self).id_spec(),
            final(self).capacity_spec() == old(self).capacity_spec(),
            final(self).frames_view() == old(self).frames_view(),
            final(self).producer_taken_spec() == old(self).producer_taken_spec(),
            final(self).consumer_taken_spec() == old(self).consumer_taken_spec(),
            old(self).has_grant() ==> r == Err::<(), RingError>(RingError::GrantInProgress)
                && *final(self) == *old(self),
            !old(self).has_grant() && old(self).free_spec() < n ==> r == Err::<(), RingError>(
                RingError::Exhausted,
            ) && *final(self) == *old(self),
            !old(self).has_grant() && old(self).free_spec() >= n ==> r is Ok
                && final(self).grant_view() == Some(Seq::<u8>::new(n as nat, |i: int| 0u8))
                && final(self).free_spec() == old(self).free_spec() - n,
    {
        if self.grant.is_some() {
            return Err(RingError::GrantInProgress);
        }
        proof {
            lemma_sum_frame_lens_nonneg(self.frames_view());
        }
        if n > self.capacity - self.committed {
            return Err(RingError::Exhausted);
        }
        let mut scratch: Vec<u8> = Vec::new();
        for k in 0..n
            invariant
                scratch@.len() == k,
                forall|i: int| 0 <= i < k ==> scratch@[i] == 0u8,
        {
            scratch.push(0u8);
        }
        proof {
            assert(scratch@ =~= Seq::<u8>::new(n as nat, |i: int| 0u8));
        }
        self.grant = Some(scratch);
        Ok(())
    }

    /// Copy the caller's bytes into the front of the reservation.
    ///
    /// Overwrites the first `src.len()` bytes of the granted region and
    /// keeps the rest as it was, so a producer may fill the reservation in
    /// one step or write a shorter record and commit just that prefix.
    pub fn grant_write(&mut self, producer: &Producer, src: &[u8])
        requires
            old(self).wf(),
            producer.ring_spec() == old(self).id_spec(),
            old(self).has_grant(),
            src@.len() <= old(self).grant_len_spec(),
        ensures
            final(self).wf(),
            final(self).id_spec() == old(self).id_spec(),
            final(self).capacity_spec() == old(self).capacity_spec(),
            final(self).frames_view() == old(self).frames_view(),
            final(self).grant_view() == Some(
                src@ + old(self).grant_view().unwrap().subrange(
                    src@.len() as int,
                    old(self).grant_len_spec(),
                ),
            ),
            final(self).grant_len_spec() == old(self).grant_len_spec(),
            final(self).free_spec() == old(self).free_spec(),
            final(self).producer_taken_spec() == old(self).producer_taken_spec(),
            final(self).consumer_taken_spec() == old(self).consumer_taken_spec(),
    {
        let mut scratch = self.grant.take().unwrap();
        let ghost g0 = scratch@;
        let n: usize = src.len();
        for k in 0..n
            invariant
                n == src@.len(),
                n <= g0.len(),
                scratch@.len() == g0.len(),
                forall|i: int| 0 <= i < k ==> scratch@[i] == src@[i],
                forall|i: int| k <= i < scratch@.len() ==> scratch@[i] == g0[i],
        {
            let b: u8 = *vstd::slice::slice_index_get(src, k);
            scratch.set(k, b);
        }
        proof {
            assert(scratch@ =~= src@ + g0.subrange(n as int, g0.len() as int));
        }
        self.grant = Some(scratch);
    }

    /// Publish the first `used` bytes of the reservation as one frame.
    ///
    /// The unused remainder of the grant is discarded, not retained for a
    /// later grant. The frame becomes visible to the consumer as the
    /// newest committed record; its bytes are exactly the first `used`
    /// bytes written into the reservation, in order.
    pub fn commit(&mut self, producer: &Producer, used: usize)
        requires
            old(self).wf(),
            producer.ring_spec() == old(self).id_spec(),
            old(self).has_grant(),
            used <= old(self).grant_len_spec(),
        ensures
            final(self).wf(),
            final(self).id_spec() == old(self).id_spec(),
            final(self).capacity_spec() == old(self).capacity_spec(),
            !final(self).has_grant(),
            final(self).frames_view() == old(self).frames_view().push(
                old(self).grant_view().unwrap().subrange(0, used as int),
            ),
            final(self).free_spec() == old(self).free_spec() + old(self).grant_len_spec() - used,
            final(self).producer_taken_spec() == old(self).producer_taken_spec(),
            final(self).consumer_taken_spec() == old(self).consumer_taken_spec(),
    {
        let ghost pre = *self;
        let mut scratch = self.grant.take().unwrap();
        scratch.truncate(used);
        proof {
            lemma_sum_frame_lens_nonneg(self.frames_view());
            lemma_sum_frame_lens_push(self.frames_view(), scratch@);
            assert(self.frames@.push(scratch).map_values(|f: Vec<u8>| f@) =~= self.frames_view().push(
                scratch@,
            ));
        }
        self.frames.push(scratch);
        self.committed = self.committed + used;
        proof {
            assert(self.frames_view() =~= pre.frames_view().push(
                pre.grant_view().unwrap().subrange(0, used as int),
            ));
        }
    }

    /// Borrow the oldest committed, not yet released frame, if any.
    ///
    /// Reading does not consume: until [`RingBuffer::release`] is called,
    /// every read returns this same frame.
    pub fn read(&self, consumer: &Consumer) -> (r: Option<&Vec<u8>>)
        requires
            consumer.ring_spec() == self.id_spec(),
        ensures
            r is Some <==> self.frames_view().len() > 0,
            r matches Some(f) ==> f@ == self.frames_view().first(),
    {
        if self.frames.len() == 0 {
            None
        } else {
            Some(vstd::slice::slice_index_get(self.frames.as_slice(), 0))
        }
    }

    /// Reclaim the oldest frame's bytes as free space.
    ///
    /// The frame disappears from the consumer's view and exactly its
    /// length becomes available to later grants.
    pub fn release(&mut self, consumer: &Consumer)
        requires
            old(self).wf(),
            consumer.ring_spec() == old(self).id_spec(),
            old(self).frames_view().len() > 0,
        ensures
            final(self).wf(),
            final(self).id_spec() == old(self).id_spec(),
            final(self).capacity_spec() == old(self).capacity_spec(),
            final(self).frames_view() == old(self).frames_view().drop_first(),
            final(self).grant_view() == old(self).grant_view(),
            final(self).free_spec() == old(self).free_spec() + old(self).frames_view().first().len(),
            final(self).producer_taken_spec() == old(self).producer_taken_spec(),
            final(self).consumer_taken_spec() == old(self).consumer_taken_spec(),
    {
        let ghost pre = *self;
        proof {
            lemma_sum_frame_lens_remove_first(self.frames_view());
            lemma_sum_frame_lens_nonneg(self.frames_view().drop_first());
        }
        let first = self.frames.remove(0);
        self.committed = self.committed - first.len();
        proof {
            assert(self.frames@.map_values(|f: Vec<u8>| f@) =~= pre.frames_view().drop_first());
        }
    }
}

/// The frame byte total is never negative.
proof fn lemma_sum_frame_lens_nonneg(s: Seq<Seq<u8>>)
    ensures
        sum_frame_lens(s) >= 0,
    decreases s.len(),
{
    if s.len() > 0 {
        lemma_sum_frame_lens_nonneg(s.drop_last());
    }
}

/// Appending a frame adds its length to the total.
proof fn lemma_sum_frame_lens_push(s: Seq<Seq<u8>>, f: Seq<u8>)
    ensures
        sum_frame_lens(s.push(f)) == sum_frame_lens(s) + f.len(),
{
    assert(s.push(f).drop_last() =~= s);
    assert(s.push(f).last() == f);
}

/// Dropping the oldest frame subtracts its length from the total.
proof fn lemma_sum_frame_lens_remove_first(s: Seq<Seq<u8>>)
    requires
        s.len() > 0,
    ensures
        sum_frame_lens(s.drop_first()) == sum_frame_lens(s) - s.first().len(),
    decreases s.len(),
{
    if s.len() == 1 {
        assert(s.drop_first() =~= Seq::<Seq<u8>>::empty());
        assert(s.drop_last() =~= Seq::<Seq<u8>>::empty());
    } else {
        assert(s.drop_first().drop_last() =~= s.drop_last().drop_first());
        assert(s.drop_first().last() == s.last());
        lemma_sum_frame_lens_remove_first(s.drop_last());
    }
}

} // verus!
