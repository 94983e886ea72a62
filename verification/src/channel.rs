//! Bounded typed channels with single-use reply destinations.
//!
//! A [`KChannel`] is a bounded FIFO queue of typed messages crossing two
//! cooperatively scheduled contexts. Enqueueing either fails when the
//! queue is full (the non-suspending path) or parks the sender's wake
//! token; dequeueing parks the receiver's token when the queue is empty.
//! Parked tokens are handed back to the scheduler by the operation that
//! makes progress, and a parked task that is dropped can always be removed
//! from the wait list from outside the wake path.
//!
//! Requests travel as [`Envelope`]s: a payload paired with a [`ReplyCell`],
//! the single-use destination for the service's one reply. Replying twice,
//! or after the requester abandoned its wait, is defined as a silent
//! no-op: it never panics and never corrupts the queue.

use vstd::prelude::*;

verus! {

/// Whether some parked wake token in the list equals `token`.
pub open spec fn has_waiting_token(ws: Seq<u64>, token: u64) -> bool
    decreases ws.len(),
{
    if ws.len() == 0 {
        false
    } else {
        ws.first() == token || has_waiting_token(ws.drop_first(), token)
    }
}

/// `ws` with its oldest entry equal to `token` removed; unchanged when no
/// entry equals it.
pub open spec fn remove_first_waiting(ws: Seq<u64>, token: u64) -> Seq<u64>
    decreases ws.len(),
{
    if ws.len() == 0 {
        ws
    } else if ws.first() == token {
        ws.drop_first()
    } else {
        seq![ws.first()] + remove_first_waiting(ws.drop_first(), token)
    }
}

/// What a suspending enqueue did.
pub enum EnqueueOutcome<T> {
    /// The message was appended. If a receiver was parked, its wake token
    /// is handed back for the scheduler to invoke.
    Sent(Option<u64>),
    /// The queue was full: the sender's token was parked at the back of
    /// the sender wait list, and the message is handed back here so the
    /// suspended sender can retry the send once its token is invoked.
    Parked(T),
}

/// What a suspending dequeue did.
pub enum DequeueOutcome<T> {
    /// The oldest message was removed. If a sender was parked, its wake
    /// token is handed back for the scheduler to invoke.
    Received(T, Option<u64>),
    /// The queue was empty: the receiver's token was parked at the back of
    /// the receiver wait list.
    Parked,
}

/// A bounded FIFO queue of typed messages with wait lists for both sides.
pub struct KChannel<T> {
    queue: Vec<T>,
    capacity: usize,
    tx_waiters: Vec<u64>,
    rx_waiters: Vec<u64>,
}

impl<T> KChannel<T> {
    /// The messages in flight, oldest first.
    pub closed spec fn view(self) -> Seq<T> {
        self.queue@
    }

    /// The fixed depth chosen at construction.
    pub closed spec fn capacity_spec(self) -> usize {
        self.capacity
    }

    /// Parked sender tokens, oldest first.
    pub closed spec fn tx_waiters_spec(self) -> Seq<u64> {
        self.tx_waiters@
    }

    /// Parked receiver tokens, oldest first.
    pub closed spec fn rx_waiters_spec(self) -> Seq<u64> {
        self.rx_waiters@
    }

    /// Well-formed: the queue never exceeds its depth.
    pub closed spec fn wf(self) -> bool {
        self.queue@.len() <= self.capacity
    }

    /// Create a channel of fixed depth `capacity`.
    pub fn new(capacity: usize) -> (r: KChannel<T>)
        requires
            capacity > 0,
        ensures
            r.wf(),
            r.capacity_spec() == capacity,
            r@ == Seq::<T>::empty(),
            r.tx_waiters_spec() == Seq::<u64>::empty(),
            r.rx_waiters_spec() == Seq::<u64>::empty(),
    {
        KChannel { queue: Vec::new(), capacity, tx_waiters: Vec::new(), rx_waiters: Vec::new() }
    }

    /// How many messages are in flight.
    pub fn len(&self) -> (r: usize)
        ensures
            r == self@.len(),
    {
        self.queue.len()
    }

    /// Non-suspending enqueue.
    ///
    /// Appends exactly when the queue is not full, handing back the oldest
    /// parked receiver's token, if any, for the scheduler to wake. A full
    /// queue rejects the message unchanged; the wait lists are untouched
    /// on failure.
    pub fn try_enqueue(&mut self, t: T) -> (r: Result<Option<u64>, T>)
        requires
            old(self).wf(),
        ensures
            final(self).wf(),
            final(self).capacity_spec() == old(self).capacity_spec(),
            final(self).tx_waiters_spec() == old(self).tx_waiters_spec(),
            old(self)@.len() == old(self).capacity_spec() ==> r == Err::<Option<u64>, T>(t)
                && *final(self) == *old(self),
            old(self)@.len() < old(self).capacity_spec() ==> (r matches Ok(wake) && final(self)@
                == old(self)@.push(t) && (old(self).rx_waiters_spec().len() == 0 ==> wake is None
                && final(self).rx_waiters_spec() == old(self).rx_waiters_spec()) && (old(self).rx_waiters_spec().len() > 0 ==> wake == Some(old(self).rx_waiters_spec().first())
                && final(self).rx_waiters_spec() == old(self).rx_waiters_spec().drop_first())),
    {
        if self.queue.len() == self.capacity {
            Err(t)
        } else {
            self.queue.push(t);
            let wake = if self.rx_waiters.len() > 0 {
                let ghost rx0 = self.rx_waiters@;
                let w: u64 = self.rx_waiters.remove(0);
                proof {
                    assert(self.rx_waiters@ =~= rx0.drop_first());
                }
                Some(w)
            } else {
                None
            };
            Ok(wake)
        }
    }

    /// Non-suspending dequeue.
    ///
    /// Removes and returns the oldest message exactly when one is in
    /// flight, handing back the oldest parked sender's token, if any, for
    /// the scheduler to wake. An empty queue returns nothing and touches
    /// nothing.
    pub fn try_dequeue(&mut self) -> (r: Option<(T, Option<u64>)>)
        requires
            old(self).wf(),
        ensures
            final(self).wf(),
            final(self).capacity_spec() == old(self).capacity_spec(),
            final(self).rx_waiters_spec() == old(self).rx_waiters_spec(),
            old(self)@.len() == 0 ==> r is None && *final(self) == *old(self),
            old(self)@.len() > 0 ==> (r matches Some((t, wake)) && t == old(self)@.first() && final(self)@ == old(self)@.drop_first() && (old(self).tx_waiters_spec().len() == 0 ==> wake
                is None && final(self).tx_waiters_spec() == old(self).tx_waiters_spec()) && (old(self).tx_waiters_spec().len() > 0 ==> wake == Some(old(self).tx_waiters_spec().first())
                && final(self).tx_waiters_spec() == old(self).tx_waiters_spec().drop_first())),
    {
        if self.queue.len() == 0 {
            None
        } else {
            let ghost q0 = self.queue@;
            let t = self.queue.remove(0);
            proof {
                assert(self.queue@ =~= q0.drop_first());
            }
            let wake = if self.tx_waiters.len() > 0 {
                let ghost tx0 = self.tx_waiters@;
                let w: u64 = self.tx_waiters.remove(0);
                proof {
                    assert(self.tx_waiters@ =~= tx0.drop_first());
                }
                Some(w)
            } else {
                None
            };
            Some((t, wake))
        }
    }

    /// Suspending enqueue, on behalf of a sender with wake token `token`.
    ///
    /// Appends when the queue has room, exactly as the non-suspending
    /// path. When the queue is full the message is handed back, the
    /// sender's token is parked FIFO, and the caller must suspend until a
    /// dequeue wakes it.
    pub fn enqueue(&mut self, t: T, token: u64) -> (r: EnqueueOutcome<T>)
        requires
            old(self).wf(),
        ensures
            final(self).wf(),
            final(self).capacity_spec() == old(self).capacity_spec(),
            old(self)@.len() == old(self).capacity_spec() ==> r == EnqueueOutcome::Parked(t)
                && final(self)@ == old(self)@ && final(self).tx_waiters_spec() == old(self).tx_waiters_spec().push(
                token,
            ) && final(self).rx_waiters_spec() == old(self).rx_waiters_spec(),
            old(self)@.len() < old(self).capacity_spec() ==> (r matches EnqueueOutcome::Sent(wake)
                && final(self)@ == old(self)@.push(t) && final(self).tx_waiters_spec() == old(self).tx_waiters_spec() && (old(self).rx_waiters_spec().len() == 0 ==> wake is None
                && final(self).rx_waiters_spec() == old(self).rx_waiters_spec()) && (old(self).rx_waiters_spec().len() > 0 ==> wake == Some(old(self).rx_waiters_spec().first())
                && final(self).rx_waiters_spec() == old(self).rx_waiters_spec().drop_first())),
    {
        match self.try_enqueue(t) {
            Ok(wake) => EnqueueOutcome::Sent(wake),
            Err(t) => {
                self.tx_waiters.push(token);
                EnqueueOutcome::Parked(t)
            },
        }
    }

    /// Suspending dequeue, on behalf of a receiver with wake token
    /// `token`.
    ///
    /// Removes the oldest message when one is in flight, exactly as the
    /// non-suspending path. When the queue is empty the receiver's token
    /// is parked FIFO and the caller must suspend until an enqueue wakes
    /// it.
    pub fn dequeue(&mut self, token: u64) -> (r: DequeueOutcome<T>)
        requires
            old(self).wf(),
        ensures
            final(self).wf(),
            final(self).capacity_spec() == old(self).capacity_spec(),
            old(self)@.len() == 0 ==> (r matches DequeueOutcome::Parked && final(self)@ == old(self)@ && final(self).rx_waiters_spec() == old(self).rx_waiters_spec().push(token) && final(self).tx_waiters_spec() == old(self).tx_waiters_spec()),
            old(self)@.len() > 0 ==> (r matches DequeueOutcome::Received(t, wake) && t == old(self)@.first() && final(self)@ == old(self)@.drop_first() && final(self).rx_waiters_spec()
                == old(self).rx_waiters_spec() && (old(self).tx_waiters_spec().len() == 0
                ==> wake is None && final(self).tx_waiters_spec() == old(self).tx_waiters_spec())
                && (old(self).tx_waiters_spec().len() > 0 ==> wake == Some(
                old(self).tx_waiters_spec().first(),
            ) && final(self).tx_waiters_spec() == old(self).tx_waiters_spec().drop_first())),
    {
        match self.try_dequeue() {
            Some((t, wake)) => DequeueOutcome::Received(t, wake),
            None => {
                self.rx_waiters.push(token);
                DequeueOutcome::Parked
            },
        }
    }

    /// Remove an abandoned sender's parked token from the sender wait
    /// list, reporting whether one was found. Nothing else changes.
    pub fn cancel_send_wait(&mut self, token: u64) -> (found: bool)
        requires
            old(self).wf(),
        ensures
            final(self).wf(),
            final(self).capacity_spec() == old(self).capacity_spec(),
            final(self)@ == old(self)@,
            final(self).rx_waiters_spec() == old(self).rx_waiters_spec(),
            found == has_waiting_token(old(self).tx_waiters_spec(), token),
            final(self).tx_waiters_spec() == remove_first_waiting(
                old(self).tx_waiters_spec(),
                token,
            ),
    {
        let ghost pre = *self;
        let mut idx: usize = 0;
        while idx < self.tx_waiters.len() && self.tx_waiters[idx] != token
            invariant
                *self == pre,
                0 <= idx <= self.tx_waiters@.len(),
                forall|j: int| 0 <= j < idx ==> self.tx_waiters@[j] != token,
            decreases self.tx_waiters@.len() - idx,
        {
            idx = idx + 1;
        }
        if idx < self.tx_waiters.len() {
            proof {
                lemma_remove_first_waiting_at(pre.tx_waiters_spec(), token, idx as int);
            }
            self.tx_waiters.remove(idx);
            true
        } else {
            proof {
                lemma_remove_first_waiting_absent(pre.tx_waiters_spec(), token);
            }
            false
        }
    }

    /// Remove an abandoned receiver's parked token from the receiver wait
    /// list, reporting whether one was found. Nothing else changes.
    pub fn cancel_recv_wait(&mut self, token: u64) -> (found: bool)
        requires
            old(self).wf(),
        ensures
            final(self).wf(),
            final(self).capacity_spec() == old(self).capacity_spec(),
            final(self)@ == old(self)@,
            final(self).tx_waiters_spec() == old(self).tx_waiters_spec(),
            found == has_waiting_token(old(self).rx_waiters_spec(), token),
            final(self).rx_waiters_spec() == remove_first_waiting(
                old(self).rx_waiters_spec(),
                token,
            ),
    {
        let ghost pre = *self;
        let mut idx: usize = 0;
        while idx < self.rx_waiters.len() && self.rx_waiters[idx] != token
            invariant
                *self == pre,
                0 <= idx <= self.rx_waiters@.len(),
                forall|j: int| 0 <= j < idx ==> self.rx_waiters@[j] != token,
            decreases self.rx_waiters@.len() - idx,
        {
            idx = idx + 1;
        }
        if idx < self.rx_waiters.len() {
            proof {
                lemma_remove_first_waiting_at(pre.rx_waiters_spec(), token, idx as int);
            }
            self.rx_waiters.remove(idx);
            true
        } else {
            proof {
                lemma_remove_first_waiting_absent(pre.rx_waiters_spec(), token);
            }
            false
        }
    }
}

/// When the oldest entry equal to `token` stands at position `i`, removing
/// the first occurrence is removing position `i`.
proof fn lemma_remove_first_waiting_at(ws: Seq<u64>, token: u64, i: int)
    requires
        0 <= i < ws.len(),
        ws[i] == token,
        forall|j: int| 0 <= j < i ==> ws[j] != token,
    ensures
        has_waiting_token(ws, token),
        remove_first_waiting(ws, token) == ws.remove(i),
    decreases i,
{
    if i == 0 {
        assert(ws.drop_first() =~= ws.remove(0));
    } else {
        assert(forall|j: int| 0 <= j < i - 1 ==> ws.drop_first()[j] != token);
        assert(ws.drop_first()[i - 1] == token);
        lemma_remove_first_waiting_at(ws.drop_first(), token, i - 1);
        assert(ws.remove(i) =~= seq![ws.first()] + ws.drop_first().remove(i - 1));
    }
}

/// When no entry equals `token`, the wait list is left as it is.
proof fn lemma_remove_first_waiting_absent(ws: Seq<u64>, token: u64)
    requires
        forall|j: int| 0 <= j < ws.len() ==> ws[j] != token,
    ensures
        !has_waiting_token(ws, token),
        remove_first_waiting(ws, token) == ws,
    decreases ws.len(),
{
    if ws.len() > 0 {
        assert(forall|j: int| 0 <= j < ws.drop_first().len() ==> ws.drop_first()[j] != token);
        lemma_remove_first_waiting_absent(ws.drop_first(), token);
        assert(seq![ws.first()] + ws.drop_first() =~= ws);
    }
}

//
// Reply cells and envelopes
//

/// The lifecycle of a single-use reply destination.
#[derive(Clone, Copy, PartialEq, Eq, Structural, Debug)]
pub enum ReplyState {
    /// The requester is waiting; no reply was delivered yet.
    Waiting,
    /// A reply was delivered and awaits the requester.
    Filled,
    /// The requester took the delivered reply; the cell is spent.
    Taken,
    /// The requester abandoned its wait; any reply is discarded.
    Abandoned,
}

/// What [`ReplyCell::send`] did with the reply.
pub enum SendOutcome<R> {
    /// The cell was waiting: the reply is now held for the requester.
    Delivered,
    /// The cell could not accept the reply — the requester abandoned its
    /// wait, or a reply was already delivered — so the reply is handed
    /// back and dropped. A legal no-op, never a panic.
    Discarded(R),
}

/// A single-use reply destination shared between a requester and the one
/// service that answers it.
pub struct ReplyCell<R> {
    state: ReplyState,
    slot: Option<R>,
}

impl<R> ReplyCell<R> {
    /// Where the cell stands in its lifecycle.
    pub closed spec fn state_spec(self) -> ReplyState {
        self.state
    }

    /// The reply held for the requester, if one was delivered and not yet
    /// taken.
    pub closed spec fn slot_spec(self) -> Option<R> {
        self.slot
    }

    /// Well-formed: the slot holds a value exactly in the filled state.
    pub closed spec fn wf(self) -> bool {
        self.slot is Some <==> self.state == ReplyState::Filled
    }

    /// A fresh cell, waiting for its one reply.
    pub fn new() -> (r: ReplyCell<R>)
        ensures
            r.wf(),
            r.state_spec() == ReplyState::Waiting,
            r.slot_spec() is None,
    {
        ReplyCell { state: ReplyState::Waiting, slot: None }
    }

    /// Where the cell stands in its lifecycle.
    pub fn state(&self) -> (r: ReplyState)
        ensures
            r == self.state_spec(),
    {
        self.state
    }

    /// Deliver the one reply.
    ///
    /// Total on every state: delivers exactly when the requester is still
    /// waiting. A second reply, or a reply after the requester abandoned
    /// its wait, is handed back and discarded — a silent no-op that never
    /// panics and changes nothing.
    pub fn send(&mut self, reply: R) -> (r: SendOutcome<R>)
        requires
            old(self).wf(),
        ensures
            final(self).wf(),
            old(self).state_spec() == ReplyState::Waiting ==> (r matches SendOutcome::Delivered
                && final(self).state_spec() == ReplyState::Filled && final(self).slot_spec()
                == Some(reply)),
            old(self).state_spec() != ReplyState::Waiting ==> r == SendOutcome::Discarded(reply)
                && *final(self) == *old(self),
    {
        match self.state {
            ReplyState::Waiting => {
                self.state = ReplyState::Filled;
                self.slot = Some(reply);
                SendOutcome::Delivered
            },
            _ => SendOutcome::Discarded(reply),
        }
    }

    /// The requester collects its reply, if one was delivered.
    ///
    /// Returns nothing while the cell still waits, and nothing ever again
    /// once the reply was taken or the cell abandoned.
    pub fn take_reply(&mut self) -> (r: Option<R>)
        requires
            old(self).wf(),
        ensures
            final(self).wf(),
            old(self).state_spec() == ReplyState::Filled ==> r == old(self).slot_spec() && r
                is Some && final(self).state_spec() == ReplyState::Taken,
            old(self).state_spec() != ReplyState::Filled ==> r is None && *final(self) == *old(self),
    {
        match self.state {
            ReplyState::Filled => {
                self.state = ReplyState::Taken;
                self.slot.take()
            },
            _ => None,
        }
    }

    /// The requester abandons its wait, as when its task is dropped.
    ///
    /// Any reply already delivered but not taken is handed back to be
    /// dropped. Afterwards every reply sent to this cell is discarded.
    pub fn abandon(&mut self) -> (r: Option<R>)
        requires
            old(self).wf(),
        ensures
            final(self).wf(),
            final(self).state_spec() == ReplyState::Abandoned,
            r == old(self).slot_spec(),
            !final(self).is_fillable(),
    {
        self.state = ReplyState::Abandoned;
        self.slot.take()
    }

    /// Whether a reply sent now would be delivered rather than discarded.
    pub open spec fn is_fillable(self) -> bool {
        self.state_spec() == ReplyState::Waiting
    }
}

/// A request payload paired with its single-use reply destination.
pub struct Envelope<P, R> {
    payload: P,
    reply: ReplyCell<R>,
}

impl<P, R> Envelope<P, R> {
    /// The request payload carried.
    pub closed spec fn payload_spec(self) -> P {
        self.payload
    }

    /// The reply destination carried.
    pub closed spec fn reply_spec(self) -> ReplyCell<R> {
        self.reply
    }

    /// Well-formed: the reply cell's accounting holds.
    pub open spec fn wf(self) -> bool {
        self.reply_spec().wf()
    }

    /// Wrap a payload with a fresh, waiting reply destination.
    pub fn new(payload: P) -> (r: Envelope<P, R>)
        ensures
            r.wf(),
            r.payload_spec() == payload,
            r.reply_spec().state_spec() == ReplyState::Waiting,
            r.reply_spec().slot_spec() is None,
    {
        Envelope { payload, reply: ReplyCell::new() }
    }

    /// Borrow the request payload.
    pub fn payload(&self) -> (r: &P)
        ensures
            *r == self.payload_spec(),
    {
        &self.payload
    }

    /// The service answers the request. Same contract as
    /// [`ReplyCell::send`]: a late or repeated reply is silently
    /// discarded.
    pub fn reply_with(&mut self, reply: R) -> (r: SendOutcome<R>)
        requires
            old(self).wf(),
        ensures
            final(self).wf(),
            final(self).payload_spec() == old(self).payload_spec(),
            old(self).reply_spec().state_spec() == ReplyState::Waiting ==> (r
                matches SendOutcome::Delivered && final(self).reply_spec().state_spec()
                == ReplyState::Filled && final(self).reply_spec().slot_spec() == Some(reply)),
            old(self).reply_spec().state_spec() != ReplyState::Waiting ==> r
                == SendOutcome::Discarded(reply) && *final(self) == *old(self),
    {
        self.reply.send(reply)
    }

    /// The requester collects the reply, if delivered. Same contract as
    /// [`ReplyCell::take_reply`].
    pub fn take_reply(&mut self) -> (r: Option<R>)
        requires
            old(self).wf(),
        ensures
            final(self).wf(),
            final(self).payload_spec() == old(self).payload_spec(),
            old(self).reply_spec().state_spec() == ReplyState::Filled ==> r == old(self).reply_spec().slot_spec() && r is Some && final(self).reply_spec().state_spec()
                == ReplyState::Taken,
            old(self).reply_spec().state_spec() != ReplyState::Filled ==> r is None && *final(self)
                == *old(self),
    {
        self.reply.take_reply()
    }

    /// The requester abandons its wait. Same contract as
    /// [`ReplyCell::abandon`].
    pub fn abandon(&mut self) -> (r: Option<R>)
        requires
            old(self).wf(),
        ensures
            final(self).wf(),
            final(self).payload_spec() == old(self).payload_spec(),
            final(self).reply_spec().state_spec() == ReplyState::Abandoned,
            r == old(self).reply_spec().slot_spec(),
    {
        self.reply.abandon()
    }
}

} // verus!
