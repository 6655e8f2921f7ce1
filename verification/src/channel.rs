//! An unbounded FIFO message channel with any number of sender endpoints and
//! exactly one receiver endpoint.
//!
//! The channel is modelled as its shared state: the ordered queue of pending
//! messages, the number of live sender endpoints, and whether the receiver is
//! still alive. `send` appends and `recv` pops the front, so the queue order
//! is arrival order; within one sender's stream, send order is preserved in
//! receive order, which `lemma_merge_keeps_sender_order` states for every
//! possible interleaving of two senders.

use vstd::prelude::*;

use crate::errors::CoreError;

verus! {

broadcast use vstd::seq_lib::group_seq_properties;

/// The shared state of one channel: pending messages in arrival order, the
/// count of live sender endpoints, and the single receiver's liveness.
pub struct Channel<T> {
    queue: Vec<T>,
    senders: usize,
    receiver: bool,
}

impl<T> Channel<T> {
    /// The pending messages, in arrival order.
    pub closed spec fn messages(&self) -> Seq<T> {
        self.queue@
    }

    /// How many sender endpoints are alive.
    pub closed spec fn sender_count(&self) -> int {
        self.senders as int
    }

    /// Whether the receiver endpoint is still alive.
    pub closed spec fn receiver_live(&self) -> bool {
        self.receiver
    }

    /// Clones a sender endpoint: any number may exist concurrently.
    pub fn clone_sender(&mut self)
        requires
            old(self).sender_count() >= 1,
            old(self).sender_count() < usize::MAX,
        ensures
            final(self).messages() == old(self).messages(),
            final(self).sender_count() == old(self).sender_count() + 1,
            final(self).receiver_live() == old(self).receiver_live(),
    {
        self.senders = self.senders + 1;
    }

    /// Drops one sender endpoint, as when its holder's task ends.
    pub fn drop_sender(&mut self)
        requires
            old(self).sender_count() >= 1,
        ensures
            final(self).messages() == old(self).messages(),
            final(self).sender_count() == old(self).sender_count() - 1,
            final(self).receiver_live() == old(self).receiver_live(),
    {
        self.senders = self.senders - 1;
    }

    /// Drops the receiver endpoint: messages sent after this can never be
    /// read, so later sends fail.
    pub fn drop_receiver(&mut self)
        requires
            old(self).receiver_live(),
        ensures
            final(self).messages() == old(self).messages(),
            final(self).sender_count() == old(self).sender_count(),
            !final(self).receiver_live(),
    {
        self.receiver = false;
    }

    /// Enqueues a message. Non-blocking; succeeds exactly as long as the
    /// receiver endpoint still exists, and fails with `ChannelClosed` once it
    /// has been dropped.
    pub fn send(&mut self, message: T) -> (r: Result<(), CoreError>)
        requires
            old(self).sender_count() >= 1,
        ensures
            final(self).sender_count() == old(self).sender_count(),
            final(self).receiver_live() == old(self).receiver_live(),
            old(self).receiver_live() ==> (r is Ok
                && final(self).messages() == old(self).messages().push(message)),
            !old(self).receiver_live() ==> (r == Err::<(), CoreError>(CoreError::ChannelClosed)
                && final(self).messages() == old(self).messages()),
    {
        if self.receiver {
            self.queue.push(message);
            Ok(())
        } else {
            Err(CoreError::ChannelClosed)
        }
    }

    /// Dequeues the next message in FIFO arrival order. Once the queue is
    /// empty and every sender endpoint has been dropped it fails with
    /// `ChannelClosed` — the cooperative termination signal. A call on an
    /// empty queue with senders still alive blocks until one of them acts, so
    /// that state is left out here.
    pub fn recv(&mut self) -> (r: Result<T, CoreError>)
        requires
            old(self).receiver_live(),
            old(self).messages().len() == 0 ==> old(self).sender_count() == 0,
        ensures
            final(self).sender_count() == old(self).sender_count(),
            final(self).receiver_live(),
            old(self).messages().len() > 0 ==> (r matches Ok(m)
                && m == old(self).messages()[0]
                && final(self).messages() == old(self).messages().drop_first()),
            old(self).messages().len() == 0 ==> (r == Err::<T, CoreError>(CoreError::ChannelClosed)
                && final(self).messages() == old(self).messages()),
    {
        if self.queue.len() > 0 {
            let m = self.queue.remove(0);
            proof {
                assert(old(self).messages().remove(0) =~= old(self).messages().drop_first());
            }
            Ok(m)
        } else {
            Err(CoreError::ChannelClosed)
        }
    }

    /// Receives until the channel reports closed: with no senders left, this
    /// returns every pending message, in arrival order.
    pub fn drain(&mut self) -> (received: Vec<T>)
        requires
            old(self).receiver_live(),
            old(self).sender_count() == 0,
        ensures
            received@ == old(self).messages(),
            final(self).messages().len() == 0,
            final(self).receiver_live(),
            final(self).sender_count() == 0,
    {
        let mut received: Vec<T> = Vec::new();
        loop
            invariant
                self.receiver_live(),
                self.sender_count() == 0,
                received@ + self.messages() == old(self).messages(),
            decreases self.messages().len(),
        {
            match self.recv() {
                Ok(m) => {
                    received.push(m);
                },
                Err(_) => {
                    proof {
                        assert(received@ + self.messages() =~= received@);
                    }
                    return received;
                },
            }
        }
    }
}

/// A fresh channel: an empty queue, one sender endpoint (cloneable), and the
/// single live receiver endpoint. No capacity bound.
pub fn create_channel<T>() -> (c: Channel<T>)
    ensures
        c.messages() == Seq::<T>::empty(),
        c.sender_count() == 1,
        c.receiver_live(),
{
    Channel { queue: Vec::new(), senders: 1, receiver: true }
}

/// How many entries of a schedule pick the first sender.
pub open spec fn count_true(sched: Seq<bool>) -> int
    decreases sched.len(),
{
    if sched.len() == 0 {
        0
    } else {
        (if sched[0] { 1int } else { 0int }) + count_true(sched.drop_first())
    }
}

/// A schedule interleaving all of `a` with all of `b`: one entry per message,
/// `true` taking the next message of `a`, `false` the next of `b`.
pub open spec fn schedule_fits<T>(a: Seq<T>, b: Seq<T>, sched: Seq<bool>) -> bool {
    sched.len() == a.len() + b.len() && count_true(sched) == a.len()
}

/// The interleaving of `a` and `b` chosen by a schedule, keeping each source's
/// own order.
pub open spec fn merge<T>(a: Seq<T>, b: Seq<T>, sched: Seq<bool>) -> Seq<T>
    decreases sched.len(),
{
    if sched.len() == 0 {
        Seq::empty()
    } else if sched[0] {
        if a.len() > 0 {
            seq![a[0]] + merge(a.drop_first(), b, sched.drop_first())
        } else {
            Seq::empty()
        }
    } else {
        if b.len() > 0 {
            seq![b[0]] + merge(a, b.drop_first(), sched.drop_first())
        } else {
            Seq::empty()
        }
    }
}

/// A schedule never picks fewer than zero or more than all of its entries.
pub proof fn lemma_count_true_bounds(sched: Seq<bool>)
    ensures
        0 <= count_true(sched) <= sched.len(),
    decreases sched.len(),
{
    if sched.len() > 0 {
        lemma_count_true_bounds(sched.drop_first());
    }
}

/// Counting distributes over concatenation of schedules.
pub proof fn lemma_count_true_concat(x: Seq<bool>, y: Seq<bool>)
    ensures
        count_true(x + y) == count_true(x) + count_true(y),
    decreases x.len(),
{
    if x.len() == 0 {
        assert(x + y =~= y);
    } else {
        assert((x + y).drop_first() =~= x.drop_first() + y);
        lemma_count_true_concat(x.drop_first(), y);
    }
}

/// Extending a schedule by one choice counts that one choice.
pub proof fn lemma_count_true_push(sched: Seq<bool>, v: bool)
    ensures
        count_true(sched.push(v)) == count_true(sched) + (if v { 1int } else { 0int }),
{
    assert(sched.push(v) =~= sched + seq![v]);
    lemma_count_true_concat(sched, seq![v]);
    assert(seq![v].drop_first() =~= Seq::<bool>::empty());
    assert(count_true(Seq::<bool>::empty()) == 0);
    assert(count_true(seq![v]) == if v { 1int } else { 0int });
}

/// A merge holds every message of both sources.
pub proof fn lemma_merge_len<T>(a: Seq<T>, b: Seq<T>, sched: Seq<bool>)
    requires
        schedule_fits(a, b, sched),
    ensures
        merge(a, b, sched).len() == a.len() + b.len(),
    decreases sched.len(),
{
    lemma_count_true_bounds(sched);
    if sched.len() > 0 {
        if sched[0] {
            lemma_count_true_bounds(sched.drop_first());
            lemma_merge_len(a.drop_first(), b, sched.drop_first());
        } else {
            lemma_count_true_bounds(sched.drop_first());
            lemma_merge_len(a, b.drop_first(), sched.drop_first());
        }
    }
}

/// Scheduling one more message of `a` appends it to the merge.
pub proof fn lemma_merge_push_true<T>(a: Seq<T>, b: Seq<T>, sched: Seq<bool>, x: T)
    requires
        schedule_fits(a, b, sched),
    ensures
        merge(a.push(x), b, sched.push(true)) == merge(a, b, sched).push(x),
    decreases sched.len(),
{
    lemma_count_true_push(sched, true);
    if sched.len() == 0 {
        lemma_count_true_bounds(sched);
        assert(a.len() == 0 && b.len() == 0);
        assert(sched.push(true)[0]);
        assert(a.push(x).drop_first() =~= Seq::<T>::empty());
        assert(sched.push(true).drop_first() =~= Seq::<bool>::empty());
        assert(merge(a.push(x), b, sched.push(true)) == seq![a.push(x)[0]] + merge(
            a.push(x).drop_first(),
            b,
            sched.push(true).drop_first(),
        ));
        assert(merge(Seq::<T>::empty(), b, Seq::<bool>::empty()) =~= Seq::<T>::empty());
        assert(merge(a.push(x), b, sched.push(true)) =~= seq![x]);
        assert(merge(a, b, sched).push(x) =~= seq![x]);
    } else if sched[0] {
        lemma_count_true_bounds(sched.drop_first());
        assert(a.len() > 0);
        assert(sched.push(true)[0]);
        assert(sched.push(true).drop_first() =~= sched.drop_first().push(true));
        assert(a.push(x).drop_first() =~= a.drop_first().push(x));
        assert(a.push(x)[0] == a[0]);
        lemma_merge_push_true(a.drop_first(), b, sched.drop_first(), x);
        assert(merge(a.push(x), b, sched.push(true)) == seq![a[0]] + merge(
            a.drop_first().push(x),
            b,
            sched.drop_first().push(true),
        ));
        assert(seq![a[0]] + merge(a, b, sched).drop_first().push(x) =~= (seq![a[0]] + merge(
            a,
            b,
            sched,
        ).drop_first()).push(x));
        assert(merge(a, b, sched) == seq![a[0]] + merge(a.drop_first(), b, sched.drop_first()));
        assert((seq![a[0]] + merge(a.drop_first(), b, sched.drop_first())).push(x) =~= seq![a[0]]
            + merge(a.drop_first(), b, sched.drop_first()).push(x));
    } else {
        lemma_count_true_bounds(sched.drop_first());
        assert(b.len() > 0);
        assert(!sched.push(true)[0]);
        assert(sched.push(true).drop_first() =~= sched.drop_first().push(true));
        lemma_merge_push_true(a, b.drop_first(), sched.drop_first(), x);
        assert((seq![b[0]] + merge(a, b.drop_first(), sched.drop_first())).push(x) =~= seq![b[0]]
            + merge(a, b.drop_first(), sched.drop_first()).push(x));
    }
}

/// Scheduling one more message of `b` appends it to the merge.
pub proof fn lemma_merge_push_false<T>(a: Seq<T>, b: Seq<T>, sched: Seq<bool>, x: T)
    requires
        schedule_fits(a, b, sched),
    ensures
        merge(a, b.push(x), sched.push(false)) == merge(a, b, sched).push(x),
    decreases sched.len(),
{
    lemma_count_true_push(sched, false);
    if sched.len() == 0 {
        lemma_count_true_bounds(sched);
        assert(a.len() == 0 && b.len() == 0);
        assert(!sched.push(false)[0]);
        assert(b.push(x).drop_first() =~= Seq::<T>::empty());
        assert(sched.push(false).drop_first() =~= Seq::<bool>::empty());
        assert(merge(a, b.push(x), sched.push(false)) == seq![b.push(x)[0]] + merge(
            a,
            b.push(x).drop_first(),
            sched.push(false).drop_first(),
        ));
        assert(merge(a, Seq::<T>::empty(), Seq::<bool>::empty()) =~= Seq::<T>::empty());
        assert(merge(a, b.push(x), sched.push(false)) =~= seq![x]);
        assert(merge(a, b, sched).push(x) =~= seq![x]);
    } else if sched[0] {
        lemma_count_true_bounds(sched.drop_first());
        assert(a.len() > 0);
        assert(sched.push(false)[0]);
        assert(sched.push(false).drop_first() =~= sched.drop_first().push(false));
        lemma_merge_push_false(a.drop_first(), b, sched.drop_first(), x);
        assert((seq![a[0]] + merge(a.drop_first(), b, sched.drop_first())).push(x) =~= seq![a[0]]
            + merge(a.drop_first(), b, sched.drop_first()).push(x));
    } else {
        lemma_count_true_bounds(sched.drop_first());
        assert(b.len() > 0);
        assert(!sched.push(false)[0]);
        assert(sched.push(false).drop_first() =~= sched.drop_first().push(false));
        assert(b.push(x).drop_first() =~= b.drop_first().push(x));
        assert(b.push(x)[0] == b[0]);
        lemma_merge_push_false(a, b.drop_first(), sched.drop_first(), x);
        assert((seq![b[0]] + merge(a, b.drop_first(), sched.drop_first())).push(x) =~= seq![b[0]]
            + merge(a, b.drop_first(), sched.drop_first()).push(x));
    }
}

/// Within one sender's stream, send order survives any interleaving: if every
/// message of `a` is recognisable as `a`'s and none of `b`'s is, then keeping
/// only `a`'s messages from the merged arrival order gives back exactly `a`,
/// in `a`'s send order.
pub proof fn lemma_merge_keeps_sender_order<T>(
    a: Seq<T>,
    b: Seq<T>,
    sched: Seq<bool>,
    from_a: spec_fn(T) -> bool,
)
    requires
        schedule_fits(a, b, sched),
        forall|i: int| 0 <= i < a.len() ==> from_a(#[trigger] a[i]),
        forall|j: int| 0 <= j < b.len() ==> !from_a(#[trigger] b[j]),
    ensures
        merge(a, b, sched).filter(from_a) == a,
    decreases sched.len(),
{
    broadcast use Seq::lemma_filter_push;

    if sched.len() == 0 {
        lemma_count_true_bounds(sched);
        assert(merge(a, b, sched).filter(from_a) =~= a) by {
            reveal(Seq::filter);
        }
    } else if sched[0] {
        lemma_count_true_bounds(sched.drop_first());
        assert(a.len() > 0);
        lemma_merge_keeps_sender_order(a.drop_first(), b, sched.drop_first(), from_a);
        Seq::filter_distributes_over_add(
            seq![a[0]],
            merge(a.drop_first(), b, sched.drop_first()),
            from_a,
        );
        assert(seq![a[0]] =~= Seq::empty().push(a[0]));
        assert(Seq::<T>::empty().filter(from_a) =~= Seq::<T>::empty()) by {
            reveal(Seq::filter);
        }
        assert(seq![a[0]].filter(from_a) =~= seq![a[0]]);
        assert(seq![a[0]] + a.drop_first() =~= a);
    } else {
        lemma_count_true_bounds(sched.drop_first());
        assert(b.len() > 0);
        lemma_merge_keeps_sender_order(a, b.drop_first(), sched.drop_first(), from_a);
        Seq::filter_distributes_over_add(
            seq![b[0]],
            merge(a, b.drop_first(), sched.drop_first()),
            from_a,
        );
        assert(seq![b[0]] =~= Seq::empty().push(b[0]));
        assert(Seq::<T>::empty().filter(from_a) =~= Seq::<T>::empty()) by {
            reveal(Seq::filter);
        }
        assert(seq![b[0]].filter(from_a) =~= Seq::<T>::empty());
    }
}

/// Two sender endpoints interleave their message streams according to an
/// arbitrary schedule; after both are dropped, the receiver drains exactly
/// `a.len() + b.len()` messages, merged in arrival order with each sender's
/// own order intact.
pub fn exchange_two_senders<T: Copy>(a: &Vec<T>, b: &Vec<T>, sched: &Vec<bool>) -> (received: Vec<
    T,
>)
    requires
        schedule_fits(a@, b@, sched@),
    ensures
        received@ == merge(a@, b@, sched@),
        received@.len() == a@.len() + b@.len(),
{
    let mut ch: Channel<T> = create_channel();
    ch.clone_sender();
    let mut ai: usize = 0;
    let mut bi: usize = 0;
    let mut k: usize = 0;
    while k < sched.len()
        invariant
            schedule_fits(a@, b@, sched@),
            k <= sched@.len(),
            ai + bi == k,
            ai <= a@.len(),
            bi <= b@.len(),
            count_true(sched@.take(k as int)) == ai,
            ch.sender_count() == 2,
            ch.receiver_live(),
            ch.messages() == merge(a@.take(ai as int), b@.take(bi as int), sched@.take(k as int)),
        decreases sched@.len() - k,
    {
        proof {
            assert(sched@.take(k as int).push(sched@[k as int]) =~= sched@.take(k + 1));
            lemma_count_true_push(sched@.take(k as int), sched@[k as int]);
            assert(sched@ =~= sched@.take(k + 1) + sched@.skip(k + 1));
            lemma_count_true_concat(sched@.take(k + 1), sched@.skip(k + 1));
            lemma_count_true_bounds(sched@.skip(k + 1));
        }
        if sched[k] {
            proof {
                assert(a@.take(ai as int).push(a@[ai as int]) =~= a@.take(ai + 1));
                lemma_merge_push_true(
                    a@.take(ai as int),
                    b@.take(bi as int),
                    sched@.take(k as int),
                    a@[ai as int],
                );
            }
            let _sent = ch.send(a[ai]);
            ai = ai + 1;
        } else {
            proof {
                assert(b@.take(bi as int).push(b@[bi as int]) =~= b@.take(bi + 1));
                lemma_merge_push_false(
                    a@.take(ai as int),
                    b@.take(bi as int),
                    sched@.take(k as int),
                    b@[bi as int],
                );
            }
            let _sent = ch.send(b[bi]);
            bi = bi + 1;
        }
        k = k + 1;
    }
    proof {
        assert(sched@.take(sched@.len() as int) =~= sched@);
        assert(a@.take(ai as int) =~= a@);
        assert(b@.take(bi as int) =~= b@);
        lemma_merge_len(a@, b@, sched@);
    }
    ch.drop_sender();
    ch.drop_sender();
    ch.drain()
}

} // verus!
