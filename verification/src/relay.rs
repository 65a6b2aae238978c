//! The streaming relay: a bounded first-in-first-out hand-off between the
//! task pulling chunks from the upstream response and the task writing them
//! to the caller. The bound makes backpressure explicit: a full queue stops
//! the producer instead of buffering without limit.

use vstd::prelude::*;

verus! {

/// A bounded queue of byte chunks, with the ghost history of everything
/// that ever entered and left it.
pub struct RelayQueue {
    items: Vec<Vec<u8>>,
    capacity: usize,
    pushed: Ghost<Seq<Seq<u8>>>,
    popped: Ghost<Seq<Seq<u8>>>,
}

impl RelayQueue {
    /// The chunks currently held, oldest first.
    pub closed spec fn queued(&self) -> Seq<Seq<u8>> {
        Seq::new(self.items@.len(), |i: int| self.items@[i]@)
    }

    /// Every chunk the producer ever handed in, in order.
    pub closed spec fn pushed_view(&self) -> Seq<Seq<u8>> {
        self.pushed@
    }

    /// Every chunk the consumer ever took out, in order.
    pub closed spec fn popped_view(&self) -> Seq<Seq<u8>> {
        self.popped@
    }

    pub closed spec fn capacity_spec(&self) -> int {
        self.capacity as int
    }

    /// The queue invariant: the bound holds, and what went in is exactly
    /// what came out followed by what is still held.
    pub closed spec fn wf(&self) -> bool {
        &&& self.capacity >= 1
        &&& self.items@.len() <= self.capacity
        &&& self.pushed@ == self.popped@ + self.queued()
    }

    pub fn new(capacity: usize) -> (r: RelayQueue)
        requires
            capacity >= 1,
        ensures
            r.wf(),
            r.capacity_spec() == capacity,
            r.pushed_view() == Seq::<Seq<u8>>::empty(),
            r.popped_view() == Seq::<Seq<u8>>::empty(),
    {
        let r = RelayQueue {
            items: Vec::new(),
            capacity,
            pushed: Ghost(Seq::empty()),
            popped: Ghost(Seq::empty()),
        };
        proof {
            assert(r.queued() =~= Seq::<Seq<u8>>::empty());
            assert(r.pushed@ =~= r.popped@ + r.queued());
        }
        r
    }

    pub fn len(&self) -> (r: usize)
        ensures
            r == self.queued().len(),
    {
        self.items.len()
    }

    /// The producer's hand-off. A full queue refuses the chunk: the
    /// producer must wait for the consumer instead of buffering further.
    pub fn try_push(&mut self, chunk: Vec<u8>) -> (r: bool)
        requires
            old(self).wf(),
        ensures
            final(self).wf(),
            final(self).capacity_spec() == old(self).capacity_spec(),
            r == (old(self).queued().len() < old(self).capacity_spec()),
            r ==> final(self).pushed_view() == old(self).pushed_view().push(chunk@)
                && final(self).popped_view() == old(self).popped_view()
                && final(self).queued() == old(self).queued().push(chunk@),
            !r ==> final(self).pushed_view() == old(self).pushed_view()
                && final(self).popped_view() == old(self).popped_view()
                && final(self).queued() == old(self).queued(),
    {
        if self.items.len() < self.capacity {
            let ghost c: Seq<u8> = chunk@;
            self.items.push(chunk);
            proof {
                self.pushed@ = self.pushed@.push(c);
                assert(self.queued() =~= old(self).queued().push(c));
                assert(self.pushed@ =~= self.popped@ + self.queued());
            }
            true
        } else {
            false
        }
    }

    /// The consumer's take: the oldest chunk, exactly in arrival order.
    pub fn pop(&mut self) -> (r: Option<Vec<u8>>)
        requires
            old(self).wf(),
        ensures
            final(self).wf(),
            final(self).capacity_spec() == old(self).capacity_spec(),
            final(self).pushed_view() == old(self).pushed_view(),
            old(self).queued().len() == 0 ==> (r is None
                && final(self).popped_view() == old(self).popped_view()
                && final(self).queued() == old(self).queued()),
            old(self).queued().len() > 0 ==> (r matches Some(c) && c@ == old(self).queued()[0]
                && final(self).popped_view() == old(self).popped_view().push(c@)
                && final(self).queued() == old(self).queued().drop_first()),
    {
        if self.items.len() == 0 {
            proof {
                assert(self.queued() =~= old(self).queued());
            }
            None
        } else {
            let c = self.items.remove(0);
            proof {
                self.popped@ = self.popped@.push(c@);
                assert(self.queued() =~= old(self).queued().drop_first());
                assert(self.pushed@ =~= self.popped@ + self.queued());
            }
            Some(c)
        }
    }
}

/// Law: once the queue has drained, the consumer has taken exactly the
/// chunks the producer handed in, in the same order; in particular the
/// concatenation of the delivered bytes is identical to the concatenation
/// of the received bytes — no reordering, loss, or duplication.
pub proof fn lemma_relay_stream_preserved(q: RelayQueue)
    requires
        q.wf(),
        q.queued().len() == 0,
    ensures
        q.popped_view() == q.pushed_view(),
        q.popped_view().flatten() == q.pushed_view().flatten(),
{
    assert(q.pushed_view() =~= q.popped_view());
}

/// One step of the producer task: whether it keeps pulling from upstream.
pub enum RelayEvent {
    /// The chunk was accepted for delivery to the caller.
    Delivered,
    /// The caller disconnected: its end of the hand-off is gone.
    CallerGone,
    /// The upstream stream reported an error for this chunk.
    UpstreamErr,
    /// The upstream stream ended.
    UpstreamEnd,
}

/// The producer goes on only while chunks are delivered; on a caller
/// disconnect, an upstream error or the end of the stream it stops, which
/// releases the upstream response.
pub fn relay_producer_continues(e: &RelayEvent) -> (r: bool)
    ensures
        r == (e is Delivered),
{
    match e {
        RelayEvent::Delivered => true,
        RelayEvent::CallerGone => false,
        RelayEvent::UpstreamErr => false,
        RelayEvent::UpstreamEnd => false,
    }
}

} // verus!
