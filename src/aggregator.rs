//! The batching stage: the single consumer of decoded packets, which decides
//! when the pending packets go to storage as one batch.
//!
//! The driver polls the channel with a timeout of `POLL_TIMEOUT_MS` and hands
//! every outcome to `Aggregator::on_event`; a returned batch is written in one
//! transaction.
use vstd::prelude::*;
use crate::model::Packet;

verus! {

/// The most packets a batch holds; reaching it flushes at once.
pub const BATCH_LIMIT: usize = 100;

/// How long one poll of the channel waits for the next packet.
pub const POLL_TIMEOUT_MS: u64 = 10;

/// What one poll of the channel produced.
#[derive(Clone, Debug, PartialEq, Eq)]
pub enum PollEvent {
    /// A packet arrived.
    Received(Packet),
    /// The wait ended with no packet (timeout, or every sender gone).
    TimedOut,
}

/// One decision: the pending packets after the event, and the batch to
/// flush, if any.
pub open spec fn step(pending: Seq<Packet>, ev: PollEvent) -> (Seq<Packet>, Option<Seq<Packet>>) {
    match ev {
        PollEvent::Received(p) => {
            let q = pending.push(p);
            if q.len() >= BATCH_LIMIT {
                (Seq::empty(), Some(q))
            } else {
                (q, None)
            }
        },
        PollEvent::TimedOut => {
            if pending.len() > 0 {
                (Seq::empty(), Some(pending))
            } else {
                (pending, None)
            }
        },
    }
}

/// The pending packets and the batches flushed, in order, after a sequence
/// of events.
pub open spec fn run(pending: Seq<Packet>, evs: Seq<PollEvent>) -> (Seq<Packet>, Seq<Seq<Packet>>)
    decreases evs.len(),
{
    if evs.len() == 0 {
        (pending, Seq::empty())
    } else {
        let before = run(pending, evs.drop_last());
        let after = step(before.0, evs.last());
        match after.1 {
            Some(b) => (after.0, before.1.push(b)),
            None => (after.0, before.1),
        }
    }
}

/// The packets that a sequence of events delivered, in arrival order.
pub open spec fn received(evs: Seq<PollEvent>) -> Seq<Packet>
    decreases evs.len(),
{
    if evs.len() == 0 {
        Seq::empty()
    } else {
        match evs.last() {
            PollEvent::Received(p) => received(evs.drop_last()).push(p),
            PollEvent::TimedOut => received(evs.drop_last()),
        }
    }
}

/// The batches laid end to end.
pub open spec fn flatten(batches: Seq<Seq<Packet>>) -> Seq<Packet>
    decreases batches.len(),
{
    if batches.len() == 0 {
        Seq::empty()
    } else {
        flatten(batches.drop_last()) + batches.last()
    }
}

pub open spec fn all_received(evs: Seq<PollEvent>) -> bool {
    forall|i: int| 0 <= i < evs.len() ==> (#[trigger] evs[i]) is Received
}

pub open spec fn batch_view(r: Option<Vec<Packet>>) -> Option<Seq<Packet>> {
    match r {
        Some(v) => Some(v@),
        None => None,
    }
}

/// The in-memory buffer of packets that wait for the next flush.
pub struct Aggregator {
    pending: Vec<Packet>,
}

impl View for Aggregator {
    type V = Seq<Packet>;

    closed spec fn view(&self) -> Seq<Packet> {
        self.pending@
    }
}

impl Aggregator {
    /// Fewer packets wait than make a full batch.
    pub open spec fn wf(&self) -> bool {
        self@.len() < BATCH_LIMIT
    }

    pub fn new() -> (r: Aggregator)
        ensures
            r@ == Seq::<Packet>::empty(),
            r.wf(),
    {
        Aggregator { pending: Vec::new() }
    }

    pub fn pending_len(&self) -> (r: usize)
        ensures
            r == self@.len(),
    {
        self.pending.len()
    }

    /// Takes one poll outcome. A received packet is appended; the buffer is
    /// handed out as a batch once it holds `BATCH_LIMIT` packets, or when a
    /// poll ends with no packet while something waits.
    pub fn on_event(&mut self, ev: PollEvent) -> (r: Option<Vec<Packet>>)
        requires
            old(self).wf(),
        ensures
            final(self).wf(),
            (final(self)@, batch_view(r)) == step(old(self)@, ev),
    {
        match ev {
            PollEvent::Received(p) => {
                self.pending.push(p);
                if self.pending.len() >= BATCH_LIMIT {
                    Some(self.take_pending())
                } else {
                    None
                }
            },
            PollEvent::TimedOut => {
                if self.pending.len() > 0 {
                    Some(self.take_pending())
                } else {
                    None
                }
            },
        }
    }

    fn take_pending(&mut self) -> (r: Vec<Packet>)
        ensures
            r@ == old(self)@,
            final(self)@ == Seq::<Packet>::empty(),
    {
        let mut batch: Vec<Packet> = Vec::new();
        core::mem::swap(&mut self.pending, &mut batch);
        batch
    }
}

/// Nothing is lost, duplicated or reordered: the flushed batches laid end to
/// end, followed by what still waits, are exactly the packets that were
/// waiting before and those received since, in arrival order.
pub proof fn lemma_order_kept(pending: Seq<Packet>, evs: Seq<PollEvent>)
    ensures
        flatten(run(pending, evs).1) + run(pending, evs).0 == pending + received(evs),
    decreases evs.len(),
{
    if evs.len() > 0 {
        lemma_order_kept(pending, evs.drop_last());
        let before = run(pending, evs.drop_last());
        match evs.last() {
            PollEvent::Received(p) => {
                let q = before.0.push(p);
                if q.len() >= BATCH_LIMIT {
                    assert(flatten(before.1.push(q)) == flatten(before.1) + q) by {
                        assert(before.1.push(q).drop_last() =~= before.1);
                    }
                    assert(flatten(before.1) + q + Seq::<Packet>::empty() =~= flatten(before.1) + before.0 + seq![p]);
                    assert(pending + received(evs.drop_last()).push(p) =~= pending + received(evs.drop_last()) + seq![p]);
                } else {
                    assert(flatten(before.1) + q =~= flatten(before.1) + before.0 + seq![p]);
                    assert(pending + received(evs.drop_last()).push(p) =~= pending + received(evs.drop_last()) + seq![p]);
                }
            },
            PollEvent::TimedOut => {
                if before.0.len() > 0 {
                    assert(flatten(before.1.push(before.0)) == flatten(before.1) + before.0) by {
                        assert(before.1.push(before.0).drop_last() =~= before.1);
                    }
                    assert(flatten(before.1.push(before.0)) + Seq::<Packet>::empty() =~= flatten(before.1) + before.0);
                }
            },
        }
    }
}

/// No batch is empty or larger than `BATCH_LIMIT`, and fewer than
/// `BATCH_LIMIT` packets are ever left waiting.
pub proof fn lemma_batches_bounded(pending: Seq<Packet>, evs: Seq<PollEvent>)
    requires
        pending.len() < BATCH_LIMIT,
    ensures
        run(pending, evs).0.len() < BATCH_LIMIT,
        forall|i: int|
            0 <= i < run(pending, evs).1.len() ==> 0 < (#[trigger] run(pending, evs).1[i]).len()
                <= BATCH_LIMIT,
    decreases evs.len(),
{
    if evs.len() > 0 {
        lemma_batches_bounded(pending, evs.drop_last());
    }
}

/// Fewer than `BATCH_LIMIT` packets arriving on an empty buffer, with no
/// poll running dry, are all still waiting and nothing is flushed.
proof fn lemma_below_limit_waits(evs: Seq<PollEvent>)
    requires
        all_received(evs),
        evs.len() < BATCH_LIMIT,
    ensures
        run(Seq::empty(), evs) == (received(evs), Seq::<Seq<Packet>>::empty()),
        received(evs).len() == evs.len(),
    decreases evs.len(),
{
    if evs.len() > 0 {
        assert(evs.last() == evs[evs.len() - 1]);
        assert(all_received(evs.drop_last())) by {
            assert forall|i: int| 0 <= i < evs.drop_last().len() implies (#[trigger] evs.drop_last()[i]) is Received by {
                assert(evs.drop_last()[i] == evs[i]);
            }
        }
        lemma_below_limit_waits(evs.drop_last());
    }
}

/// Size trigger: when `BATCH_LIMIT` packets arrive back to back on an empty
/// buffer, the arrival of the last one flushes them all as one batch, before
/// any further packet is received.
pub proof fn lemma_size_flush(evs: Seq<PollEvent>)
    requires
        all_received(evs),
        evs.len() == BATCH_LIMIT,
    ensures
        run(Seq::empty(), evs) == (Seq::<Packet>::empty(), seq![received(evs)]),
        received(evs).len() == BATCH_LIMIT,
{
    let init = evs.drop_last();
    assert(all_received(init)) by {
        assert forall|i: int| 0 <= i < init.len() implies (#[trigger] init[i]) is Received by {
            assert(init[i] == evs[i]);
        }
    }
    lemma_below_limit_waits(init);
    assert(evs.last() == evs[evs.len() - 1]);
    assert(Seq::<Seq<Packet>>::empty().push(received(evs)) =~= seq![received(evs)]);
}

/// Time trigger: a poll that runs dry flushes everything that waits, as one
/// batch, and leaves the buffer empty.
pub proof fn lemma_time_flush(pending: Seq<Packet>, evs: Seq<PollEvent>)
    ensures
        run(pending, evs.push(PollEvent::TimedOut)).0 == Seq::<Packet>::empty(),
        run(pending, evs).0.len() > 0 ==> run(pending, evs.push(PollEvent::TimedOut)).1
            == run(pending, evs).1.push(run(pending, evs).0),
        run(pending, evs).0.len() == 0 ==> run(pending, evs.push(PollEvent::TimedOut)).1
            == run(pending, evs).1,
{
    assert(evs.push(PollEvent::TimedOut).drop_last() =~= evs);
}

} // verus!
