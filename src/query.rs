//! The bounded read of frame markers served to the front end.
use vstd::prelude::*;
use crate::model::FrameInformation;

verus! {

/// Rows collected by one bounded read: never more than the requested count,
/// in the order storage yields them.
pub struct FrameRead {
    limit: usize,
    rows: Vec<FrameInformation>,
}

impl View for FrameRead {
    type V = (nat, Seq<FrameInformation>);

    closed spec fn view(&self) -> (nat, Seq<FrameInformation>) {
        (self.limit as nat, self.rows@)
    }
}

/// What a bounded read returns when storage yields `stored`: its first
/// `limit` rows, or all of them when there are fewer.
pub open spec fn bounded_rows(stored: Seq<FrameInformation>, limit: nat) -> Seq<FrameInformation> {
    if stored.len() <= limit {
        stored
    } else {
        stored.take(limit as int)
    }
}

/// The rows collected after storage yielded `stored`, one at a time, each
/// taken only while the read wants more.
pub open spec fn read_run(limit: nat, stored: Seq<FrameInformation>) -> Seq<FrameInformation>
    decreases stored.len(),
{
    if stored.len() == 0 {
        Seq::empty()
    } else {
        let before = read_run(limit, stored.drop_last());
        if before.len() < limit {
            before.push(stored.last())
        } else {
            before
        }
    }
}

impl FrameRead {
    pub open spec fn wf(&self) -> bool {
        self@.1.len() <= self@.0
    }

    pub fn new(limit: usize) -> (r: FrameRead)
        ensures
            r@ == (limit as nat, Seq::<FrameInformation>::empty()),
            r.wf(),
    {
        FrameRead { limit, rows: Vec::new() }
    }

    /// Whether the next row that storage yields is still taken.
    pub fn wants_more(&self) -> (r: bool)
        ensures
            r == (self@.1.len() < self@.0),
    {
        self.rows.len() < self.limit
    }

    /// Takes the next row, while fewer than the limit are held.
    pub fn push(&mut self, row: FrameInformation)
        requires
            old(self).wf(),
            old(self)@.1.len() < old(self)@.0,
        ensures
            final(self).wf(),
            final(self)@ == (old(self)@.0, old(self)@.1.push(row)),
    {
        self.rows.push(row);
    }

    pub fn finish(self) -> (r: Vec<FrameInformation>)
        requires
            self.wf(),
        ensures
            r@ == self@.1,
            r@.len() <= self@.0,
    {
        self.rows
    }
}

/// A bounded read returns exactly the first `min(limit, n)` of the `n` rows
/// that storage holds, in storage order.
pub proof fn lemma_read_is_bounded(limit: nat, stored: Seq<FrameInformation>)
    ensures
        read_run(limit, stored) == bounded_rows(stored, limit),
    decreases stored.len(),
{
    if stored.len() > 0 {
        let init = stored.drop_last();
        lemma_read_is_bounded(limit, init);
        if init.len() < limit {
            assert(init.push(stored.last()) =~= stored);
        } else if init.len() == limit {
            assert(init =~= stored.take(limit as int));
        } else {
            assert(init.take(limit as int) =~= stored.take(limit as int));
        }
    }
}

} // verus!
