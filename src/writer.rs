//! The decisions of the storage writer while it commits one batch: every
//! row is inserted inside one transaction, and the transaction is committed
//! only when every insert succeeded.
use vstd::prelude::*;

verus! {

/// What the writer does next with the open transaction.
#[derive(Clone, Copy, Debug, PartialEq, Eq)]
pub enum WriteStep {
    /// Run the insert of the batch's row at this index.
    Execute(usize),
    /// Every insert succeeded: commit the transaction.
    Commit,
    /// An insert failed: roll the whole transaction back.
    Rollback,
}

pub open spec fn next_step(total: nat, done: nat, failed: bool) -> WriteStep {
    if failed {
        WriteStep::Rollback
    } else if done < total {
        WriteStep::Execute(done as usize)
    } else {
        WriteStep::Commit
    }
}

/// The progress of one batch write: how many rows it holds, how many
/// inserts succeeded, and whether one failed.
pub struct BatchWrite {
    total: usize,
    done: usize,
    failed: bool,
}

impl View for BatchWrite {
    type V = (nat, nat, bool);

    closed spec fn view(&self) -> (nat, nat, bool) {
        (self.total as nat, self.done as nat, self.failed)
    }
}

/// The progress after feeding the outcomes of the inserts, in order, to a
/// write of `total` rows. An outcome that comes when no insert is due is
/// not taken.
pub open spec fn write_run(total: nat, outcomes: Seq<bool>) -> (nat, bool)
    decreases outcomes.len(),
{
    if outcomes.len() == 0 {
        (0, false)
    } else {
        let before = write_run(total, outcomes.drop_last());
        if !before.1 && before.0 < total {
            if outcomes.last() {
                ((before.0 + 1) as nat, false)
            } else {
                (before.0, true)
            }
        } else {
            before
        }
    }
}

pub open spec fn min_nat(a: nat, b: nat) -> nat {
    if a < b {
        a
    } else {
        b
    }
}

impl BatchWrite {
    pub open spec fn wf(&self) -> bool {
        self@.1 <= self@.0 && (self@.2 ==> self@.1 < self@.0)
    }

    /// A write of a batch of `total` rows, in a freshly opened transaction.
    pub fn new(total: usize) -> (r: BatchWrite)
        ensures
            r@ == (total as nat, 0nat, false),
            r.wf(),
    {
        BatchWrite { total, done: 0, failed: false }
    }

    pub fn next(&self) -> (r: WriteStep)
        ensures
            r == next_step(self@.0, self@.1, self@.2),
    {
        if self.failed {
            WriteStep::Rollback
        } else if self.done < self.total {
            WriteStep::Execute(self.done)
        } else {
            WriteStep::Commit
        }
    }

    /// Takes the outcome of the insert that `next` asked for.
    pub fn record(&mut self, ok: bool)
        requires
            old(self).wf(),
            next_step(old(self)@.0, old(self)@.1, old(self)@.2) is Execute,
        ensures
            final(self).wf(),
            ok ==> final(self)@ == (old(self)@.0, (old(self)@.1 + 1) as nat, false),
            !ok ==> final(self)@ == (old(self)@.0, old(self)@.1, true),
    {
        if ok {
            self.done = self.done + 1;
        } else {
            self.failed = true;
        }
    }
}

/// Batch atomicity: a write commits exactly when every row of the batch was
/// inserted successfully. When any insert fails, it rolls back, after no
/// further insert.
pub proof fn lemma_commit_iff_all_rows_ok(total: nat, outcomes: Seq<bool>)
    ensures
        ({
            let s = write_run(total, outcomes);
            &&& (next_step(total, s.0, s.1) == WriteStep::Commit) <==> (outcomes.len() >= total
                && forall|i: int| 0 <= i < total ==> #[trigger] outcomes[i])
            &&& (next_step(total, s.0, s.1) == WriteStep::Rollback) <==> (exists|i: int|
                0 <= i < min_nat(outcomes.len(), total) && !#[trigger] outcomes[i])
        }),
{
    lemma_run_prefix(total, outcomes);
    let k = min_nat(outcomes.len(), total);
    let s = write_run(total, outcomes);
    if forall|i: int| 0 <= i < k ==> #[trigger] outcomes[i] {
        if outcomes.len() >= total {
            assert forall|i: int| 0 <= i < total implies #[trigger] outcomes[i] by {}
        } else {
            assert(s.0 < total);
        }
    } else {
        let j = choose|j: int| 0 <= j < k && !#[trigger] outcomes[j];
        assert(!outcomes[j]);
        if outcomes.len() >= total {
            assert(!(forall|i: int| 0 <= i < total ==> #[trigger] outcomes[i]));
        }
    }
}

proof fn lemma_run_prefix(total: nat, outcomes: Seq<bool>)
    ensures
        ({
            let s = write_run(total, outcomes);
            let k = min_nat(outcomes.len(), total);
            &&& s.0 <= total
            &&& s.1 ==> s.0 < total
            &&& (forall|i: int| 0 <= i < k ==> #[trigger] outcomes[i]) ==> s == (k, false)
            &&& (exists|i: int| 0 <= i < k && !#[trigger] outcomes[i]) ==> s.1
        }),
    decreases outcomes.len(),
{
    if outcomes.len() > 0 {
        let init = outcomes.drop_last();
        lemma_run_prefix(total, init);
        let k = min_nat(outcomes.len(), total);
        let k0 = min_nat(init.len(), total);
        assert forall|i: int| 0 <= i < init.len() implies init[i] == outcomes[i] by {}
        if forall|i: int| 0 <= i < k ==> #[trigger] outcomes[i] {
            assert forall|i: int| 0 <= i < k0 implies #[trigger] init[i] by {
                assert(outcomes[i]);
            }
            if k0 < total {
                assert(outcomes[init.len() as int]);
            }
        }
        if exists|i: int| 0 <= i < k && !#[trigger] outcomes[i] {
            let j = choose|j: int| 0 <= j < k && !#[trigger] outcomes[j];
            if j < k0 {
                assert(!init[j]);
            } else {
                if forall|i: int| 0 <= i < k0 ==> #[trigger] init[i] {
                    assert(outcomes.last() == outcomes[j]);
                }
            }
        }
    }
}

} // verus!
