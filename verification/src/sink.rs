//! How a batch is written to the sink: one transaction, one row per event,
//! each row under a timeout. The rule here decides what follows each row;
//! whoever owns the database connection does the writing.

use vstd::prelude::*;

verus! {

/// Seconds that the write of one row may take.
pub const ROW_TIMEOUT_SECS: u64 = 10;

/// How the write of one row ended.
#[derive(Clone, Copy, Debug, PartialEq, Eq, Structural)]
pub enum RowOutcome {
    /// The row was written.
    Inserted,
    /// The write did not end in time. The row is given up.
    TimedOut,
    /// The sink reported an error.
    Failed,
}

/// What to do next within the transaction.
#[derive(Clone, Copy, Debug, PartialEq, Eq, Structural)]
pub enum NextWrite {
    /// Write the row of the event at `index`.
    Row { index: usize },
    /// Every row has been tried: commit.
    Commit,
    /// Give the transaction up and report the error.
    Abort,
}

/// What follows the row at `index` of `rows`: after an error the
/// transaction is given up; otherwise, written or timed out, the next row
/// follows, and the commit follows the last row.
pub open spec fn after_row_spec(index: int, rows: int, outcome: RowOutcome) -> NextWrite {
    if outcome is Failed {
        NextWrite::Abort
    } else if index + 1 < rows {
        NextWrite::Row { index: (index + 1) as usize }
    } else {
        NextWrite::Commit
    }
}

/// Where a transaction of `rows` rows stands after the outcomes of its
/// first rows, in order.
pub open spec fn progress(rows: int, outcomes: Seq<RowOutcome>) -> NextWrite
    decreases outcomes.len(),
{
    if outcomes.len() == 0 {
        if rows > 0 {
            NextWrite::Row { index: 0 }
        } else {
            NextWrite::Commit
        }
    } else {
        match progress(rows, outcomes.drop_last()) {
            NextWrite::Row { index } => after_row_spec(index as int, rows, outcomes.last()),
            halted => halted,
        }
    }
}

/// The first step of a transaction of `rows` rows.
pub fn first_write(rows: usize) -> (next: NextWrite)
    ensures
        next == progress(rows as int, Seq::<RowOutcome>::empty()),
{
    if rows > 0 {
        NextWrite::Row { index: 0 }
    } else {
        NextWrite::Commit
    }
}

/// What follows the row at `index` of `rows`, given how its write ended.
pub fn after_row(index: usize, rows: usize, outcome: RowOutcome) -> (next: NextWrite)
    ensures
        next == after_row_spec(index as int, rows as int, outcome),
{
    match outcome {
        RowOutcome::Failed => NextWrite::Abort,
        _ => {
            if index < rows && index + 1 < rows {
                NextWrite::Row { index: index + 1 }
            } else {
                NextWrite::Commit
            }
        },
    }
}

/// While no row fails, rows are tried one after the other, whether they
/// were written or timed out: after `k` outcomes row `k` is next, and the
/// commit follows once every row has had its turn.
pub proof fn lemma_timeouts_do_not_abort(rows: int, outcomes: Seq<RowOutcome>)
    requires
        0 <= outcomes.len() <= rows <= usize::MAX,
        forall|i: int| 0 <= i < outcomes.len() ==> !(#[trigger] outcomes[i] is Failed),
    ensures
        outcomes.len() < rows ==> progress(rows, outcomes) == (NextWrite::Row {
            index: outcomes.len() as usize,
        }),
        outcomes.len() == rows ==> progress(rows, outcomes) == NextWrite::Commit,
    decreases outcomes.len(),
{
    if outcomes.len() > 0 {
        let front = outcomes.drop_last();
        assert forall|i: int| 0 <= i < front.len() implies !(#[trigger] front[i] is Failed) by {
            assert(front[i] == outcomes[i]);
        }
        lemma_timeouts_do_not_abort(rows, front);
        assert(!(outcomes[outcomes.len() - 1] is Failed));
    }
}

/// A row that fails ends the transaction without a commit, whatever is
/// reported after it.
pub proof fn lemma_failure_aborts(rows: int, outcomes: Seq<RowOutcome>, k: int)
    requires
        0 <= k < outcomes.len(),
        k < rows <= usize::MAX,
        outcomes[k] is Failed,
        forall|i: int| 0 <= i < k ==> !(#[trigger] outcomes[i] is Failed),
    ensures
        progress(rows, outcomes) == NextWrite::Abort,
    decreases outcomes.len(),
{
    let front = outcomes.drop_last();
    if k == outcomes.len() - 1 {
        assert forall|i: int| 0 <= i < front.len() implies !(#[trigger] front[i] is Failed) by {
            assert(front[i] == outcomes[i]);
        }
        lemma_timeouts_do_not_abort(rows, front);
    } else {
        assert(front[k] == outcomes[k]);
        assert forall|i: int| 0 <= i < k implies !(#[trigger] front[i] is Failed) by {
            assert(front[i] == outcomes[i]);
        }
        lemma_failure_aborts(rows, front, k);
    }
}

} // verus!
