//! Chunked persistence: a batch of records is written in chunks of at most
//! one hundred, one upsert statement per chunk, in order. A fault on a chunk
//! aborts the chunks after it and leaves the chunks before it written.

use vstd::prelude::*;

verus! {

/// The largest number of records in one upsert statement.
pub const BATCH_SIZE: usize = 100;

/// The number of chunks that `total` records are split into: `total / 100`,
/// rounded up.
pub open spec fn chunk_total(total: nat) -> nat {
    (total + 99) / 100
}

/// The index of the first record of chunk `k`.
pub open spec fn chunk_start(k: nat) -> nat {
    k * 100
}

/// The index after the last record of chunk `k` of `total` records.
pub open spec fn chunk_end(total: nat, k: nat) -> nat {
    if (k + 1) * 100 <= total {
        (k + 1) * 100
    } else {
        total
    }
}

/// The sum of two counts, held at the largest `usize` where it would exceed it.
pub open spec fn capped_sum(a: nat, b: nat) -> nat {
    if a + b > usize::MAX {
        usize::MAX as nat
    } else {
        a + b
    }
}

/// The number of chunks that `total` records are split into.
pub fn chunk_count(total: usize) -> (chunks: usize)
    ensures
        chunks == chunk_total(total as nat),
        (total == 0) == (chunks == 0),
{
    if total % BATCH_SIZE == 0 {
        total / BATCH_SIZE
    } else {
        total / BATCH_SIZE + 1
    }
}

/// The half-open range of record indices that chunk `k` holds.
pub fn chunk_bounds(total: usize, k: usize) -> (bounds: (usize, usize))
    requires
        k < chunk_total(total as nat),
    ensures
        bounds.0 == chunk_start(k as nat),
        bounds.1 == chunk_end(total as nat, k as nat),
        bounds.0 < bounds.1 <= total,
        bounds.1 - bounds.0 <= BATCH_SIZE,
{
    let start: usize = k * BATCH_SIZE;
    let end: usize = if total - start >= BATCH_SIZE {
        start + BATCH_SIZE
    } else {
        total
    };
    (start, end)
}

/// What the store reported of one upsert statement.
#[derive(Clone, Copy, Debug, PartialEq, Eq, Structural)]
pub enum UpsertOutcome {
    /// The statement went through; the store counted this many affected rows.
    /// The count is the store's own: an updated row may count twice.
    Affected(u64),
    /// The statement failed.
    Fault,
}

/// What the caller is to do next.
#[derive(Clone, Copy, Debug, PartialEq, Eq, Structural)]
pub enum PersistAction {
    /// Submit one upsert statement for the records from `start` up to, not
    /// including, `end`.
    Upsert { start: usize, end: usize },
    /// Every chunk is written; the store counted `affected` rows in all.
    Finish { affected: usize },
    /// A chunk failed. The `written_chunks` chunks before it stay written, with
    /// `affected` rows counted; no later chunk is submitted.
    Fail { written_chunks: usize, affected: usize },
}

/// A run that a fault of the store ended: the chunks before the failed one
/// stay written.
#[derive(Clone, Copy, Debug, PartialEq, Eq, Structural)]
pub struct PersistFault {
    /// The number of chunks written before the fault.
    pub written_chunks: usize,
    /// The rows that the store counted as affected before the fault.
    pub affected: usize,
}

/// Where a persistence run stands.
#[derive(Clone, Copy, Debug, PartialEq, Eq, Structural)]
pub enum PersistStatus {
    /// An upsert statement is out and its outcome is awaited.
    Waiting,
    /// Every chunk is written.
    Finished,
    /// A chunk failed and the run was aborted.
    Failed,
}

/// The state of one persistence run over `total` records.
#[derive(Clone, Copy, Debug, PartialEq, Eq, Structural)]
pub struct BatchPersister {
    /// The number of records of the batch.
    pub total: usize,
    /// The number of chunks written so far.
    pub written_chunks: usize,
    /// The rows that the store counted as affected so far.
    pub affected: usize,
    pub status: PersistStatus,
}

impl BatchPersister {
    /// The written chunks are chunks of the batch; while waiting one more is
    /// out; a finished run has written them all.
    pub open spec fn wf(&self) -> bool {
        &&& self.written_chunks <= chunk_total(self.total as nat)
        &&& self.status == PersistStatus::Waiting ==> self.written_chunks < chunk_total(
            self.total as nat,
        )
        &&& self.status == PersistStatus::Finished ==> self.written_chunks == chunk_total(
            self.total as nat,
        )
    }

    /// The action that a waiting or finished run calls for.
    pub open spec fn pending(&self) -> PersistAction {
        if self.written_chunks < chunk_total(self.total as nat) {
            PersistAction::Upsert {
                start: chunk_start(self.written_chunks as nat) as usize,
                end: chunk_end(self.total as nat, self.written_chunks as nat) as usize,
            }
        } else {
            PersistAction::Finish { affected: self.affected }
        }
    }

    /// The state after the outcome of the statement that was out.
    pub open spec fn after(&self, outcome: UpsertOutcome) -> BatchPersister {
        match outcome {
            UpsertOutcome::Fault => BatchPersister { status: PersistStatus::Failed, ..*self },
            UpsertOutcome::Affected(rows) => BatchPersister {
                total: self.total,
                written_chunks: (self.written_chunks + 1) as usize,
                affected: capped_sum(self.affected as nat, rows as nat) as usize,
                status: if self.written_chunks + 1 < chunk_total(self.total as nat) {
                    PersistStatus::Waiting
                } else {
                    PersistStatus::Finished
                },
            },
        }
    }

    /// Begins a run over `total` records. An empty batch is finished at once,
    /// with no statement submitted and nothing affected; else the first chunk
    /// is to be submitted.
    pub fn begin(total: usize) -> (run: (BatchPersister, PersistAction))
        ensures
            run.0.wf(),
            run.0.total == total,
            run.0.written_chunks == 0,
            run.0.affected == 0,
            total == 0 ==> run.0.status == PersistStatus::Finished && run.1 == (
            PersistAction::Finish { affected: 0 }),
            total > 0 ==> run.0.status == PersistStatus::Waiting && run.1 == (
            PersistAction::Upsert { start: 0, end: chunk_end(total as nat, 0) as usize }),
            run.1 == run.0.pending(),
    {
        if total == 0 {
            let state = BatchPersister {
                total,
                written_chunks: 0,
                affected: 0,
                status: PersistStatus::Finished,
            };
            (state, PersistAction::Finish { affected: 0 })
        } else {
            let state = BatchPersister {
                total,
                written_chunks: 0,
                affected: 0,
                status: PersistStatus::Waiting,
            };
            let (start, end) = chunk_bounds(total, 0);
            (state, PersistAction::Upsert { start, end })
        }
    }

    /// Takes the outcome of the statement that was out and says what to do
    /// next: after a fault, fail, and submit nothing more; after the last
    /// chunk, finish; else submit the next chunk.
    pub fn advance(&mut self, outcome: UpsertOutcome) -> (action: PersistAction)
        requires
            old(self).wf(),
            old(self).status == PersistStatus::Waiting,
        ensures
            final(self).wf(),
            *final(self) == old(self).after(outcome),
            outcome == UpsertOutcome::Fault ==> action == (PersistAction::Fail {
                written_chunks: old(self).written_chunks,
                affected: old(self).affected,
            }),
            outcome != UpsertOutcome::Fault ==> action == final(self).pending(),
    {
        match outcome {
            UpsertOutcome::Fault => {
                self.status = PersistStatus::Failed;
                PersistAction::Fail { written_chunks: self.written_chunks, affected: self.affected }
            },
            UpsertOutcome::Affected(rows) => {
                let counted: usize = if rows > usize::MAX as u64 {
                    usize::MAX
                } else {
                    rows as usize
                };
                self.affected = if counted > usize::MAX - self.affected {
                    usize::MAX
                } else {
                    self.affected + counted
                };
                self.written_chunks = self.written_chunks + 1;
                if self.written_chunks < chunk_count(self.total) {
                    self.status = PersistStatus::Waiting;
                    let (start, end) = chunk_bounds(self.total, self.written_chunks);
                    PersistAction::Upsert { start, end }
                } else {
                    self.status = PersistStatus::Finished;
                    PersistAction::Finish { affected: self.affected }
                }
            },
        }
    }
}

/// How a run that gave `action` ended: not yet, while a statement is to be
/// submitted; with the affected rows, when every chunk is written; with a
/// fault, when a chunk failed.
pub open spec fn ending(action: PersistAction) -> Option<Result<usize, PersistFault>> {
    match action {
        PersistAction::Upsert { .. } => None,
        PersistAction::Finish { affected } => Some(Ok(affected)),
        PersistAction::Fail { written_chunks, affected } => Some(
            Err(PersistFault { written_chunks, affected }),
        ),
    }
}

/// Says how a run that gave `action` ended, if it has ended.
pub fn run_ending(action: PersistAction) -> (end: Option<Result<usize, PersistFault>>)
    ensures
        end == ending(action),
{
    match action {
        PersistAction::Upsert { .. } => None,
        PersistAction::Finish { affected } => Some(Ok(affected)),
        PersistAction::Fail { written_chunks, affected } => Some(
            Err(PersistFault { written_chunks, affected }),
        ),
    }
}

/// The state of a run over `total` records after the given outcomes, taken in
/// order; outcomes after the run has ended change nothing.
pub open spec fn run_after(total: usize, outcomes: Seq<UpsertOutcome>) -> BatchPersister
    decreases outcomes.len(),
{
    if outcomes.len() == 0 {
        BatchPersister {
            total,
            written_chunks: 0,
            affected: 0,
            status: if total == 0 {
                PersistStatus::Finished
            } else {
                PersistStatus::Waiting
            },
        }
    } else {
        let before = run_after(total, outcomes.drop_last());
        if before.status == PersistStatus::Waiting {
            before.after(outcomes.last())
        } else {
            before
        }
    }
}

/// The chunks tile the batch: the first begins at record zero, each begins
/// where the one before it ended, the last ends at the batch's end, and each
/// holds at least one and at most a hundred records.
pub proof fn law_chunks_tile_the_batch(total: nat, k: nat)
    requires
        k < chunk_total(total),
    ensures
        chunk_start(0) == 0,
        chunk_start(k) < chunk_end(total, k) <= total,
        chunk_end(total, k) - chunk_start(k) <= 100,
        k + 1 < chunk_total(total) ==> chunk_end(total, k) == chunk_start(k + 1) && chunk_end(
            total,
            k,
        ) - chunk_start(k) == 100,
        k + 1 == chunk_total(total) ==> chunk_end(total, k) == total,
{
}

/// A run without a fault submits one statement per chunk, `total / 100`
/// rounded up in all: as long as fewer outcomes than chunks have come in, the
/// run waits for one more, and with the last it is finished. A run over no
/// records is finished before any statement, with nothing affected.
pub proof fn law_one_statement_per_chunk(total: usize, outcomes: Seq<UpsertOutcome>)
    requires
        forall|i: int| 0 <= i < outcomes.len() ==> outcomes[i] != UpsertOutcome::Fault,
        outcomes.len() <= chunk_total(total as nat),
    ensures
        run_after(total, outcomes).wf(),
        run_after(total, outcomes).total == total,
        run_after(total, outcomes).written_chunks == outcomes.len(),
        outcomes.len() < chunk_total(total as nat) ==> run_after(total, outcomes).status
            == PersistStatus::Waiting,
        outcomes.len() == chunk_total(total as nat) ==> run_after(total, outcomes).status
            == PersistStatus::Finished,
        total == 0 ==> run_after(total, outcomes).status == PersistStatus::Finished && run_after(
            total,
            outcomes,
        ).affected == 0,
    decreases outcomes.len(),
{
    if outcomes.len() > 0 {
        let earlier = outcomes.drop_last();
        assert forall|i: int| 0 <= i < earlier.len() implies earlier[i] != UpsertOutcome::Fault by {
            assert(earlier[i] == outcomes[i]);
        }
        law_one_statement_per_chunk(total, earlier);
        assert(outcomes.last() == outcomes[outcomes.len() - 1]);
    }
}

/// A fault ends the run: the chunks written before it stay counted, and no
/// outcome that follows changes the state.
pub proof fn law_fault_aborts_the_rest(
    total: usize,
    outcomes: Seq<UpsertOutcome>,
    later: UpsertOutcome,
)
    requires
        run_after(total, outcomes).status == PersistStatus::Failed,
    ensures
        run_after(total, outcomes.push(later)) == run_after(total, outcomes),
{
    assert(outcomes.push(later).drop_last() =~= outcomes);
}

} // verus!
