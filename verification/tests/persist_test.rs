use currency_exchange_api::persist::{
    chunk_bounds, chunk_count, run_ending, BatchPersister, PersistAction, PersistFault,
    PersistStatus, UpsertOutcome, BATCH_SIZE,
};

#[test]
fn chunk_count_rounds_up() {
    assert_eq!(BATCH_SIZE, 100);
    assert_eq!(chunk_count(0), 0);
    assert_eq!(chunk_count(1), 1);
    assert_eq!(chunk_count(100), 1);
    assert_eq!(chunk_count(101), 2);
    assert_eq!(chunk_count(250), 3);
    assert_eq!(chunk_count(usize::MAX), usize::MAX / 100 + 1);
}

#[test]
fn chunk_bounds_tile_the_batch() {
    assert_eq!(chunk_bounds(250, 0), (0, 100));
    assert_eq!(chunk_bounds(250, 1), (100, 200));
    assert_eq!(chunk_bounds(250, 2), (200, 250));
    assert_eq!(chunk_bounds(100, 0), (0, 100));
    assert_eq!(chunk_bounds(1, 0), (0, 1));
}

#[test]
fn empty_batch_is_a_no_op() {
    let (state, action) = BatchPersister::begin(0);
    assert_eq!(action, PersistAction::Finish { affected: 0 });
    assert_eq!(state.status, PersistStatus::Finished);
    assert_eq!(state.written_chunks, 0);
}

#[test]
fn a_run_submits_one_statement_per_chunk() {
    let (mut state, mut action) = BatchPersister::begin(250);
    let mut statements = Vec::new();
    while let PersistAction::Upsert { start, end } = action {
        statements.push((start, end));
        action = state.advance(UpsertOutcome::Affected((end - start) as u64));
    }
    assert_eq!(statements, vec![(0, 100), (100, 200), (200, 250)]);
    assert_eq!(action, PersistAction::Finish { affected: 250 });
    assert_eq!(state.status, PersistStatus::Finished);
    assert_eq!(state.written_chunks, 3);
}

#[test]
fn affected_rows_may_exceed_the_records() {
    let (mut state, _) = BatchPersister::begin(150);
    assert_eq!(
        state.advance(UpsertOutcome::Affected(200)),
        PersistAction::Upsert { start: 100, end: 150 }
    );
    assert_eq!(
        state.advance(UpsertOutcome::Affected(100)),
        PersistAction::Finish { affected: 300 }
    );
}

#[test]
fn a_fault_aborts_and_keeps_the_written_prefix() {
    let (mut state, _) = BatchPersister::begin(250);
    state.advance(UpsertOutcome::Affected(100));
    let action = state.advance(UpsertOutcome::Fault);
    assert_eq!(action, PersistAction::Fail { written_chunks: 1, affected: 100 });
    assert_eq!(state.status, PersistStatus::Failed);
    assert_eq!(state.written_chunks, 1);
}

#[test]
fn affected_count_is_capped() {
    let (mut state, _) = BatchPersister::begin(150);
    state.advance(UpsertOutcome::Affected(u64::MAX));
    let action = state.advance(UpsertOutcome::Affected(u64::MAX));
    assert_eq!(action, PersistAction::Finish { affected: usize::MAX });
}

#[test]
fn a_run_ends_with_its_count_or_its_fault() {
    assert_eq!(run_ending(PersistAction::Upsert { start: 0, end: 100 }), None);
    assert_eq!(run_ending(PersistAction::Finish { affected: 7 }), Some(Ok(7)));
    assert_eq!(
        run_ending(PersistAction::Fail { written_chunks: 2, affected: 200 }),
        Some(Err(PersistFault { written_chunks: 2, affected: 200 }))
    );
    let (mut state, _) = BatchPersister::begin(150);
    state.advance(UpsertOutcome::Affected(100));
    let action = state.advance(UpsertOutcome::Fault);
    assert_eq!(run_ending(action), Some(Err(PersistFault { written_chunks: 1, affected: 100 })));
}
