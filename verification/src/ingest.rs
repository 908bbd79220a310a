//! Incremental ingestion of payments: read the cursor, fetch the batch that
//! follows it, store the batch, and only then advance the cursor.

use crate::cursor::CursorStore;
use crate::ledger::{
    distinct_ids, first_rejected, lemma_replay_after_partial_store, lemma_stored_all, stored_all,
    PaymentLedger, PaymentRecord,
};
use vstd::prelude::*;

verus! {

/// What the remote source returns for one request: the records that follow
/// the requested position, and the position that follows them.
#[derive(Debug, Clone)]
pub struct Batch {
    pub records: Vec<PaymentRecord>,
    pub next_position: String,
}

/// Why a run of the ingestor failed.
#[derive(Debug, Clone)]
pub enum IngestionFailure {
    /// The remote source could not be reached or returned a malformed batch.
    RemoteFetch { message: String },
    /// The store refused a write after `stored` records of the batch.
    Persistence { stored: usize },
}

/// The position from which a task without a cursor starts.
pub open spec fn start_of_history() -> Seq<char> {
    "0"@
}

/// The position at which a run starts: the cursor of the task, or the start
/// of history where it has none.
pub open spec fn start_position(cursors: Map<Seq<char>, Seq<char>>, task: Seq<char>) -> Seq<char> {
    if cursors.contains_key(task) {
        cursors[task]
    } else {
        start_of_history()
    }
}

/// The position at which a run starts, given the cursor that was read.
pub fn first_position(cursor: Option<String>) -> (position: String)
    ensures
        position@ == match cursor {
            Some(text) => text@,
            None => start_of_history(),
        },
{
    match cursor {
        Some(text) => text,
        None => "0".to_owned(),
    }
}

/// The ingestor with the two stores that it owns.
pub struct PaymentIngestor {
    pub cursors: CursorStore,
    pub ledger: PaymentLedger,
}

/// How a run that fetched `fetched` relates the stores before it to the
/// stores after it and to its result.
///
/// A failed fetch changes nothing. A batch that the ledger takes completely
/// is stored, and the cursor of the task becomes the position that came with
/// the batch. A batch that the ledger refuses at some record is stored up to
/// that record, and every cursor stays as it was.
pub open spec fn run_outcome(
    before: PaymentIngestor,
    task: Seq<char>,
    fetched: Result<Batch, String>,
    after: PaymentIngestor,
    outcome: Result<usize, IngestionFailure>,
) -> bool {
    match fetched {
        Err(message) => {
            &&& outcome == Err::<usize, IngestionFailure>(IngestionFailure::RemoteFetch { message })
            &&& after.ledger@ == before.ledger@
            &&& after.cursors@ == before.cursors@
        },
        Ok(batch) => match first_rejected(
            before.ledger@,
            batch.records@,
            before.ledger.capacity(),
        ) {
            Some(k) => {
                &&& outcome == Err::<usize, IngestionFailure>(
                    IngestionFailure::Persistence { stored: k as usize },
                )
                &&& after.ledger@ == stored_all(before.ledger@, batch.records@.take(k))
                &&& after.cursors@ == before.cursors@
            },
            None => {
                &&& outcome == Ok::<usize, IngestionFailure>(batch.records@.len() as usize)
                &&& after.ledger@ == stored_all(before.ledger@, batch.records@)
                &&& after.cursors@ == before.cursors@.insert(task, batch.next_position@)
            },
        },
    }
}

impl PaymentIngestor {
    /// Whether both stores are well formed.
    pub open spec fn wf(&self) -> bool {
        self.cursors.wf() && self.ledger.wf()
    }

    /// An ingestor with empty stores.
    pub fn new() -> (ingestor: Self)
        ensures
            ingestor.wf(),
            ingestor.ledger@.len() == 0,
            ingestor.cursors@ == Map::<Seq<char>, Seq<char>>::empty(),
    {
        PaymentIngestor { cursors: CursorStore::new(), ledger: PaymentLedger::new() }
    }

    /// Runs one ingestion for `task_name` at time `now`.
    ///
    /// `fetch` is called exactly once, with the position at which the run
    /// starts. On success the result is the number of records in the batch.
    pub fn run<F: FnOnce(&String) -> Result<Batch, String>>(
        &mut self,
        task_name: &str,
        now: u64,
        fetch: F,
    ) -> (outcome: Result<usize, IngestionFailure>)
        requires
            old(self).wf(),
            forall|position: String| #[trigger] call_requires(fetch, (&position,)),
        ensures
            final(self).wf(),
            final(self).ledger.capacity() == old(self).ledger.capacity(),
            exists|position: String, fetched: Result<Batch, String>|
                {
                    &&& position@ == start_position(old(self).cursors@, task_name@)
                    &&& #[trigger] call_ensures(fetch, (&position,), fetched)
                    &&& run_outcome(*old(self), task_name@, fetched, *final(self), outcome)
                },
    {
        let position = first_position(self.cursors.get_ingestion_cursor(task_name));
        let fetched = fetch(&position);
        let ghost witness = fetched;
        let outcome = match fetched {
            Err(message) => Err(IngestionFailure::RemoteFetch { message }),
            Ok(batch) => {
                let count = batch.records.len();
                match self.ledger.save_payments(batch.records) {
                    Err(failure) => Err(IngestionFailure::Persistence { stored: failure.stored }),
                    Ok(()) => {
                        self.cursors.update_ingestion_cursor(
                            task_name,
                            batch.next_position.as_str(),
                            now,
                        );
                        Ok(count)
                    },
                }
            },
        };
        proof {
            assert(call_ensures(fetch, (&position,), witness));
            assert(run_outcome(*old(self), task_name@, witness, *self, outcome));
        }
        outcome
    }
}

/// When a run fails while storing a batch, a later run that starts from the
/// same rows as that run left them and stores the same batch completely
/// ends with the rows that one complete run would have given: no record is
/// stored twice, and the ids stay distinct.
pub proof fn lemma_retry_after_failed_run(
    rows: Seq<PaymentRecord>,
    batch: Seq<PaymentRecord>,
    stored_before_failure: int,
)
    requires
        distinct_ids(rows),
        0 <= stored_before_failure <= batch.len(),
    ensures
        stored_all(stored_all(rows, batch.take(stored_before_failure)), batch) == stored_all(
            rows,
            batch,
        ),
        distinct_ids(stored_all(rows, batch)),
{
    lemma_replay_after_partial_store(rows, batch, stored_before_failure);
    lemma_stored_all(rows, batch);
}

/// Where one ingestion cycle stands when the stores and the remote source
/// are outside the process: what it waits for.
#[derive(Debug, Clone)]
pub enum CycleState {
    AwaitingCursor,
    AwaitingBatch,
    AwaitingPersist { next_position: String },
    AwaitingCursorWrite,
    Finished,
    Aborted,
}

/// What the outside reports back to a cycle.
#[derive(Debug, Clone)]
pub enum CycleEvent {
    /// The cursor was read; `position` is where the run starts.
    CursorRead { position: String },
    BatchFetched { batch: Batch },
    FetchFailed { message: String },
    Persisted,
    PersistFailed { stored: usize },
    CursorWritten,
    StoreFailed,
}

/// What a cycle asks the outside to do next.
#[derive(Debug, Clone)]
pub enum CycleAction {
    FetchSince { position: String },
    Persist { records: Vec<PaymentRecord> },
    WriteCursor { position: String },
    Succeed,
    Fail { failure: IngestionFailure },
}

/// The transition of a cycle: the state and the action that follow from a
/// state and an event, or nothing where the state does not await the event.
pub open spec fn next_step(state: CycleState, event: CycleEvent) -> Option<
    (CycleState, CycleAction),
> {
    match (state, event) {
        (CycleState::AwaitingCursor, CycleEvent::CursorRead { position }) => Some(
            (CycleState::AwaitingBatch, CycleAction::FetchSince { position }),
        ),
        (CycleState::AwaitingCursor, CycleEvent::StoreFailed) => Some(
            (
                CycleState::Aborted,
                CycleAction::Fail { failure: IngestionFailure::Persistence { stored: 0 } },
            ),
        ),
        (CycleState::AwaitingBatch, CycleEvent::BatchFetched { batch }) => Some(
            (
                CycleState::AwaitingPersist { next_position: batch.next_position },
                CycleAction::Persist { records: batch.records },
            ),
        ),
        (CycleState::AwaitingBatch, CycleEvent::FetchFailed { message }) => Some(
            (
                CycleState::Aborted,
                CycleAction::Fail { failure: IngestionFailure::RemoteFetch { message } },
            ),
        ),
        (CycleState::AwaitingPersist { next_position }, CycleEvent::Persisted) => Some(
            (CycleState::AwaitingCursorWrite, CycleAction::WriteCursor { position: next_position }),
        ),
        (CycleState::AwaitingPersist { next_position }, CycleEvent::PersistFailed { stored }) => Some(
            (
                CycleState::Aborted,
                CycleAction::Fail { failure: IngestionFailure::Persistence { stored } },
            ),
        ),
        (CycleState::AwaitingCursorWrite, CycleEvent::CursorWritten) => Some(
            (CycleState::Finished, CycleAction::Succeed),
        ),
        (CycleState::AwaitingCursorWrite, CycleEvent::StoreFailed) => Some(
            (
                CycleState::Aborted,
                CycleAction::Fail { failure: IngestionFailure::Persistence { stored: 0 } },
            ),
        ),
        _ => None,
    }
}

/// A cycle asks for the cursor to be written only in answer to the report
/// that the batch was stored, and then with the position that came with
/// that batch.
pub proof fn lemma_cursor_written_after_persist(state: CycleState, event: CycleEvent)
    ensures
        match next_step(state, event) {
            Some((after, CycleAction::WriteCursor { position })) => event is Persisted
                && state == (CycleState::AwaitingPersist { next_position: position })
                && after is AwaitingCursorWrite,
            _ => true,
        },
{
}

/// A reported failure ends the cycle without any further action: the step
/// that answers it fails, and an ended cycle takes no more steps.
pub proof fn lemma_failure_ends_cycle(state: CycleState, event: CycleEvent, later: CycleEvent)
    requires
        event is FetchFailed || event is PersistFailed || event is StoreFailed,
    ensures
        match next_step(state, event) {
            Some((after, action)) => after is Aborted && action is Fail && next_step(after, later)
                is None,
            None => true,
        },
{
}

/// Advances a cycle by one event.
pub fn advance_cycle(state: CycleState, event: CycleEvent) -> (step: Option<
    (CycleState, CycleAction),
>)
    ensures
        step == next_step(state, event),
{
    match state {
        CycleState::AwaitingCursor => match event {
            CycleEvent::CursorRead { position } => Some(
                (CycleState::AwaitingBatch, CycleAction::FetchSince { position }),
            ),
            CycleEvent::StoreFailed => Some(
                (
                    CycleState::Aborted,
                    CycleAction::Fail { failure: IngestionFailure::Persistence { stored: 0 } },
                ),
            ),
            _ => None,
        },
        CycleState::AwaitingBatch => match event {
            CycleEvent::BatchFetched { batch } => Some(
                (
                    CycleState::AwaitingPersist { next_position: batch.next_position },
                    CycleAction::Persist { records: batch.records },
                ),
            ),
            CycleEvent::FetchFailed { message } => Some(
                (
                    CycleState::Aborted,
                    CycleAction::Fail { failure: IngestionFailure::RemoteFetch { message } },
                ),
            ),
            _ => None,
        },
        CycleState::AwaitingPersist { next_position } => match event {
            CycleEvent::Persisted => Some(
                (
                    CycleState::AwaitingCursorWrite,
                    CycleAction::WriteCursor { position: next_position },
                ),
            ),
            CycleEvent::PersistFailed { stored } => Some(
                (
                    CycleState::Aborted,
                    CycleAction::Fail { failure: IngestionFailure::Persistence { stored } },
                ),
            ),
            _ => None,
        },
        CycleState::AwaitingCursorWrite => match event {
            CycleEvent::CursorWritten => Some((CycleState::Finished, CycleAction::Succeed)),
            CycleEvent::StoreFailed => Some(
                (
                    CycleState::Aborted,
                    CycleAction::Fail { failure: IngestionFailure::Persistence { stored: 0 } },
                ),
            ),
            _ => None,
        },
        CycleState::Finished => None,
        CycleState::Aborted => None,
    }
}

} // verus!
