//! The ingest status store, and what the ingest surface decides: what a
//! record's status becomes while the queue is drained, and what a batch of
//! enqueue results adds up to.

use vstd::hash_map::StringHashMap;
use vstd::prelude::*;
use vstd::string::*;

verus! {

/// The status of every record that was taken in, by its receipt.
pub struct IngestStatusStore {
    inner: StringHashMap<String>,
}

impl View for IngestStatusStore {
    type V = Map<Seq<char>, Seq<char>>;

    closed spec fn view(&self) -> Map<Seq<char>, Seq<char>> {
        self.inner@.map_values(|status: String| status@)
    }
}

impl IngestStatusStore {
    /// A store that knows no receipt.
    pub fn new() -> (store: IngestStatusStore)
        ensures
            store@ == Map::<Seq<char>, Seq<char>>::empty(),
    {
        let store = IngestStatusStore { inner: StringHashMap::new() };
        assert(store@ =~= Map::<Seq<char>, Seq<char>>::empty());
        store
    }

    /// Sets the status of a receipt, in the place of the one it had.
    pub fn set_status(&mut self, receipt: String, status: String)
        ensures
            final(self)@ == old(self)@.insert(receipt@, status@),
    {
        self.inner.insert(receipt, status);
        assert(self@ =~= old(self)@.insert(receipt@, status@));
    }

    /// The status of a receipt, if the store knows the receipt.
    pub fn get_status(&self, receipt: &str) -> (status: Option<String>)
        ensures
            match status {
                Some(s) => self@.contains_key(receipt@) && s@ == self@[receipt@],
                None => !self@.contains_key(receipt@),
            },
    {
        match self.inner.get(receipt) {
            Some(status) => Some(status.clone()),
            None => None,
        }
    }
}

/// The status of a record that waits in the queue.
pub open spec fn enqueued() -> Seq<char> {
    "Enqueued"@
}

/// How the write of a drained record ended.
#[derive(Debug)]
pub enum RecordOutcome {
    /// The record was written.
    Written,
    /// The write failed, with the reason.
    WriteFailed(String),
    /// The record's start time is no valid instant, so it was not written.
    InvalidTimestamp,
}

/// Which counter a drained record adds to.
#[derive(Debug, Clone, Copy, PartialEq, Eq, Structural)]
pub enum Counter {
    Ingestion,
    Error,
}

/// What becomes of a drained record.
#[derive(Debug)]
pub struct RecordVerdict {
    /// The status that the store keeps for the receipt.
    pub status: String,
    /// Whether the record leaves the queue.
    pub remove_from_queue: bool,
    /// The counter that goes up by one.
    pub counter: Counter,
}

/// The status that an outcome leaves: `Ingested`, `Failed: ` with the
/// reason, or `Invalid timestamp`.
pub open spec fn status_of(outcome: RecordOutcome) -> Seq<char> {
    match outcome {
        RecordOutcome::Written => "Ingested"@,
        RecordOutcome::WriteFailed(reason) => "Failed: "@ + reason@,
        RecordOutcome::InvalidTimestamp => "Invalid timestamp"@,
    }
}

/// Decides what becomes of a drained record, and notes its status.
///
/// A record that was written, or that can never be written, leaves the
/// queue; one whose write failed stays, to be tried again. Only a written
/// record counts as ingested.
pub fn process_record(store: &mut IngestStatusStore, key: String, outcome: RecordOutcome) -> (verdict:
    RecordVerdict)
    ensures
        verdict.status@ == status_of(outcome),
        verdict.remove_from_queue == !(outcome is WriteFailed),
        verdict.counter == (if outcome is Written {
            Counter::Ingestion
        } else {
            Counter::Error
        }),
        final(store)@ == old(store)@.insert(key@, status_of(outcome)),
{
    let verdict = match outcome {
        RecordOutcome::Written => RecordVerdict {
            status: String::from_str("Ingested"),
            remove_from_queue: true,
            counter: Counter::Ingestion,
        },
        RecordOutcome::WriteFailed(reason) => {
            let mut status = String::from_str("Failed: ");
            status.append(reason.as_str());
            RecordVerdict { status, remove_from_queue: false, counter: Counter::Error }
        },
        RecordOutcome::InvalidTimestamp => RecordVerdict {
            status: String::from_str("Invalid timestamp"),
            remove_from_queue: true,
            counter: Counter::Error,
        },
    };
    store.set_status(key, verdict.status.clone());
    verdict
}

/// What a batch of enqueue results adds up to.
#[derive(Debug)]
pub struct BatchOutcome {
    /// The receipts of the records that were enqueued, in order.
    pub receipts: Vec<String>,
    /// The position and the reason of every record that was not.
    pub errors: Vec<(usize, String)>,
}

/// The receipts among some enqueue results, in order.
pub open spec fn receipts_of(results: Seq<Result<Seq<char>, Seq<char>>>) -> Seq<Seq<char>>
    decreases results.len(),
{
    if results.len() == 0 {
        Seq::empty()
    } else {
        match results.last() {
            Ok(receipt) => receipts_of(results.drop_last()).push(receipt),
            Err(_) => receipts_of(results.drop_last()),
        }
    }
}

/// The failures among some enqueue results, each with its position.
pub open spec fn errors_of(results: Seq<Result<Seq<char>, Seq<char>>>) -> Seq<(usize, Seq<char>)>
    decreases results.len(),
{
    if results.len() == 0 {
        Seq::empty()
    } else {
        match results.last() {
            Ok(_) => errors_of(results.drop_last()),
            Err(reason) => errors_of(results.drop_last()).push(
                ((results.len() - 1) as usize, reason),
            ),
        }
    }
}

/// The store after every receipt among the results is noted as enqueued.
pub open spec fn with_enqueued(
    statuses: Map<Seq<char>, Seq<char>>,
    results: Seq<Result<Seq<char>, Seq<char>>>,
) -> Map<Seq<char>, Seq<char>>
    decreases results.len(),
{
    if results.len() == 0 {
        statuses
    } else {
        match results.last() {
            Ok(receipt) => with_enqueued(statuses, results.drop_last()).insert(receipt, enqueued()),
            Err(_) => with_enqueued(statuses, results.drop_last()),
        }
    }
}

/// The text of an enqueue result.
pub open spec fn result_text(r: Result<String, String>) -> Result<Seq<char>, Seq<char>> {
    match r {
        Ok(receipt) => Ok(receipt@),
        Err(reason) => Err(reason@),
    }
}

impl BatchOutcome {
    /// Whether every record of the batch was enqueued.
    pub fn is_success(&self) -> (ok: bool)
        ensures
            ok == (self.errors.len() == 0),
    {
        self.errors.len() == 0
    }
}

/// Adds up the enqueue results of a batch: every receipt is noted as
/// `Enqueued` and listed; every failure is listed with its position.
pub fn ingest_batch(store: &mut IngestStatusStore, results: &Vec<Result<String, String>>) -> (outcome:
    BatchOutcome)
    ensures
        outcome.receipts.deep_view() == receipts_of(results@.map_values(|r| result_text(r))),
        outcome.errors.deep_view() == errors_of(results@.map_values(|r| result_text(r))),
        final(store)@ == with_enqueued(old(store)@, results@.map_values(|r| result_text(r))),
{
    let ghost texts = results@.map_values(|r| result_text(r));
    let mut receipts: Vec<String> = Vec::new();
    let mut errors: Vec<(usize, String)> = Vec::new();
    let mut i: usize = 0;
    assert(texts.take(0) =~= Seq::<Result<Seq<char>, Seq<char>>>::empty());
    assert(receipts.deep_view() =~= Seq::<Seq<char>>::empty());
    assert(errors.deep_view() =~= Seq::<(usize, Seq<char>)>::empty());
    while i < results.len()
        invariant
            i <= results.len(),
            texts == results@.map_values(|r| result_text(r)),
            receipts.deep_view() == receipts_of(texts.take(i as int)),
            errors.deep_view() == errors_of(texts.take(i as int)),
            store@ == with_enqueued(old(store)@, texts.take(i as int)),
        decreases results.len() - i,
    {
        proof {
            assert(texts.take(i as int + 1).drop_last() =~= texts.take(i as int));
            assert(texts.take(i as int + 1).last() == result_text(results@[i as int]));
        }
        let ghost receipts_before = receipts.deep_view();
        let ghost errors_before = errors.deep_view();
        match &results[i] {
            Ok(receipt) => {
                store.set_status(receipt.clone(), String::from_str("Enqueued"));
                receipts.push(receipt.clone());
                assert(receipts.deep_view() =~= receipts_before.push(receipt@));
            },
            Err(reason) => {
                errors.push((i, reason.clone()));
                assert(errors.deep_view() =~= errors_before.push((i, reason@)));
            },
        }
        i += 1;
    }
    assert(texts.take(results.len() as int) =~= texts);
    BatchOutcome { receipts, errors }
}

/// Notes the result of enqueuing one record: a receipt is noted as
/// `Enqueued`; a failure changes nothing. Returns whether there was a
/// receipt.
pub fn ingest(store: &mut IngestStatusStore, result: &Result<String, String>) -> (accepted: bool)
    ensures
        accepted == result is Ok,
        final(store)@ == (match *result {
            Ok(receipt) => old(store)@.insert(receipt@, enqueued()),
            Err(_) => old(store)@,
        }),
{
    match result {
        Ok(receipt) => {
            store.set_status(receipt.clone(), String::from_str("Enqueued"));
            true
        },
        Err(_) => false,
    }
}

} // verus!
