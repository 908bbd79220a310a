//! The payment ledger: append-only storage in which the insertion of a
//! record whose id is already present changes nothing.

use crate::text::str_equal;
use vstd::prelude::*;

verus! {

/// One payment as it arrives from the remote source. The amount is given in
/// the smallest unit of the asset, the time in seconds since the epoch.
#[derive(Debug, Clone)]
pub struct PaymentRecord {
    pub id: String,
    pub transaction_hash: String,
    pub source_account: String,
    pub destination_account: String,
    pub asset_type: String,
    pub asset_code: Option<String>,
    pub asset_issuer: Option<String>,
    pub amount: u64,
    pub created_at: u64,
}

/// Whether a record with the given id is among the rows.
pub open spec fn has_id(rows: Seq<PaymentRecord>, id: Seq<char>) -> bool {
    exists|i: int| 0 <= i < rows.len() && (#[trigger] rows[i]).id@ == id
}

/// Whether no two rows have the same id.
pub open spec fn distinct_ids(rows: Seq<PaymentRecord>) -> bool {
    forall|i: int, j: int|
        0 <= i < j < rows.len() ==> (#[trigger] rows[i]).id@ != (#[trigger] rows[j]).id@
}

/// The rows after the insertion of one record: unchanged if its id is
/// present, else extended by the record.
pub open spec fn stored(rows: Seq<PaymentRecord>, record: PaymentRecord) -> Seq<PaymentRecord> {
    if has_id(rows, record.id@) {
        rows
    } else {
        rows.push(record)
    }
}

/// The rows after the insertion of a batch, record by record in order.
pub open spec fn stored_all(rows: Seq<PaymentRecord>, batch: Seq<PaymentRecord>) -> Seq<
    PaymentRecord,
>
    decreases batch.len(),
{
    if batch.len() == 0 {
        rows
    } else {
        stored(stored_all(rows, batch.drop_last()), batch.last())
    }
}

/// Inserting a record keeps the ids distinct, keeps every id that was
/// present, and makes the id of the record present.
pub proof fn lemma_stored(rows: Seq<PaymentRecord>, record: PaymentRecord)
    requires
        distinct_ids(rows),
    ensures
        distinct_ids(stored(rows, record)),
        has_id(stored(rows, record), record.id@),
        forall|id: Seq<char>| has_id(rows, id) ==> has_id(stored(rows, record), id),
        forall|i: int| 0 <= i < rows.len() ==> stored(rows, record)[i] == rows[i],
{
    let after = stored(rows, record);
    if !has_id(rows, record.id@) {
        assert(after[rows.len() as int].id@ == record.id@);
        assert forall|i: int, j: int| 0 <= i < j < after.len() implies (#[trigger] after[i]).id@
            != (#[trigger] after[j]).id@ by {
            assert(after[i] == rows[i]);
            if j < rows.len() {
                assert(after[j] == rows[j]);
            }
        }
        assert forall|id: Seq<char>| has_id(rows, id) implies has_id(after, id) by {
            let i = choose|i: int| 0 <= i < rows.len() && (#[trigger] rows[i]).id@ == id;
            assert(after[i].id@ == id);
        }
    }
}

/// Inserting a record a second time, or another record with the same id,
/// leaves every stored row as it was.
pub proof fn lemma_insert_idempotent(
    rows: Seq<PaymentRecord>,
    record: PaymentRecord,
    again: PaymentRecord,
)
    requires
        distinct_ids(rows),
        again.id@ == record.id@,
    ensures
        stored(stored(rows, record), again) == stored(rows, record),
{
    lemma_stored(rows, record);
}

/// Inserting a batch keeps the ids distinct, keeps every row that was
/// there in its place, and makes the id of each record of the batch present.
pub proof fn lemma_stored_all(rows: Seq<PaymentRecord>, batch: Seq<PaymentRecord>)
    requires
        distinct_ids(rows),
    ensures
        distinct_ids(stored_all(rows, batch)),
        rows.len() <= stored_all(rows, batch).len(),
        forall|i: int| 0 <= i < rows.len() ==> stored_all(rows, batch)[i] == rows[i],
        forall|id: Seq<char>| has_id(rows, id) ==> has_id(stored_all(rows, batch), id),
        forall|j: int|
            0 <= j < batch.len() ==> has_id(stored_all(rows, batch), (#[trigger] batch[j]).id@),
    decreases batch.len(),
{
    if batch.len() > 0 {
        let shorter = batch.drop_last();
        lemma_stored_all(rows, shorter);
        let before = stored_all(rows, shorter);
        lemma_stored(before, batch.last());
        assert forall|j: int| 0 <= j < batch.len() implies has_id(
            stored_all(rows, batch),
            (#[trigger] batch[j]).id@,
        ) by {
            if j < shorter.len() {
                assert(shorter[j] == batch[j]);
            }
        }
    }
}

/// A batch whose ids are all present changes nothing.
pub proof fn lemma_known_batch_changes_nothing(rows: Seq<PaymentRecord>, batch: Seq<PaymentRecord>)
    requires
        forall|j: int| 0 <= j < batch.len() ==> has_id(rows, (#[trigger] batch[j]).id@),
    ensures
        stored_all(rows, batch) == rows,
    decreases batch.len(),
{
    if batch.len() > 0 {
        let shorter = batch.drop_last();
        assert forall|j: int| 0 <= j < shorter.len() implies has_id(
            rows,
            (#[trigger] shorter[j]).id@,
        ) by {
            assert(shorter[j] == batch[j]);
        }
        lemma_known_batch_changes_nothing(rows, shorter);
        assert(has_id(rows, batch[batch.len() - 1].id@));
    }
}

/// Replaying a batch after only its first `done` records were stored gives
/// the same rows as storing the batch once: the part that was stored is not
/// stored again.
pub proof fn lemma_replay_after_partial_store(
    rows: Seq<PaymentRecord>,
    batch: Seq<PaymentRecord>,
    done: int,
)
    requires
        distinct_ids(rows),
        0 <= done <= batch.len(),
    ensures
        stored_all(stored_all(rows, batch.take(done)), batch) == stored_all(rows, batch),
{
    lemma_replay_prefix(rows, batch, done, batch.len() as int);
    assert(batch.take(batch.len() as int) =~= batch);
}

proof fn lemma_replay_prefix(
    rows: Seq<PaymentRecord>,
    batch: Seq<PaymentRecord>,
    done: int,
    upto: int,
)
    requires
        distinct_ids(rows),
        0 <= done <= batch.len(),
        0 <= upto <= batch.len(),
    ensures
        stored_all(stored_all(rows, batch.take(done)), batch.take(upto)) == stored_all(
            rows,
            batch.take(if done < upto {
                upto
            } else {
                done
            }),
        ),
    decreases upto,
{
    let partial = stored_all(rows, batch.take(done));
    if upto <= done {
        lemma_stored_all(rows, batch.take(done));
        assert forall|j: int| 0 <= j < batch.take(upto).len() implies has_id(
            partial,
            (#[trigger] batch.take(upto)[j]).id@,
        ) by {
            assert(batch.take(done)[j] == batch.take(upto)[j]);
        }
        lemma_known_batch_changes_nothing(partial, batch.take(upto));
    } else {
        lemma_replay_prefix(rows, batch, done, upto - 1);
        assert(batch.take(upto).drop_last() =~= batch.take(upto - 1));
        assert(batch.take(upto).last() == batch[upto - 1]);
    }
}

/// Position in `batch`, at or after `from`, of the first record that a
/// ledger holding `rows` with room for `limit` rows cannot take: a record
/// with a new id that arrives when the ledger is full.
pub open spec fn first_rejected_from(
    rows: Seq<PaymentRecord>,
    batch: Seq<PaymentRecord>,
    limit: nat,
    from: int,
) -> Option<int>
    decreases batch.len() - from,
{
    if from < 0 || from >= batch.len() {
        None
    } else {
        let so_far = stored_all(rows, batch.take(from));
        if !has_id(so_far, batch[from].id@) && so_far.len() >= limit {
            Some(from)
        } else {
            first_rejected_from(rows, batch, limit, from + 1)
        }
    }
}

/// Position in `batch` of the first record that the ledger cannot take, if
/// there is one.
pub open spec fn first_rejected(
    rows: Seq<PaymentRecord>,
    batch: Seq<PaymentRecord>,
    limit: nat,
) -> Option<int> {
    first_rejected_from(rows, batch, limit, 0)
}

/// The ledger was full when a payment with a new id arrived.
#[derive(Debug, Clone, Copy, PartialEq, Eq, Structural)]
pub struct LedgerFull;

/// A batch could not be stored completely: `stored` of its records were
/// handled before the ledger refused one.
#[derive(Debug, Clone, Copy, PartialEq, Eq, Structural)]
pub struct PersistenceFailure {
    pub stored: usize,
}

/// The stored payments, with room for a limited number of rows.
pub struct PaymentLedger {
    rows: Vec<PaymentRecord>,
    limit: usize,
}

impl View for PaymentLedger {
    type V = Seq<PaymentRecord>;

    closed spec fn view(&self) -> Seq<PaymentRecord> {
        self.rows@
    }
}

impl PaymentLedger {
    /// The number of rows for which the ledger has room.
    pub closed spec fn capacity(&self) -> nat {
        self.limit as nat
    }

    /// Whether the ledger is well formed: no id occurs twice, and the rows
    /// fit into its capacity.
    pub open spec fn wf(&self) -> bool {
        distinct_ids(self@) && self@.len() <= self.capacity()
    }

    /// An empty ledger with as much room as the machine allows.
    pub fn new() -> (ledger: Self)
        ensures
            ledger.wf(),
            ledger@ == Seq::<PaymentRecord>::empty(),
            ledger.capacity() == usize::MAX,
    {
        PaymentLedger { rows: Vec::new(), limit: usize::MAX }
    }

    /// An empty ledger with room for `limit` rows.
    pub fn with_capacity(limit: usize) -> (ledger: Self)
        ensures
            ledger.wf(),
            ledger@ == Seq::<PaymentRecord>::empty(),
            ledger.capacity() == limit,
    {
        PaymentLedger { rows: Vec::new(), limit }
    }

    /// Changes the room of the ledger, but never below what it holds.
    pub fn set_capacity(&mut self, limit: usize)
        requires
            old(self).wf(),
        ensures
            final(self).wf(),
            final(self)@ == old(self)@,
            final(self).capacity() == if limit < old(self)@.len() {
                old(self)@.len()
            } else {
                limit as nat
            },
    {
        if limit < self.rows.len() {
            self.limit = self.rows.len();
        } else {
            self.limit = limit;
        }
    }

    /// Whether a payment with this id is stored.
    pub fn contains(&self, id: &str) -> (present: bool)
        ensures
            present == has_id(self@, id@),
    {
        let mut i: usize = 0;
        while i < self.rows.len()
            invariant
                i <= self.rows.len(),
                forall|k: int| 0 <= k < i ==> (#[trigger] self.rows[k]).id@ != id@,
            decreases self.rows.len() - i,
        {
            if str_equal(self.rows[i].id.as_str(), id) {
                return true;
            }
            i = i + 1;
        }
        false
    }

    /// Stores one payment unless its id is present already, and tells
    /// whether it was stored. A payment with a new id is refused when the
    /// ledger is full; nothing changes then.
    pub fn insert_payment(&mut self, payment: PaymentRecord) -> (inserted: Result<bool, LedgerFull>)
        requires
            old(self).wf(),
        ensures
            final(self).wf(),
            final(self).capacity() == old(self).capacity(),
            if has_id(old(self)@, payment.id@) {
                inserted == Ok::<bool, LedgerFull>(false) && final(self)@ == old(self)@
            } else if old(self)@.len() >= old(self).capacity() {
                inserted == Err::<bool, LedgerFull>(LedgerFull) && final(self)@ == old(self)@
            } else {
                inserted == Ok::<bool, LedgerFull>(true) && final(self)@ == old(self)@.push(payment)
            },
            inserted is Ok ==> final(self)@ == stored(old(self)@, payment),
    {
        proof {
            lemma_stored(self@, payment);
        }
        if self.contains(payment.id.as_str()) {
            Ok(false)
        } else if self.rows.len() >= self.limit {
            Err(LedgerFull)
        } else {
            self.rows.push(payment);
            Ok(true)
        }
    }

    /// Stores a batch of payments in order. A payment whose id is present
    /// already is skipped, so a batch may be saved any number of times. The
    /// batch is stored up to the first payment that the ledger refuses.
    pub fn save_payments(&mut self, payments: Vec<PaymentRecord>) -> (saved: Result<
        (),
        PersistenceFailure,
    >)
        requires
            old(self).wf(),
        ensures
            final(self).wf(),
            final(self).capacity() == old(self).capacity(),
            match first_rejected(old(self)@, payments@, old(self).capacity()) {
                None => saved == Ok::<(), PersistenceFailure>(()) && final(self)@ == stored_all(
                    old(self)@,
                    payments@,
                ),
                Some(k) => saved == Err::<(), PersistenceFailure>(
                    PersistenceFailure { stored: k as usize },
                ) && final(self)@ == stored_all(old(self)@, payments@.take(k)),
            },
    {
        let ghost before = self@;
        let ghost limit = self.capacity();
        assert(payments@.take(0) =~= Seq::<PaymentRecord>::empty());
        let count = payments.len();
        let mut handled: usize = 0;
        for payment in iter: payments
            invariant
                iter.seq() == payments@,
                payments@.len() == count,
                handled == iter.index(),
                before == old(self)@,
                limit == old(self).capacity(),
                self.wf(),
                self.capacity() == limit,
                self@ == stored_all(before, payments@.take(handled as int)),
                first_rejected(before, payments@, limit) == first_rejected_from(
                    before,
                    payments@,
                    limit,
                    handled as int,
                ),
        {
            proof {
                let n = handled as int;
                assert(n < payments@.len());
                assert(payments@.take(n + 1).drop_last() =~= payments@.take(n));
                assert(payments@.take(n + 1).last() == payment);
            }
            match self.insert_payment(payment) {
                Ok(_) => {},
                Err(_) => {
                    return Err(PersistenceFailure { stored: handled });
                },
            }
            handled = handled + 1;
        }
        assert(payments@.take(payments@.len() as int) =~= payments@);
        Ok(())
    }

    /// Number of stored payments.
    pub fn len(&self) -> (n: usize)
        ensures
            n == self@.len(),
    {
        self.rows.len()
    }

    /// The stored payments in the order in which they were first stored.
    pub fn rows(&self) -> (rows: &Vec<PaymentRecord>)
        ensures
            rows@ == self@,
    {
        &self.rows
    }
}

} // verus!
