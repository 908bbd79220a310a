use insights_core::cursor::CursorStore;
use insights_core::ingest::{
    advance_cycle, first_position, Batch, CycleAction, CycleEvent, CycleState, IngestionFailure, PaymentIngestor,
};
use insights_core::ledger::{PaymentLedger, PaymentRecord, PersistenceFailure};

fn payment(id: &str, amount: u64) -> PaymentRecord {
    PaymentRecord {
        id: id.to_string(),
        transaction_hash: format!("hash-{}", id),
        source_account: "GSOURCE".to_string(),
        destination_account: "GDEST".to_string(),
        asset_type: "credit_alphanum4".to_string(),
        asset_code: Some("USDC".to_string()),
        asset_issuer: Some("GISSUER".to_string()),
        amount,
        created_at: 1_700_000_000,
    }
}

fn ids(ledger: &PaymentLedger) -> Vec<String> {
    ledger.rows().iter().map(|r| r.id.clone()).collect()
}

#[test]
fn cursor_store_get_and_upsert() {
    let mut store = CursorStore::new();
    assert_eq!(store.get_ingestion_cursor("payments"), None);
    assert_eq!(store.last_update("payments"), None);
    store.update_ingestion_cursor("payments", "100", 5);
    store.update_ingestion_cursor("trades", "7", 6);
    assert_eq!(store.get_ingestion_cursor("payments"), Some("100".to_string()));
    assert_eq!(store.get_ingestion_cursor("trades"), Some("7".to_string()));
    store.update_ingestion_cursor("payments", "250", 9);
    assert_eq!(store.get_ingestion_cursor("payments"), Some("250".to_string()));
    assert_eq!(store.last_update("payments"), Some(9));
    assert_eq!(store.last_update("trades"), Some(6));
    // the store does not order positions
    store.update_ingestion_cursor("payments", "1", 10);
    assert_eq!(store.get_ingestion_cursor("payments"), Some("1".to_string()));
    assert_eq!(store.get_ingestion_cursor("other"), None);
}

#[test]
fn inserting_the_same_id_twice_keeps_the_stored_row() {
    let mut ledger = PaymentLedger::new();
    assert_eq!(ledger.insert_payment(payment("pay-1", 10)), Ok(true));
    assert_eq!(ledger.insert_payment(payment("pay-1", 999)), Ok(false));
    assert_eq!(ledger.len(), 1);
    assert_eq!(ledger.rows()[0].amount, 10);
    assert_eq!(ledger.rows()[0].transaction_hash, "hash-pay-1");
    assert!(ledger.contains("pay-1"));
    assert!(!ledger.contains("pay-2"));
}

#[test]
fn saving_an_overlapping_batch_adds_only_new_ids() {
    let mut ledger = PaymentLedger::new();
    assert_eq!(ledger.save_payments(vec![payment("a", 1), payment("b", 2)]), Ok(()));
    assert_eq!(
        ledger.save_payments(vec![payment("b", 20), payment("c", 3), payment("a", 10), payment("c", 30)]),
        Ok(())
    );
    assert_eq!(ids(&ledger), vec!["a", "b", "c"]);
    let amounts: Vec<u64> = ledger.rows().iter().map(|r| r.amount).collect();
    assert_eq!(amounts, vec![1, 2, 3]);
    assert_eq!(ledger.save_payments(Vec::new()), Ok(()));
    assert_eq!(ledger.len(), 3);
}

#[test]
fn full_ledger_refuses_new_ids_but_not_known_ones() {
    let mut ledger = PaymentLedger::with_capacity(2);
    let batch = vec![payment("a", 1), payment("b", 2), payment("a", 3), payment("c", 4), payment("d", 5)];
    assert_eq!(ledger.save_payments(batch), Err(PersistenceFailure { stored: 3 }));
    assert_eq!(ids(&ledger), vec!["a", "b"]);
    assert_eq!(ledger.save_payments(vec![payment("b", 7), payment("a", 8)]), Ok(()));
    ledger.set_capacity(1);
    assert_eq!(ledger.save_payments(vec![payment("z", 1)]), Err(PersistenceFailure { stored: 0 }));
    ledger.set_capacity(3);
    assert_eq!(ledger.save_payments(vec![payment("z", 1)]), Ok(()));
    assert_eq!(ids(&ledger), vec!["a", "b", "z"]);
}

#[test]
fn run_stores_the_batch_then_advances_the_cursor() {
    let mut ingestor = PaymentIngestor::new();
    let outcome = ingestor.run("payments", 42, |position: &String| {
        assert_eq!(position, "0");
        Ok(Batch { records: vec![payment("a", 1), payment("b", 2)], next_position: "b".to_string() })
    });
    assert!(matches!(outcome, Ok(2)));
    assert_eq!(ingestor.cursors.get_ingestion_cursor("payments"), Some("b".to_string()));
    assert_eq!(ingestor.cursors.last_update("payments"), Some(42));
    assert_eq!(ids(&ingestor.ledger), vec!["a", "b"]);

    let outcome = ingestor.run("payments", 43, |position: &String| {
        assert_eq!(position, "b");
        Ok(Batch { records: vec![payment("b", 2), payment("c", 3)], next_position: "c".to_string() })
    });
    assert!(matches!(outcome, Ok(2)));
    assert_eq!(ingestor.cursors.get_ingestion_cursor("payments"), Some("c".to_string()));
    assert_eq!(ids(&ingestor.ledger), vec!["a", "b", "c"]);
}

#[test]
fn failed_fetch_changes_nothing() {
    let mut ingestor = PaymentIngestor::new();
    ingestor.cursors.update_ingestion_cursor("payments", "17", 1);
    let outcome = ingestor.run("payments", 2, |_position: &String| Err("unreachable".to_string()));
    match outcome {
        Err(IngestionFailure::RemoteFetch { message }) => assert_eq!(message, "unreachable"),
        other => panic!("unexpected outcome {:?}", other),
    }
    assert_eq!(ingestor.cursors.get_ingestion_cursor("payments"), Some("17".to_string()));
    assert_eq!(ingestor.cursors.last_update("payments"), Some(1));
    assert_eq!(ingestor.ledger.len(), 0);
}

#[test]
fn failed_persistence_leaves_the_cursor_and_a_retry_makes_no_duplicates() {
    let mut ingestor = PaymentIngestor {
        cursors: CursorStore::new(),
        ledger: PaymentLedger::with_capacity(2),
    };
    ingestor.cursors.update_ingestion_cursor("payments", "5", 1);
    let batch = || Batch {
        records: vec![payment("a", 1), payment("b", 2), payment("c", 3)],
        next_position: "8".to_string(),
    };
    let outcome = ingestor.run("payments", 2, |position: &String| {
        assert_eq!(position, "5");
        Ok(batch())
    });
    assert!(matches!(outcome, Err(IngestionFailure::Persistence { stored: 2 })));
    assert_eq!(ingestor.cursors.get_ingestion_cursor("payments"), Some("5".to_string()));
    assert_eq!(ingestor.cursors.last_update("payments"), Some(1));
    assert_eq!(ids(&ingestor.ledger), vec!["a", "b"]);

    ingestor.ledger.set_capacity(10);
    let outcome = ingestor.run("payments", 3, |position: &String| {
        assert_eq!(position, "5");
        Ok(batch())
    });
    assert!(matches!(outcome, Ok(3)));
    assert_eq!(ingestor.cursors.get_ingestion_cursor("payments"), Some("8".to_string()));
    assert_eq!(ids(&ingestor.ledger), vec!["a", "b", "c"]);
}

#[test]
fn cycle_writes_the_cursor_only_after_the_batch_was_stored() {
    let position = first_position(None);
    let step = advance_cycle(CycleState::AwaitingCursor, CycleEvent::CursorRead { position });
    let state = match step {
        Some((state, CycleAction::FetchSince { position })) => {
            assert_eq!(position, "0");
            state
        }
        other => panic!("unexpected step {:?}", other),
    };
    let batch = Batch { records: vec![payment("a", 1)], next_position: "9".to_string() };
    let state = match advance_cycle(state, CycleEvent::BatchFetched { batch }) {
        Some((state, CycleAction::Persist { records })) => {
            assert_eq!(records.len(), 1);
            assert_eq!(records[0].id, "a");
            state
        }
        other => panic!("unexpected step {:?}", other),
    };
    assert!(advance_cycle(state.clone(), CycleEvent::CursorWritten).is_none());
    let state = match advance_cycle(state, CycleEvent::Persisted) {
        Some((state, CycleAction::WriteCursor { position })) => {
            assert_eq!(position, "9");
            state
        }
        other => panic!("unexpected step {:?}", other),
    };
    match advance_cycle(state, CycleEvent::CursorWritten) {
        Some((CycleState::Finished, CycleAction::Succeed)) => {}
        other => panic!("unexpected step {:?}", other),
    }
    assert!(advance_cycle(CycleState::Finished, CycleEvent::Persisted).is_none());
}

#[test]
fn cycle_with_a_cursor_fetches_from_it_and_aborts_on_failure() {
    let position = first_position(Some("77".to_string()));
    let state = match advance_cycle(CycleState::AwaitingCursor, CycleEvent::CursorRead { position }) {
        Some((state, CycleAction::FetchSince { position })) => {
            assert_eq!(position, "77");
            state
        }
        other => panic!("unexpected step {:?}", other),
    };
    match advance_cycle(state.clone(), CycleEvent::FetchFailed { message: "timeout".to_string() }) {
        Some((CycleState::Aborted, CycleAction::Fail { failure: IngestionFailure::RemoteFetch { message } })) => {
            assert_eq!(message, "timeout")
        }
        other => panic!("unexpected step {:?}", other),
    }
    let batch = Batch { records: Vec::new(), next_position: "78".to_string() };
    let state = advance_cycle(state, CycleEvent::BatchFetched { batch }).unwrap().0;
    match advance_cycle(state, CycleEvent::PersistFailed { stored: 4 }) {
        Some((CycleState::Aborted, CycleAction::Fail { failure: IngestionFailure::Persistence { stored } })) => {
            assert_eq!(stored, 4)
        }
        other => panic!("unexpected step {:?}", other),
    }
    assert!(advance_cycle(CycleState::Aborted, CycleEvent::Persisted).is_none());
    assert!(advance_cycle(CycleState::Aborted, CycleEvent::CursorWritten).is_none());
}
