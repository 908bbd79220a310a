use insights_core::cache::{
    advance_fetch, build_param_cache_key, cached_query, cached_query_with_params, CacheFailure,
    FetchAction, FetchEvent, FetchState,
};
use std::cell::{Cell, RefCell};

#[test]
fn hit_returns_the_cached_value_without_calling_the_producer() {
    let produced = Cell::new(0);
    let written = Cell::new(0);
    let result = cached_query(
        |key: &String| {
            assert_eq!(key, "k");
            Ok(Some(7u32))
        },
        |_key: &String, _value: &u32, _ttl: usize| {
            written.set(written.get() + 1);
            Ok(())
        },
        &"k".to_string(),
        60,
        || {
            produced.set(produced.get() + 1);
            Ok(8u32)
        },
    );
    assert!(matches!(result, Ok(7)));
    assert_eq!(produced.get(), 0);
    assert_eq!(written.get(), 0);
}

#[test]
fn miss_produces_and_stores_with_the_ttl() {
    let stored: RefCell<Vec<(String, u32, usize)>> = RefCell::new(Vec::new());
    let result = cached_query(
        |_key: &String| Ok(None),
        |key: &String, value: &u32, ttl: usize| {
            stored.borrow_mut().push((key.clone(), *value, ttl));
            Ok(())
        },
        &"anchors:1".to_string(),
        300,
        || Ok(42u32),
    );
    assert!(matches!(result, Ok(42)));
    assert_eq!(*stored.borrow(), vec![("anchors:1".to_string(), 42, 300)]);
}

#[test]
fn failed_cache_write_still_returns_the_produced_value() {
    let result = cached_query(
        |_key: &String| Ok(None),
        |_key: &String, _value: &String, _ttl: usize| Err("cache down".to_string()),
        &"k".to_string(),
        10,
        || Ok("fresh".to_string()),
    );
    match result {
        Ok(value) => assert_eq!(value, "fresh"),
        Err(e) => panic!("unexpected failure {:?}", e),
    }
}

#[test]
fn failed_cache_read_is_not_a_miss() {
    let produced = Cell::new(false);
    let result: Result<u32, CacheFailure> = cached_query(
        |_key: &String| Err("connection refused".to_string()),
        |_key: &String, _value: &u32, _ttl: usize| Ok(()),
        &"k".to_string(),
        10,
        || {
            produced.set(true);
            Ok(1)
        },
    );
    match result {
        Err(CacheFailure::Read { message }) => assert_eq!(message, "connection refused"),
        other => panic!("unexpected result {:?}", other),
    }
    assert!(!produced.get());
}

#[test]
fn failed_producer_is_reported_and_nothing_is_stored() {
    let written = Cell::new(false);
    let result: Result<u32, CacheFailure> = cached_query(
        |_key: &String| Ok(None),
        |_key: &String, _value: &u32, _ttl: usize| {
            written.set(true);
            Ok(())
        },
        &"k".to_string(),
        10,
        || Err("query failed".to_string()),
    );
    match result {
        Err(CacheFailure::Producer { message }) => assert_eq!(message, "query failed"),
        other => panic!("unexpected result {:?}", other),
    }
    assert!(!written.get());
}

#[test]
fn params_variant_reads_and_writes_under_the_built_key() {
    let expected = build_param_cache_key("corridor:list", "{\"limit\":10}");
    let seen: RefCell<Vec<String>> = RefCell::new(Vec::new());
    let result = cached_query_with_params(
        |key: &String| {
            seen.borrow_mut().push(key.clone());
            Ok(None)
        },
        |key: &String, _value: &u8, _ttl: usize| {
            seen.borrow_mut().push(key.clone());
            Ok(())
        },
        "corridor:list",
        "{\"limit\":10}",
        5,
        || Ok(3u8),
    );
    assert!(matches!(result, Ok(3)));
    assert_eq!(*seen.borrow(), vec![expected.clone(), expected]);
}

#[test]
fn machine_follows_the_same_path() {
    let start: FetchState<u32> = FetchState::AwaitingLookup;
    let state = match advance_fetch(start, FetchEvent::Miss) {
        Some((state, FetchAction::RunProducer)) => state,
        other => panic!("unexpected step {:?}", other),
    };
    let state = match advance_fetch(state, FetchEvent::Produced { value: 5 }) {
        Some((state, FetchAction::StoreValue)) => state,
        other => panic!("unexpected step {:?}", other),
    };
    assert!(matches!(state, FetchState::AwaitingStore { value: 5 }));
    match advance_fetch(state, FetchEvent::StoreFailed { message: "down".to_string() }) {
        Some((FetchState::Finished, FetchAction::Return { value, write_error })) => {
            assert_eq!(value, 5);
            assert_eq!(write_error, Some("down".to_string()));
        }
        other => panic!("unexpected step {:?}", other),
    }
}

#[test]
fn machine_hit_read_failure_and_producer_failure() {
    match advance_fetch(FetchState::AwaitingLookup, FetchEvent::Hit { value: 9u32 }) {
        Some((FetchState::Finished, FetchAction::Return { value: 9, write_error: None })) => {}
        other => panic!("unexpected step {:?}", other),
    }
    match advance_fetch(
        FetchState::<u32>::AwaitingLookup,
        FetchEvent::ReadFailed { message: "x".to_string() },
    ) {
        Some((FetchState::Finished, FetchAction::Fail { failure: CacheFailure::Read { message } })) => {
            assert_eq!(message, "x")
        }
        other => panic!("unexpected step {:?}", other),
    }
    match advance_fetch(
        FetchState::<u32>::AwaitingProducer,
        FetchEvent::ProducerFailed { message: "y".to_string() },
    ) {
        Some((
            FetchState::Finished,
            FetchAction::Fail { failure: CacheFailure::Producer { message } },
        )) => assert_eq!(message, "y"),
        other => panic!("unexpected step {:?}", other),
    }
    match advance_fetch(FetchState::AwaitingStore { value: 1u32 }, FetchEvent::Stored) {
        Some((FetchState::Finished, FetchAction::Return { value: 1, write_error: None })) => {}
        other => panic!("unexpected step {:?}", other),
    }
    assert!(advance_fetch(FetchState::<u32>::AwaitingLookup, FetchEvent::Stored).is_none());
    assert!(advance_fetch(FetchState::<u32>::AwaitingProducer, FetchEvent::Miss).is_none());
    assert!(advance_fetch(FetchState::<u32>::Finished, FetchEvent::Miss).is_none());
}
