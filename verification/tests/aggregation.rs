use insights_core::aggregation::{
    aggregate, aggregate_payments, hour_bucket, CorridorPayment, HourlyCorridorMetric,
    HourlyMetricStore,
};

fn pay(key: &str, created_at: u64, amount: u64, successful: bool, settlement_ms: u32) -> CorridorPayment {
    CorridorPayment { corridor_key: key.to_string(), created_at, amount, successful, settlement_ms }
}

fn row(m: &HourlyCorridorMetric) -> (String, u64, u128, u64, u64, u64) {
    (m.corridor_key.clone(), m.hour_bucket, m.volume, m.tx_count, m.success_count, m.avg_settlement)
}

fn sorted_rows(store: &HourlyMetricStore) -> Vec<(String, u64, u128, u64, u64, u64)> {
    let mut rows: Vec<_> = store.rows().iter().map(row).collect();
    rows.sort();
    rows
}

fn sample() -> Vec<CorridorPayment> {
    vec![
        pay("USDC->EURC", 7200, 100, true, 1000),
        pay("USDC->EURC", 7300, 50, false, 2001),
        pay("USDC->EURC", 10_799, 1, true, 3000),
        pay("USDC->EURC", 10_800, 7, true, 500),
        pay("XLM->USDC", 7200, 9, false, 10),
        pay("USDC->EURC", 3_599, 1000, true, 1),
        pay("USDC->EURC", 14_400, 1000, true, 1),
    ]
}

#[test]
fn hour_bucket_is_aligned() {
    assert_eq!(hour_bucket(0), 0);
    assert_eq!(hour_bucket(3599), 0);
    assert_eq!(hour_bucket(3600), 3600);
    assert_eq!(hour_bucket(1_700_000_000), 1_699_999_200);
    assert_eq!(hour_bucket(u64::MAX) % 3600, 0);
}

#[test]
fn groups_by_corridor_and_hour_within_the_range() {
    let metrics = aggregate_payments(&sample(), 3600, 14_400);
    let mut rows: Vec<_> = metrics.iter().map(row).collect();
    rows.sort();
    assert_eq!(
        rows,
        vec![
            ("USDC->EURC".to_string(), 7200, 151, 3, 2, 2000),
            ("USDC->EURC".to_string(), 10_800, 7, 1, 1, 500),
            ("XLM->USDC".to_string(), 7200, 9, 1, 0, 10),
        ]
    );
}

#[test]
fn range_end_is_exclusive_and_empty_ranges_give_nothing() {
    let payments = sample();
    assert!(aggregate_payments(&payments, 7200, 7200).is_empty());
    assert!(aggregate_payments(&payments, 100, 50).is_empty());
    let metrics = aggregate_payments(&payments, 7200, 7201);
    let mut rows: Vec<_> = metrics.iter().map(row).collect();
    rows.sort();
    assert_eq!(
        rows,
        vec![
            ("USDC->EURC".to_string(), 7200, 100, 1, 1, 1000),
            ("XLM->USDC".to_string(), 7200, 9, 1, 0, 10),
        ]
    );
    assert!(aggregate_payments(&Vec::new(), 0, u64::MAX).is_empty());
}

#[test]
fn aggregating_twice_gives_the_same_rows() {
    let payments = sample();
    let mut store = HourlyMetricStore::new();
    aggregate(&mut store, &payments, 0, 20_000);
    let first = sorted_rows(&store);
    assert_eq!(first.len(), 5);
    aggregate(&mut store, &payments, 0, 20_000);
    assert_eq!(sorted_rows(&store), first);
    aggregate(&mut store, &payments, 7000, 11_000);
    aggregate(&mut store, &payments, 0, 20_000);
    assert_eq!(sorted_rows(&store), first);
}

#[test]
fn upsert_replaces_the_whole_row() {
    let mut store = HourlyMetricStore::new();
    let metric = |volume: u128, tx_count: u64| HourlyCorridorMetric {
        corridor_key: "A->B".to_string(),
        hour_bucket: 3600,
        volume,
        tx_count,
        success_count: tx_count,
        avg_settlement: 5,
    };
    store.upsert_hourly_corridor_metric(metric(10, 1));
    store.upsert_hourly_corridor_metric(metric(10, 1));
    assert_eq!(store.len(), 1);
    store.upsert_hourly_corridor_metric(metric(7, 3));
    assert_eq!(sorted_rows(&store), vec![("A->B".to_string(), 3600, 7, 3, 3, 5)]);
    let mut other = metric(1, 1);
    other.hour_bucket = 7200;
    store.upsert_hourly_corridor_metric(other);
    assert_eq!(store.len(), 2);
}

#[test]
fn a_recomputed_bucket_overwrites_a_stale_one() {
    let mut store = HourlyMetricStore::new();
    store.upsert_hourly_corridor_metric(HourlyCorridorMetric {
        corridor_key: "XLM->USDC".to_string(),
        hour_bucket: 7200,
        volume: 12345,
        tx_count: 99,
        success_count: 98,
        avg_settlement: 1,
    });
    store.upsert_hourly_corridor_metric(HourlyCorridorMetric {
        corridor_key: "OLD".to_string(),
        hour_bucket: 0,
        volume: 1,
        tx_count: 1,
        success_count: 1,
        avg_settlement: 1,
    });
    aggregate(&mut store, &sample(), 7200, 10_800);
    assert_eq!(
        sorted_rows(&store),
        vec![
            ("OLD".to_string(), 0, 1, 1, 1, 1),
            ("USDC->EURC".to_string(), 7200, 151, 3, 2, 2000),
            ("XLM->USDC".to_string(), 7200, 9, 1, 0, 10),
        ]
    );
}

#[test]
fn large_amounts_do_not_overflow() {
    let payments = vec![pay("K", 1, u64::MAX, true, u32::MAX), pay("K", 2, u64::MAX, true, u32::MAX)];
    let metrics = aggregate_payments(&payments, 0, 10);
    assert_eq!(metrics.len(), 1);
    assert_eq!(metrics[0].volume, 2 * (u64::MAX as u128));
    assert_eq!(metrics[0].avg_settlement, u32::MAX as u64);
}
