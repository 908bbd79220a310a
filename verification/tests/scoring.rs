use insights_core::scoring::{
    compute_anchor_metrics, status_for, AnchorStatus, DEGRADED_ABOVE, FULL_SCALE, HEALTHY_ABOVE,
};

#[test]
fn rates_are_exact_basis_points() {
    let m = compute_anchor_metrics(1000, 980, 20, Some(2500));
    assert_eq!(m.success_rate, 9800);
    assert_eq!(m.failure_rate, 200);
    // (7 * 9800 + 3 * (10000 - 2500)) / 10 = (68600 + 22500) / 10
    assert_eq!(m.reliability_score, 9110);
    assert_eq!(m.status, AnchorStatus::Healthy);
    assert_eq!(m.total_transactions, 1000);
    assert_eq!(m.successful_transactions, 980);
    assert_eq!(m.failed_transactions, 20);
    assert_eq!(m.avg_settlement_time_ms, Some(2500));
}

#[test]
fn no_transactions_give_zero_rates_and_score() {
    let m = compute_anchor_metrics(0, 0, 0, None);
    assert_eq!(m.success_rate, 0);
    assert_eq!(m.failure_rate, 0);
    assert_eq!(m.reliability_score, 0);
    assert_eq!(m.status, AnchorStatus::Unhealthy);
    let n = compute_anchor_metrics(0, 5, 7, Some(1));
    assert_eq!(n.success_rate, 0);
    assert_eq!(n.failure_rate, 0);
    assert_eq!(n.reliability_score, 0);
}

#[test]
fn unknown_settlement_time_counts_as_half() {
    let m = compute_anchor_metrics(10, 10, 0, None);
    assert_eq!(m.reliability_score, 8500);
    assert_eq!(m.status, AnchorStatus::Healthy);
}

#[test]
fn rates_round_down() {
    let m = compute_anchor_metrics(3, 1, 2, Some(0));
    assert_eq!(m.success_rate, 3333);
    assert_eq!(m.failure_rate, 6666);
    // (7 * 3333 + 3 * 10000) / 10 = 53331 / 10
    assert_eq!(m.reliability_score, 5333);
    assert_eq!(m.status, AnchorStatus::Degraded);
}

#[test]
fn score_stays_within_scale_for_inconsistent_counters() {
    let m = compute_anchor_metrics(1, u64::MAX, u64::MAX, Some(0));
    assert_eq!(m.success_rate, (u64::MAX as u128) * 10_000);
    assert_eq!(m.reliability_score, FULL_SCALE);
    let slow = compute_anchor_metrics(1, 0, 1, Some(u32::MAX));
    assert_eq!(slow.reliability_score, 0);
}

#[test]
fn score_never_decreases_with_more_successes() {
    let mut last = 0;
    for successful in 0..=200u64 {
        let m = compute_anchor_metrics(200, successful, 3, Some(4000));
        assert!(m.reliability_score >= last);
        assert!(m.reliability_score <= FULL_SCALE);
        last = m.reliability_score;
    }
}

#[test]
fn score_never_increases_with_slower_settlement() {
    let mut last = FULL_SCALE;
    for ms in (0..=12_000u32).step_by(250) {
        let m = compute_anchor_metrics(50, 45, 5, Some(ms));
        assert!(m.reliability_score <= last);
        last = m.reliability_score;
    }
}

#[test]
fn ties_at_a_threshold_take_the_lower_status() {
    assert_eq!(status_for(HEALTHY_ABOVE), AnchorStatus::Degraded);
    assert_eq!(status_for(HEALTHY_ABOVE + 1), AnchorStatus::Healthy);
    assert_eq!(status_for(DEGRADED_ABOVE), AnchorStatus::Unhealthy);
    assert_eq!(status_for(DEGRADED_ABOVE + 1), AnchorStatus::Degraded);
    assert_eq!(status_for(0), AnchorStatus::Unhealthy);
    assert_eq!(status_for(FULL_SCALE), AnchorStatus::Healthy);
}

#[test]
fn status_names() {
    assert_eq!(AnchorStatus::Healthy.as_str(), "healthy");
    assert_eq!(AnchorStatus::Degraded.as_str(), "degraded");
    assert_eq!(AnchorStatus::Unhealthy.as_str(), "unhealthy");
}
