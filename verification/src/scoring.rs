//! Reliability scoring: a pure function from transaction counters and an
//! optional average settlement time to rates, a bounded score and a status.
//!
//! Rates and scores are fixed-point numbers in basis points, hundredths of
//! a percent, so that 10 000 stands for 100 %.

use vstd::arithmetic::div_mod::lemma_div_is_ordered;
use vstd::prelude::*;

verus! {

/// One hundred percent in basis points.
pub const FULL_SCALE: u64 = 10_000;

/// Settlement time, in milliseconds, from which on the settlement part of
/// the score is zero.
pub const SLOWEST_SETTLEMENT_MS: u32 = 10_000;

/// Settlement part of the score when no settlement time is known.
pub const UNKNOWN_SETTLEMENT_SCORE: u64 = 5_000;

/// A score must exceed this to count as healthy.
pub const HEALTHY_ABOVE: u64 = 8_000;

/// A score must exceed this to count as degraded rather than unhealthy.
pub const DEGRADED_ABOVE: u64 = 5_000;

/// Health of an anchor, derived from its reliability score alone.
#[derive(Debug, Clone, Copy, PartialEq, Eq, Structural)]
pub enum AnchorStatus {
    Healthy,
    Degraded,
    Unhealthy,
}

/// Rates, score and status computed from one set of counters.
#[derive(Debug, Clone, Copy, PartialEq, Eq, Structural)]
pub struct AnchorMetrics {
    pub total_transactions: u64,
    pub successful_transactions: u64,
    pub failed_transactions: u64,
    pub avg_settlement_time_ms: Option<u32>,
    /// Successful transactions per total, in basis points.
    pub success_rate: u128,
    /// Failed transactions per total, in basis points.
    pub failure_rate: u128,
    /// Between zero and `FULL_SCALE`.
    pub reliability_score: u64,
    pub status: AnchorStatus,
}

/// `part` per `total` in basis points, rounded down; zero when there is no
/// transaction at all.
pub open spec fn rate_of(part: nat, total: nat) -> nat {
    if total == 0 {
        0
    } else {
        part * 10_000 / total
    }
}

/// The settlement part of the score: full for an immediate settlement,
/// falling by one basis point per millisecond down to zero.
pub open spec fn settlement_score(avg_settlement_time_ms: Option<u32>) -> nat {
    match avg_settlement_time_ms {
        Some(ms) => if ms >= SLOWEST_SETTLEMENT_MS {
            0
        } else {
            (SLOWEST_SETTLEMENT_MS - ms) as nat
        },
        None => UNKNOWN_SETTLEMENT_SCORE as nat,
    }
}

/// A rate cut off at one hundred percent.
pub open spec fn capped(rate: nat) -> nat {
    if rate > FULL_SCALE {
        FULL_SCALE as nat
    } else {
        rate
    }
}

/// The reliability score: seven parts success rate and three parts
/// settlement score, and zero when there is no transaction at all.
pub open spec fn score_of(total: nat, successful: nat, avg_settlement_time_ms: Option<u32>) -> nat {
    if total == 0 {
        0
    } else {
        (7 * capped(rate_of(successful, total)) + 3 * settlement_score(avg_settlement_time_ms))
            / 10
    }
}

/// The status of a score. A score that is exactly at a threshold gets the
/// lower status.
pub open spec fn status_of(score: nat) -> AnchorStatus {
    if score > HEALTHY_ABOVE {
        AnchorStatus::Healthy
    } else if score > DEGRADED_ABOVE {
        AnchorStatus::Degraded
    } else {
        AnchorStatus::Unhealthy
    }
}

/// Position of a status from worst to best.
pub open spec fn status_rank(status: AnchorStatus) -> nat {
    match status {
        AnchorStatus::Unhealthy => 0,
        AnchorStatus::Degraded => 1,
        AnchorStatus::Healthy => 2,
    }
}

/// The metrics that belong to a set of counters.
pub open spec fn metrics_of(
    total: u64,
    successful: u64,
    failed: u64,
    avg_settlement_time_ms: Option<u32>,
) -> AnchorMetrics {
    AnchorMetrics {
        total_transactions: total,
        successful_transactions: successful,
        failed_transactions: failed,
        avg_settlement_time_ms,
        success_rate: rate_of(successful as nat, total as nat) as u128,
        failure_rate: rate_of(failed as nat, total as nat) as u128,
        reliability_score: score_of(total as nat, successful as nat, avg_settlement_time_ms) as u64,
        status: status_of(score_of(total as nat, successful as nat, avg_settlement_time_ms)),
    }
}

/// The score never exceeds the full scale.
pub proof fn lemma_score_bounded(total: nat, successful: nat, avg_settlement_time_ms: Option<u32>)
    ensures
        score_of(total, successful, avg_settlement_time_ms) <= FULL_SCALE,
{
}

/// With the total and the settlement time fixed, more successful
/// transactions never give a lower score.
pub proof fn lemma_score_monotone_in_success(
    total: nat,
    fewer: nat,
    more: nat,
    avg_settlement_time_ms: Option<u32>,
)
    requires
        fewer <= more,
    ensures
        score_of(total, fewer, avg_settlement_time_ms) <= score_of(
            total,
            more,
            avg_settlement_time_ms,
        ),
        rate_of(fewer, total) <= rate_of(more, total),
{
    if total > 0 {
        lemma_div_is_ordered((fewer * 10_000) as int, (more * 10_000) as int, total as int);
        let low = 7 * capped(rate_of(fewer, total)) + 3 * settlement_score(avg_settlement_time_ms);
        let high = 7 * capped(rate_of(more, total)) + 3 * settlement_score(avg_settlement_time_ms);
        lemma_div_is_ordered(low as int, high as int, 10);
    }
}

/// With the counters fixed, a longer settlement time never gives a higher
/// score.
pub proof fn lemma_score_antitone_in_settlement(
    total: nat,
    successful: nat,
    faster_ms: u32,
    slower_ms: u32,
)
    requires
        faster_ms <= slower_ms,
    ensures
        score_of(total, successful, Some(slower_ms)) <= score_of(
            total,
            successful,
            Some(faster_ms),
        ),
{
    if total > 0 {
        let low = 7 * capped(rate_of(successful, total)) + 3 * settlement_score(Some(slower_ms));
        let high = 7 * capped(rate_of(successful, total)) + 3 * settlement_score(Some(faster_ms));
        lemma_div_is_ordered(low as int, high as int, 10);
    }
}

/// A higher score never gives a lower status.
pub proof fn lemma_status_monotone(lower: nat, higher: nat)
    requires
        lower <= higher,
    ensures
        status_rank(status_of(lower)) <= status_rank(status_of(higher)),
{
}

impl AnchorStatus {
    /// The name under which the status is stored and reported.
    pub fn as_str(&self) -> (name: &'static str)
        ensures
            name@ == match *self {
                AnchorStatus::Healthy => "healthy"@,
                AnchorStatus::Degraded => "degraded"@,
                AnchorStatus::Unhealthy => "unhealthy"@,
            },
    {
        match self {
            AnchorStatus::Healthy => "healthy",
            AnchorStatus::Degraded => "degraded",
            AnchorStatus::Unhealthy => "unhealthy",
        }
    }
}

/// Computes `part` per `total` in basis points.
fn rate(part: u64, total: u64) -> (r: u128)
    ensures
        r == rate_of(part as nat, total as nat),
{
    if total == 0 {
        0
    } else {
        assert(part * 10_000 <= u128::MAX) by (nonlinear_arith)
            requires
                part <= u64::MAX,
        ;
        (part as u128) * 10_000 / (total as u128)
    }
}

/// Derives the status from a score.
pub fn status_for(score: u64) -> (status: AnchorStatus)
    ensures
        status == status_of(score as nat),
{
    if score > HEALTHY_ABOVE {
        AnchorStatus::Healthy
    } else if score > DEGRADED_ABOVE {
        AnchorStatus::Degraded
    } else {
        AnchorStatus::Unhealthy
    }
}

/// Computes rates, reliability score and status from the counters of an
/// anchor. The result depends on the arguments alone.
pub fn compute_anchor_metrics(
    total_transactions: u64,
    successful_transactions: u64,
    failed_transactions: u64,
    avg_settlement_time_ms: Option<u32>,
) -> (metrics: AnchorMetrics)
    ensures
        metrics == metrics_of(
            total_transactions,
            successful_transactions,
            failed_transactions,
            avg_settlement_time_ms,
        ),
        metrics.reliability_score <= FULL_SCALE,
{
    let success_rate = rate(successful_transactions, total_transactions);
    let failure_rate = rate(failed_transactions, total_transactions);
    let reliability_score: u64 = if total_transactions == 0 {
        0
    } else {
        let success_part: u64 = if success_rate > FULL_SCALE as u128 {
            FULL_SCALE
        } else {
            success_rate as u64
        };
        let settlement_part: u64 = match avg_settlement_time_ms {
            Some(ms) => if ms >= SLOWEST_SETTLEMENT_MS {
                0
            } else {
                (SLOWEST_SETTLEMENT_MS - ms) as u64
            },
            None => UNKNOWN_SETTLEMENT_SCORE,
        };
        (7 * success_part + 3 * settlement_part) / 10
    };
    AnchorMetrics {
        total_transactions,
        successful_transactions,
        failed_transactions,
        avg_settlement_time_ms,
        success_rate,
        failure_rate,
        reliability_score,
        status: status_for(reliability_score),
    }
}

/// One entry of the metrics history of an anchor. Rates and score are in
/// basis points; a settlement time or a volume that is not known is
/// recorded as zero.
#[derive(Debug, Clone)]
pub struct AnchorMetricsParams {
    pub anchor_id: String,
    pub success_rate: u128,
    pub failure_rate: u128,
    pub reliability_score: u64,
    pub total_transactions: u64,
    pub successful_transactions: u64,
    pub failed_transactions: u64,
    pub avg_settlement_time_ms: u32,
    pub volume_usd: u64,
}

/// The new state of an anchor after its counters were read from the
/// network.
#[derive(Debug, Clone)]
pub struct AnchorRpcUpdate {
    pub stellar_account: String,
    pub total_transactions: u64,
    pub successful_transactions: u64,
    pub failed_transactions: u64,
    pub total_volume_usd: u64,
    pub avg_settlement_time_ms: u32,
    pub reliability_score: u64,
    pub status: AnchorStatus,
}

/// A value that may be absent, with zero standing for absence.
pub open spec fn or_zero(value: Option<u32>) -> u32 {
    match value {
        Some(v) => v,
        None => 0,
    }
}

impl AnchorMetricsParams {
    /// The history entry for an anchor and its freshly computed metrics.
    pub fn for_metrics(anchor_id: &str, metrics: &AnchorMetrics, volume_usd: Option<u64>) -> (params:
        Self)
        ensures
            params.anchor_id@ == anchor_id@,
            params.success_rate == metrics.success_rate,
            params.failure_rate == metrics.failure_rate,
            params.reliability_score == metrics.reliability_score,
            params.total_transactions == metrics.total_transactions,
            params.successful_transactions == metrics.successful_transactions,
            params.failed_transactions == metrics.failed_transactions,
            params.avg_settlement_time_ms == or_zero(metrics.avg_settlement_time_ms),
            params.volume_usd == match volume_usd {
                Some(v) => v,
                None => 0,
            },
    {
        AnchorMetricsParams {
            anchor_id: anchor_id.to_owned(),
            success_rate: metrics.success_rate,
            failure_rate: metrics.failure_rate,
            reliability_score: metrics.reliability_score,
            total_transactions: metrics.total_transactions,
            successful_transactions: metrics.successful_transactions,
            failed_transactions: metrics.failed_transactions,
            avg_settlement_time_ms: match metrics.avg_settlement_time_ms {
                Some(v) => v,
                None => 0,
            },
            volume_usd: match volume_usd {
                Some(v) => v,
                None => 0,
            },
        }
    }
}

impl AnchorRpcUpdate {
    /// The update of an anchor from its counters: score and status are
    /// computed from them.
    pub fn from_counters(
        stellar_account: &str,
        total_transactions: u64,
        successful_transactions: u64,
        failed_transactions: u64,
        avg_settlement_time_ms: Option<u32>,
        total_volume_usd: u64,
    ) -> (update: Self)
        ensures
            update.stellar_account@ == stellar_account@,
            update.total_transactions == total_transactions,
            update.successful_transactions == successful_transactions,
            update.failed_transactions == failed_transactions,
            update.total_volume_usd == total_volume_usd,
            update.avg_settlement_time_ms == or_zero(avg_settlement_time_ms),
            update.reliability_score == score_of(
                total_transactions as nat,
                successful_transactions as nat,
                avg_settlement_time_ms,
            ),
            update.status == status_of(update.reliability_score as nat),
    {
        let metrics = compute_anchor_metrics(
            total_transactions,
            successful_transactions,
            failed_transactions,
            avg_settlement_time_ms,
        );
        AnchorRpcUpdate {
            stellar_account: stellar_account.to_owned(),
            total_transactions,
            successful_transactions,
            failed_transactions,
            total_volume_usd,
            avg_settlement_time_ms: match avg_settlement_time_ms {
                Some(v) => v,
                None => 0,
            },
            reliability_score: metrics.reliability_score,
            status: metrics.status,
        }
    }
}

} // verus!
