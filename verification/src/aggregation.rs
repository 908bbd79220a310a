//! Hourly aggregation of payments per corridor.
//!
//! The payments of a time range are grouped by corridor and by the hour in
//! which they were created; every group becomes one metric. A metric is
//! always computed from all payments of its group and replaces what was
//! stored for that corridor and hour, so aggregating again gives the same
//! stored rows.

use crate::text::str_equal;
use vstd::arithmetic::div_mod::{lemma_div_by_multiple, lemma_div_is_ordered};
use vstd::prelude::*;

verus! {

/// Length of a bucket in seconds.
pub const SECONDS_PER_HOUR: u64 = 3600;

/// One payment as the aggregator sees it. The time is given in seconds
/// since the epoch, the amount in the smallest unit of the asset.
#[derive(Debug, Clone)]
pub struct CorridorPayment {
    pub corridor_key: String,
    pub created_at: u64,
    pub amount: u64,
    pub successful: bool,
    pub settlement_ms: u32,
}

/// The aggregate of one corridor in one hour. The bucket is named by the
/// second at which its hour begins; the average settlement time is rounded
/// down to whole milliseconds.
#[derive(Debug, Clone)]
pub struct HourlyCorridorMetric {
    pub corridor_key: String,
    pub hour_bucket: u64,
    pub volume: u128,
    pub tx_count: u64,
    pub success_count: u64,
    pub avg_settlement: u64,
}

/// The sums over the payments of one bucket.
pub struct BucketTotals {
    pub volume: nat,
    pub tx_count: nat,
    pub success_count: nat,
    pub settlement_sum: nat,
}

/// The aggregate fields of a metric.
pub struct MetricValue {
    pub volume: u128,
    pub tx_count: u64,
    pub success_count: u64,
    pub avg_settlement: u64,
}

/// The second at which the hour of `time` begins.
pub open spec fn hour_of(time: u64) -> u64 {
    (time - time % 3600) as u64
}

/// Whether a payment belongs to the bucket of `key` and `hour` within the
/// range from `start`, inclusive, to `end`, exclusive.
pub open spec fn in_bucket(
    payment: CorridorPayment,
    key: Seq<char>,
    hour: u64,
    start: u64,
    end: u64,
) -> bool {
    &&& payment.corridor_key@ == key
    &&& hour_of(payment.created_at) == hour
    &&& start <= payment.created_at < end
}

/// Totals to which one more payment was added.
pub open spec fn with_payment(totals: BucketTotals, payment: CorridorPayment) -> BucketTotals {
    BucketTotals {
        volume: totals.volume + payment.amount as nat,
        tx_count: totals.tx_count + 1,
        success_count: totals.success_count + if payment.successful {
            1nat
        } else {
            0nat
        },
        settlement_sum: totals.settlement_sum + payment.settlement_ms as nat,
    }
}

/// The sums over those of the payments that belong to a bucket.
pub open spec fn bucket_totals(
    payments: Seq<CorridorPayment>,
    key: Seq<char>,
    hour: u64,
    start: u64,
    end: u64,
) -> BucketTotals
    decreases payments.len(),
{
    if payments.len() == 0 {
        BucketTotals { volume: 0, tx_count: 0, success_count: 0, settlement_sum: 0 }
    } else {
        let rest = bucket_totals(payments.drop_last(), key, hour, start, end);
        if in_bucket(payments.last(), key, hour, start, end) {
            with_payment(rest, payments.last())
        } else {
            rest
        }
    }
}

/// The metric fields that belong to the totals of a bucket that is not
/// empty.
pub open spec fn value_of(totals: BucketTotals) -> MetricValue {
    MetricValue {
        volume: totals.volume as u128,
        tx_count: totals.tx_count as u64,
        success_count: totals.success_count as u64,
        avg_settlement: (totals.settlement_sum / totals.tx_count) as u64,
    }
}

/// The aggregate of the payments in a range: for every bucket that holds at
/// least one payment, its metric fields.
pub open spec fn aggregate_of(payments: Seq<CorridorPayment>, start: u64, end: u64) -> Map<
    (Seq<char>, u64),
    MetricValue,
> {
    Map::new(
        |bucket: (Seq<char>, u64)|
            bucket_totals(payments, bucket.0, bucket.1, start, end).tx_count > 0,
        |bucket: (Seq<char>, u64)|
            value_of(bucket_totals(payments, bucket.0, bucket.1, start, end)),
    )
}

/// The bucket that a metric is stored under.
pub open spec fn bucket_of(metric: HourlyCorridorMetric) -> (Seq<char>, u64) {
    (metric.corridor_key@, metric.hour_bucket)
}

/// The aggregate fields of a metric.
pub open spec fn fields_of(metric: HourlyCorridorMetric) -> MetricValue {
    MetricValue {
        volume: metric.volume,
        tx_count: metric.tx_count,
        success_count: metric.success_count,
        avg_settlement: metric.avg_settlement,
    }
}

/// Whether no two metrics are for the same bucket.
pub open spec fn distinct_buckets(metrics: Seq<HourlyCorridorMetric>) -> bool {
    forall|i: int, j: int|
        0 <= i < j < metrics.len() ==> bucket_of(#[trigger] metrics[i]) != bucket_of(
            #[trigger] metrics[j],
        )
}

/// Position of the metric for a bucket, if there is one.
pub open spec fn metric_at(metrics: Seq<HourlyCorridorMetric>, bucket: (Seq<char>, u64)) -> Option<
    int,
> {
    if exists|i: int| 0 <= i < metrics.len() && bucket_of(#[trigger] metrics[i]) == bucket {
        Some(choose|i: int| 0 <= i < metrics.len() && bucket_of(#[trigger] metrics[i]) == bucket)
    } else {
        None
    }
}

/// The map from buckets to metric fields that a list of metrics stands for.
pub open spec fn metrics_map(metrics: Seq<HourlyCorridorMetric>) -> Map<
    (Seq<char>, u64),
    MetricValue,
> {
    Map::new(
        |bucket: (Seq<char>, u64)| metric_at(metrics, bucket) is Some,
        |bucket: (Seq<char>, u64)| fields_of(metrics[metric_at(metrics, bucket).unwrap()]),
    )
}

proof fn lemma_metric_at(metrics: Seq<HourlyCorridorMetric>, i: int)
    requires
        distinct_buckets(metrics),
        0 <= i < metrics.len(),
    ensures
        metric_at(metrics, bucket_of(metrics[i])) == Some(i),
        metrics_map(metrics).contains_key(bucket_of(metrics[i])),
        metrics_map(metrics)[bucket_of(metrics[i])] == fields_of(metrics[i]),
{
    let bucket = bucket_of(metrics[i]);
    let c = choose|c: int| 0 <= c < metrics.len() && bucket_of(#[trigger] metrics[c]) == bucket;
    if c < i {
        assert(bucket_of(metrics[c]) != bucket_of(metrics[i]));
    } else if i < c {
        assert(bucket_of(metrics[i]) != bucket_of(metrics[c]));
    }
}

proof fn lemma_totals_bounded(
    payments: Seq<CorridorPayment>,
    key: Seq<char>,
    hour: u64,
    start: u64,
    end: u64,
)
    ensures
        ({
            let totals = bucket_totals(payments, key, hour, start, end);
            &&& totals.tx_count <= payments.len()
            &&& totals.success_count <= totals.tx_count
            &&& totals.volume <= totals.tx_count * u64::MAX
            &&& totals.settlement_sum <= totals.tx_count * u32::MAX
        }),
    decreases payments.len(),
{
    if payments.len() > 0 {
        lemma_totals_bounded(payments.drop_last(), key, hour, start, end);
        let rest = bucket_totals(payments.drop_last(), key, hour, start, end);
        assert((rest.tx_count + 1) * u64::MAX == rest.tx_count * u64::MAX + u64::MAX)
            by (nonlinear_arith);
        assert((rest.tx_count + 1) * u32::MAX == rest.tx_count * u32::MAX + u32::MAX)
            by (nonlinear_arith);
    }
}

/// Computes the second at which the hour of `time` begins.
pub fn hour_bucket(time: u64) -> (hour: u64)
    ensures
        hour == hour_of(time),
{
    time - time % SECONDS_PER_HOUR
}

/// The sums of one bucket while the payments are being read.
pub struct RunningBucket {
    pub corridor_key: String,
    pub hour: u64,
    pub volume: u128,
    pub tx_count: u64,
    pub success_count: u64,
    pub settlement_sum: u128,
}

/// Whether the running buckets hold, once each, exactly the buckets that
/// are not empty among the payments, with their sums.
pub open spec fn buckets_cover(
    payments: Seq<CorridorPayment>,
    start: u64,
    end: u64,
    running: Seq<RunningBucket>,
) -> bool {
    &&& forall|i: int|
        0 <= i < running.len() ==> {
            let totals = bucket_totals(
                payments,
                (#[trigger] running[i]).corridor_key@,
                running[i].hour,
                start,
                end,
            );
            &&& totals.tx_count > 0
            &&& running[i].volume == totals.volume
            &&& running[i].tx_count == totals.tx_count
            &&& running[i].success_count == totals.success_count
            &&& running[i].settlement_sum == totals.settlement_sum
        }
    &&& forall|i: int, j: int|
        0 <= i < j < running.len() ==> !((#[trigger] running[i]).corridor_key@ == (
        #[trigger] running[j]).corridor_key@ && running[i].hour == running[j].hour)
    &&& forall|key: Seq<char>, hour: u64|
        (#[trigger] bucket_totals(payments, key, hour, start, end)).tx_count > 0 ==> exists|i: int|
            0 <= i < running.len() && (#[trigger] running[i]).corridor_key@ == key
                && running[i].hour == hour
}

/// A running bucket to which one payment was added.
pub open spec fn grown(bucket: RunningBucket, payment: CorridorPayment) -> RunningBucket {
    RunningBucket {
        corridor_key: bucket.corridor_key,
        hour: bucket.hour,
        volume: (bucket.volume + payment.amount) as u128,
        tx_count: (bucket.tx_count + 1) as u64,
        success_count: if payment.successful {
            (bucket.success_count + 1) as u64
        } else {
            bucket.success_count
        },
        settlement_sum: (bucket.settlement_sum + payment.settlement_ms) as u128,
    }
}

/// The running bucket of a first payment.
pub open spec fn opened(payment: CorridorPayment) -> RunningBucket {
    RunningBucket {
        corridor_key: payment.corridor_key,
        hour: hour_of(payment.created_at),
        volume: payment.amount as u128,
        tx_count: 1,
        success_count: if payment.successful {
            1
        } else {
            0
        },
        settlement_sum: payment.settlement_ms as u128,
    }
}

/// Whether `after` is `before` with one payment taken into account.
pub open spec fn payment_noted(
    before: Seq<RunningBucket>,
    after: Seq<RunningBucket>,
    payment: CorridorPayment,
    start: u64,
    end: u64,
) -> bool {
    if start <= payment.created_at < end {
        ||| exists|k: int|
            0 <= k < before.len() && (#[trigger] before[k]).corridor_key@ == payment.corridor_key@
                && before[k].hour == hour_of(payment.created_at) && after == before.update(
                k,
                grown(before[k], payment),
            )
        ||| (forall|k: int|
            0 <= k < before.len() ==> !((#[trigger] before[k]).corridor_key@
                == payment.corridor_key@ && before[k].hour == hour_of(payment.created_at)))
            && after == before.push(opened(payment))
    } else {
        after == before
    }
}

proof fn lemma_payment_noted(
    payments: Seq<CorridorPayment>,
    payment: CorridorPayment,
    start: u64,
    end: u64,
    before: Seq<RunningBucket>,
    after: Seq<RunningBucket>,
)
    requires
        buckets_cover(payments, start, end, before),
        payment_noted(before, after, payment, start, end),
        payments.len() < usize::MAX,
    ensures
        buckets_cover(payments.push(payment), start, end, after),
{
    let more = payments.push(payment);
    let key = payment.corridor_key@;
    let hour = hour_of(payment.created_at);
    assert(more.drop_last() == payments);
    assert forall|k: Seq<char>, h: u64| #[trigger]
        bucket_totals(more, k, h, start, end) == if in_bucket(payment, k, h, start, end) {
            with_payment(bucket_totals(payments, k, h, start, end), payment)
        } else {
            bucket_totals(payments, k, h, start, end)
        } by {}
    if start <= payment.created_at < end {
        lemma_totals_bounded(payments, key, hour, start, end);
        assert(in_bucket(payment, key, hour, start, end));
        if exists|k: int|
            0 <= k < before.len() && (#[trigger] before[k]).corridor_key@ == key && before[k].hour
                == hour && after == before.update(k, grown(before[k], payment)) {
            let k = choose|k: int|
                0 <= k < before.len() && (#[trigger] before[k]).corridor_key@ == key
                    && before[k].hour == hour && after == before.update(
                    k,
                    grown(before[k], payment),
                );
            let totals = bucket_totals(payments, key, hour, start, end);
            assert(totals.tx_count * u64::MAX <= (usize::MAX - 1) * u64::MAX) by (nonlinear_arith)
                requires
                    totals.tx_count <= usize::MAX - 1,
            ;
            assert(totals.tx_count * u32::MAX <= (usize::MAX - 1) * u32::MAX) by (nonlinear_arith)
                requires
                    totals.tx_count <= usize::MAX - 1,
            ;
            assert forall|i: int| 0 <= i < after.len() implies {
                let t = bucket_totals(
                    more,
                    (#[trigger] after[i]).corridor_key@,
                    after[i].hour,
                    start,
                    end,
                );
                &&& t.tx_count > 0
                &&& after[i].volume == t.volume
                &&& after[i].tx_count == t.tx_count
                &&& after[i].success_count == t.success_count
                &&& after[i].settlement_sum == t.settlement_sum
            } by {
                assert(after[i].corridor_key@ == before[i].corridor_key@);
                assert(after[i].hour == before[i].hour);
                if i < k {
                    assert(!(before[i].corridor_key@ == before[k].corridor_key@ && before[i].hour
                        == before[k].hour));
                } else if k < i {
                    assert(!(before[k].corridor_key@ == before[i].corridor_key@ && before[k].hour
                        == before[i].hour));
                }
            }
            assert forall|i: int, j: int| 0 <= i < j < after.len() implies !((
            #[trigger] after[i]).corridor_key@ == (#[trigger] after[j]).corridor_key@
                && after[i].hour == after[j].hour) by {
                assert(after[i].corridor_key@ == before[i].corridor_key@);
                assert(after[j].corridor_key@ == before[j].corridor_key@);
                assert(after[i].hour == before[i].hour);
                assert(after[j].hour == before[j].hour);
            }
            assert forall|k2: Seq<char>, h: u64|
                (#[trigger] bucket_totals(more, k2, h, start, end)).tx_count
                    > 0 implies exists|i: int|
                0 <= i < after.len() && (#[trigger] after[i]).corridor_key@ == k2 && after[i].hour
                    == h by {
                if k2 == key && h == hour {
                    assert(after[k].corridor_key@ == k2 && after[k].hour == h);
                } else {
                    assert(bucket_totals(payments, k2, h, start, end).tx_count > 0);
                    let i = choose|i: int|
                        0 <= i < before.len() && (#[trigger] before[i]).corridor_key@ == k2
                            && before[i].hour == h;
                    assert(after[i].corridor_key@ == k2 && after[i].hour == h);
                }
            }
        } else {
            assert(bucket_totals(payments, key, hour, start, end).tx_count == 0);
            assert forall|i: int| 0 <= i < after.len() implies {
                let t = bucket_totals(
                    more,
                    (#[trigger] after[i]).corridor_key@,
                    after[i].hour,
                    start,
                    end,
                );
                &&& t.tx_count > 0
                &&& after[i].volume == t.volume
                &&& after[i].tx_count == t.tx_count
                &&& after[i].success_count == t.success_count
                &&& after[i].settlement_sum == t.settlement_sum
            } by {
                if i < before.len() {
                    assert(after[i] == before[i]);
                }
            }
            assert forall|i: int, j: int| 0 <= i < j < after.len() implies !((
            #[trigger] after[i]).corridor_key@ == (#[trigger] after[j]).corridor_key@
                && after[i].hour == after[j].hour) by {
                assert(after[i] == before[i]);
                if j < before.len() {
                    assert(after[j] == before[j]);
                }
            }
            assert forall|k2: Seq<char>, h: u64|
                (#[trigger] bucket_totals(more, k2, h, start, end)).tx_count
                    > 0 implies exists|i: int|
                0 <= i < after.len() && (#[trigger] after[i]).corridor_key@ == k2 && after[i].hour
                    == h by {
                if k2 == key && h == hour {
                    let last = before.len() as int;
                    assert(after[last].corridor_key@ == k2 && after[last].hour == h);
                } else {
                    assert(bucket_totals(payments, k2, h, start, end).tx_count > 0);
                    let i = choose|i: int|
                        0 <= i < before.len() && (#[trigger] before[i]).corridor_key@ == k2
                            && before[i].hour == h;
                    assert(after[i].corridor_key@ == k2 && after[i].hour == h);
                }
            }
        }
    } else {
        assert forall|k2: Seq<char>, h: u64|
            (#[trigger] bucket_totals(more, k2, h, start, end)).tx_count
                > 0 implies exists|i: int|
            0 <= i < after.len() && (#[trigger] after[i]).corridor_key@ == k2 && after[i].hour
                == h by {
            assert(bucket_totals(payments, k2, h, start, end).tx_count > 0);
        }
    }
}

proof fn lemma_metrics_are_aggregate(
    payments: Seq<CorridorPayment>,
    start: u64,
    end: u64,
    running: Seq<RunningBucket>,
    metrics: Seq<HourlyCorridorMetric>,
)
    requires
        buckets_cover(payments, start, end, running),
        metrics.len() == running.len(),
        forall|m: int|
            0 <= m < metrics.len() ==> {
                &&& bucket_of(#[trigger] metrics[m]) == (running[m].corridor_key@, running[m].hour)
                &&& fields_of(metrics[m]) == value_of(
                    bucket_totals(payments, running[m].corridor_key@, running[m].hour, start, end),
                )
            },
    ensures
        distinct_buckets(metrics),
        metrics_map(metrics) == aggregate_of(payments, start, end),
{
    assert forall|i: int, j: int| 0 <= i < j < metrics.len() implies bucket_of(
        #[trigger] metrics[i],
    ) != bucket_of(#[trigger] metrics[j]) by {
        assert(!(running[i].corridor_key@ == running[j].corridor_key@ && running[i].hour
            == running[j].hour));
    }
    let target = aggregate_of(payments, start, end);
    assert forall|bucket: (Seq<char>, u64)|
        (#[trigger] metrics_map(metrics).dom().contains(bucket)) == target.dom().contains(bucket)
            && (metrics_map(metrics).dom().contains(bucket) ==> metrics_map(metrics)[bucket]
            == target[bucket]) by {
        if metric_at(metrics, bucket) is Some {
            let i = metric_at(metrics, bucket).unwrap();
            lemma_metric_at(metrics, i);
            assert(bucket_totals(
                payments,
                running[i].corridor_key@,
                running[i].hour,
                start,
                end,
            ).tx_count > 0);
        }
        if bucket_totals(payments, bucket.0, bucket.1, start, end).tx_count > 0 {
            let i = choose|i: int|
                0 <= i < running.len() && (#[trigger] running[i]).corridor_key@ == bucket.0
                    && running[i].hour == bucket.1;
            assert(bucket_of(metrics[i]) == bucket);
            lemma_metric_at(metrics, i);
        }
    }
    assert(metrics_map(metrics) =~= target);
}

/// Takes one payment into account.
fn note_payment(running: &mut Vec<RunningBucket>, payment: &CorridorPayment, start: u64, end: u64)
    requires
        forall|i: int|
            0 <= i < old(running).len() ==> {
                &&& (#[trigger] old(running)[i]).volume + u64::MAX <= u128::MAX
                &&& old(running)[i].tx_count < u64::MAX
                &&& old(running)[i].success_count < u64::MAX
                &&& old(running)[i].settlement_sum + u32::MAX <= u128::MAX
            },
    ensures
        payment_noted(old(running)@, final(running)@, *payment, start, end),
{
    if payment.created_at < start || payment.created_at >= end {
        return ;
    }
    let hour = hour_bucket(payment.created_at);
    let mut k: usize = 0;
    while k < running.len()
        invariant
            k <= running.len(),
            running@ == old(running)@,
            hour == hour_of(payment.created_at),
            start <= payment.created_at < end,
            forall|i: int|
                0 <= i < running.len() ==> {
                    &&& (#[trigger] running[i]).volume + u64::MAX <= u128::MAX
                    &&& running[i].tx_count < u64::MAX
                    &&& running[i].success_count < u64::MAX
                    &&& running[i].settlement_sum + u32::MAX <= u128::MAX
                },
            forall|i: int|
                0 <= i < k ==> !((#[trigger] running[i]).corridor_key@ == payment.corridor_key@
                    && running[i].hour == hour),
        decreases running.len() - k,
    {
        if running[k].hour == hour && str_equal(
            running[k].corridor_key.as_str(),
            payment.corridor_key.as_str(),
        ) {
            let found = &running[k];
            let updated = RunningBucket {
                corridor_key: found.corridor_key.clone(),
                hour: found.hour,
                volume: found.volume + payment.amount as u128,
                tx_count: found.tx_count + 1,
                success_count: if payment.successful {
                    found.success_count + 1
                } else {
                    found.success_count
                },
                settlement_sum: found.settlement_sum + payment.settlement_ms as u128,
            };
            running.set(k, updated);
            assert(running@ == old(running)@.update(
                k as int,
                grown(old(running)@[k as int], *payment),
            ));
            return ;
        }
        k = k + 1;
    }
    let fresh = RunningBucket {
        corridor_key: payment.corridor_key.clone(),
        hour,
        volume: payment.amount as u128,
        tx_count: 1,
        success_count: if payment.successful {
            1
        } else {
            0
        },
        settlement_sum: payment.settlement_ms as u128,
    };
    running.push(fresh);
}

/// Groups the payments of the range from `start`, inclusive, to `end`,
/// exclusive, by corridor and hour and computes the metric of every group.
/// The result depends on the payments and the range alone.
pub fn aggregate_payments(payments: &Vec<CorridorPayment>, start: u64, end: u64) -> (metrics: Vec<
    HourlyCorridorMetric,
>)
    ensures
        distinct_buckets(metrics@),
        metrics_map(metrics@) == aggregate_of(payments@, start, end),
{
    let mut running: Vec<RunningBucket> = Vec::new();
    let mut i: usize = 0;
    assert(payments@.take(0) =~= Seq::<CorridorPayment>::empty());
    while i < payments.len()
        invariant
            i <= payments.len(),
            buckets_cover(payments@.take(i as int), start, end, running@),
        decreases payments.len() - i,
    {
        let ghost seen = payments@.take(i as int);
        let ghost before = running@;
        proof {
            assert forall|k: int| 0 <= k < running.len() implies {
                &&& (#[trigger] running[k]).volume + u64::MAX <= u128::MAX
                &&& running[k].tx_count < u64::MAX
                &&& running[k].success_count < u64::MAX
                &&& running[k].settlement_sum + u32::MAX <= u128::MAX
            } by {
                lemma_totals_bounded(seen, running[k].corridor_key@, running[k].hour, start, end);
                let count = bucket_totals(
                    seen,
                    running[k].corridor_key@,
                    running[k].hour,
                    start,
                    end,
                ).tx_count;
                assert(count * u64::MAX <= (usize::MAX - 1) * u64::MAX) by (nonlinear_arith)
                    requires
                        count <= usize::MAX - 1,
                ;
                assert(count * u32::MAX <= (usize::MAX - 1) * u32::MAX) by (nonlinear_arith)
                    requires
                        count <= usize::MAX - 1,
                ;
            }
        }
        note_payment(&mut running, &payments[i], start, end);
        proof {
            lemma_payment_noted(seen, payments@[i as int], start, end, before, running@);
            assert(payments@.take(i + 1) =~= seen.push(payments@[i as int]));
        }
        i = i + 1;
    }
    assert(payments@.take(payments.len() as int) =~= payments@);
    let mut metrics: Vec<HourlyCorridorMetric> = Vec::new();
    let mut k: usize = 0;
    while k < running.len()
        invariant
            k <= running.len(),
            metrics.len() == k,
            buckets_cover(payments@, start, end, running@),
            forall|m: int|
                0 <= m < k ==> {
                    &&& bucket_of(#[trigger] metrics[m]) == (
                        running[m].corridor_key@,
                        running[m].hour,
                    )
                    &&& fields_of(metrics[m]) == value_of(
                        bucket_totals(
                            payments@,
                            running[m].corridor_key@,
                            running[m].hour,
                            start,
                            end,
                        ),
                    )
                },
        decreases running.len() - k,
    {
        let bucket = &running[k];
        proof {
            let totals = bucket_totals(payments@, bucket.corridor_key@, bucket.hour, start, end);
            lemma_totals_bounded(payments@, bucket.corridor_key@, bucket.hour, start, end);
            lemma_div_is_ordered(
                totals.settlement_sum as int,
                (u32::MAX * totals.tx_count) as int,
                totals.tx_count as int,
            );
            lemma_div_by_multiple(u32::MAX as int, totals.tx_count as int);
            assert(totals.tx_count * u32::MAX == u32::MAX * totals.tx_count) by (nonlinear_arith);
        }
        let metric = HourlyCorridorMetric {
            corridor_key: bucket.corridor_key.clone(),
            hour_bucket: bucket.hour,
            volume: bucket.volume,
            tx_count: bucket.tx_count,
            success_count: bucket.success_count,
            avg_settlement: (bucket.settlement_sum / (bucket.tx_count as u128)) as u64,
        };
        metrics.push(metric);
        k = k + 1;
    }
    proof {
        lemma_metrics_are_aggregate(payments@, start, end, running@, metrics@);
    }
    metrics
}

proof fn lemma_metric_replaced(
    rows: Seq<HourlyCorridorMetric>,
    i: int,
    metric: HourlyCorridorMetric,
)
    requires
        distinct_buckets(rows),
        0 <= i < rows.len(),
        bucket_of(rows[i]) == bucket_of(metric),
    ensures
        distinct_buckets(rows.update(i, metric)),
        metrics_map(rows.update(i, metric)) == metrics_map(rows).insert(
            bucket_of(metric),
            fields_of(metric),
        ),
{
    let after = rows.update(i, metric);
    let target = metrics_map(rows).insert(bucket_of(metric), fields_of(metric));
    assert forall|a: int, b: int| 0 <= a < b < after.len() implies bucket_of(#[trigger] after[a])
        != bucket_of(#[trigger] after[b]) by {
        assert(bucket_of(after[a]) == bucket_of(rows[a]));
        assert(bucket_of(after[b]) == bucket_of(rows[b]));
    }
    assert forall|bucket: (Seq<char>, u64)|
        (#[trigger] metrics_map(after).dom().contains(bucket)) == target.dom().contains(bucket)
            && (metrics_map(after).dom().contains(bucket) ==> metrics_map(after)[bucket]
            == target[bucket]) by {
        if metric_at(after, bucket) is Some {
            let p = metric_at(after, bucket).unwrap();
            assert(bucket_of(rows[p]) == bucket);
            lemma_metric_at(rows, p);
            lemma_metric_at(after, p);
        }
        if metric_at(rows, bucket) is Some {
            let p = metric_at(rows, bucket).unwrap();
            assert(bucket_of(after[p]) == bucket);
            lemma_metric_at(after, p);
        }
        if bucket == bucket_of(metric) {
            lemma_metric_at(after, i);
        }
    }
    assert(metrics_map(after) =~= target);
}

proof fn lemma_metric_appended(rows: Seq<HourlyCorridorMetric>, metric: HourlyCorridorMetric)
    requires
        distinct_buckets(rows),
        metric_at(rows, bucket_of(metric)) is None,
    ensures
        distinct_buckets(rows.push(metric)),
        metrics_map(rows.push(metric)) == metrics_map(rows).insert(
            bucket_of(metric),
            fields_of(metric),
        ),
{
    let after = rows.push(metric);
    let target = metrics_map(rows).insert(bucket_of(metric), fields_of(metric));
    assert forall|a: int, b: int| 0 <= a < b < after.len() implies bucket_of(#[trigger] after[a])
        != bucket_of(#[trigger] after[b]) by {
        assert(after[a] == rows[a]);
        if b < rows.len() {
            assert(after[b] == rows[b]);
        }
    }
    assert forall|bucket: (Seq<char>, u64)|
        (#[trigger] metrics_map(after).dom().contains(bucket)) == target.dom().contains(bucket)
            && (metrics_map(after).dom().contains(bucket) ==> metrics_map(after)[bucket]
            == target[bucket]) by {
        if metric_at(after, bucket) is Some {
            let p = metric_at(after, bucket).unwrap();
            lemma_metric_at(after, p);
            if p < rows.len() {
                assert(bucket_of(rows[p]) == bucket);
                lemma_metric_at(rows, p);
            }
        }
        if metric_at(rows, bucket) is Some {
            let p = metric_at(rows, bucket).unwrap();
            assert(bucket_of(after[p]) == bucket);
            lemma_metric_at(after, p);
        }
        if bucket == bucket_of(metric) {
            assert(bucket_of(after[rows.len() as int]) == bucket);
            lemma_metric_at(after, rows.len() as int);
        }
    }
    assert(metrics_map(after) =~= target);
}

/// The stored hourly metrics, one row for each corridor and hour.
pub struct HourlyMetricStore {
    rows: Vec<HourlyCorridorMetric>,
}

impl View for HourlyMetricStore {
    type V = Map<(Seq<char>, u64), MetricValue>;

    closed spec fn view(&self) -> Map<(Seq<char>, u64), MetricValue> {
        metrics_map(self.rows@)
    }
}

impl HourlyMetricStore {
    /// Whether the store is well formed: no bucket has two rows.
    pub closed spec fn wf(&self) -> bool {
        distinct_buckets(self.rows@)
    }

    /// The rows in the order in which their buckets were first stored.
    pub closed spec fn listing(&self) -> Seq<HourlyCorridorMetric> {
        self.rows@
    }

    /// A well-formed store is the map that its listing stands for.
    pub proof fn lemma_listing(&self)
        requires
            self.wf(),
        ensures
            distinct_buckets(self.listing()),
            self@ == metrics_map(self.listing()),
    {
    }

    /// An empty store.
    pub fn new() -> (store: Self)
        ensures
            store.wf(),
            store@ == Map::<(Seq<char>, u64), MetricValue>::empty(),
            store.listing() == Seq::<HourlyCorridorMetric>::empty(),
    {
        let store = HourlyMetricStore { rows: Vec::new() };
        assert(store@ =~= Map::<(Seq<char>, u64), MetricValue>::empty());
        store
    }

    /// Stores a metric under its corridor and hour. What was stored there
    /// is replaced as a whole; nothing is added up.
    pub fn upsert_hourly_corridor_metric(&mut self, metric: HourlyCorridorMetric)
        requires
            old(self).wf(),
        ensures
            final(self).wf(),
            final(self)@ == old(self)@.insert(bucket_of(metric), fields_of(metric)),
    {
        let mut i: usize = 0;
        while i < self.rows.len()
            invariant
                i <= self.rows.len(),
                self.rows@ == old(self).rows@,
                self.wf(),
                forall|k: int| 0 <= k < i ==> bucket_of(#[trigger] self.rows[k]) != bucket_of(metric),
            decreases self.rows.len() - i,
        {
            if self.rows[i].hour_bucket == metric.hour_bucket && str_equal(
                self.rows[i].corridor_key.as_str(),
                metric.corridor_key.as_str(),
            ) {
                proof {
                    lemma_metric_replaced(self.rows@, i as int, metric);
                }
                self.rows.set(i, metric);
                return ;
            }
            i = i + 1;
        }
        proof {
            lemma_metric_appended(self.rows@, metric);
        }
        self.rows.push(metric);
    }

    /// Number of stored rows.
    pub fn len(&self) -> (n: usize)
        ensures
            n == self.listing().len(),
    {
        self.rows.len()
    }

    /// The stored rows.
    pub fn rows(&self) -> (rows: &Vec<HourlyCorridorMetric>)
        ensures
            rows@ == self.listing(),
    {
        &self.rows
    }
}

/// Those of the rows whose hour lies in the range from `start`, inclusive,
/// to `end`, exclusive, in their order.
pub open spec fn rows_in_range(rows: Seq<HourlyCorridorMetric>, start: u64, end: u64) -> Seq<
    HourlyCorridorMetric,
>
    decreases rows.len(),
{
    if rows.len() == 0 {
        Seq::empty()
    } else if start <= rows.last().hour_bucket < end {
        rows_in_range(rows.drop_last(), start, end).push(rows.last())
    } else {
        rows_in_range(rows.drop_last(), start, end)
    }
}

impl HourlyMetricStore {
    /// The stored rows whose hour lies in the range from `start_time`,
    /// inclusive, to `end_time`, exclusive.
    pub fn fetch_hourly_metrics_by_timerange(&self, start_time: u64, end_time: u64) -> (found: Vec<
        HourlyCorridorMetric,
    >)
        ensures
            found@ == rows_in_range(self.listing(), start_time, end_time),
    {
        let mut found: Vec<HourlyCorridorMetric> = Vec::new();
        let mut i: usize = 0;
        assert(self.rows@.take(0) =~= Seq::<HourlyCorridorMetric>::empty());
        while i < self.rows.len()
            invariant
                i <= self.rows.len(),
                found@ == rows_in_range(self.rows@.take(i as int), start_time, end_time),
            decreases self.rows.len() - i,
        {
            let row = &self.rows[i];
            proof {
                assert(self.rows@.take(i + 1).drop_last() =~= self.rows@.take(i as int));
                assert(self.rows@.take(i + 1).last() == *row);
            }
            if start_time <= row.hour_bucket && row.hour_bucket < end_time {
                found.push(
                    HourlyCorridorMetric {
                        corridor_key: row.corridor_key.clone(),
                        hour_bucket: row.hour_bucket,
                        volume: row.volume,
                        tx_count: row.tx_count,
                        success_count: row.success_count,
                        avg_settlement: row.avg_settlement,
                    },
                );
            }
            i = i + 1;
        }
        assert(self.rows@.take(self.rows.len() as int) =~= self.rows@);
        found
    }
}

/// The stored metrics after all of `metrics` were stored in order.
pub open spec fn upserted_all(
    stored: Map<(Seq<char>, u64), MetricValue>,
    metrics: Seq<HourlyCorridorMetric>,
) -> Map<(Seq<char>, u64), MetricValue>
    decreases metrics.len(),
{
    if metrics.len() == 0 {
        stored
    } else {
        upserted_all(stored, metrics.drop_last()).insert(
            bucket_of(metrics.last()),
            fields_of(metrics.last()),
        )
    }
}

/// Storing metrics with distinct buckets overlays the map that they stand
/// for on what was stored.
pub proof fn lemma_upserted_all(
    stored: Map<(Seq<char>, u64), MetricValue>,
    metrics: Seq<HourlyCorridorMetric>,
)
    requires
        distinct_buckets(metrics),
    ensures
        upserted_all(stored, metrics) == stored.union_prefer_right(metrics_map(metrics)),
    decreases metrics.len(),
{
    if metrics.len() == 0 {
        assert(stored.union_prefer_right(metrics_map(metrics)) =~= stored);
    } else {
        let shorter = metrics.drop_last();
        let last = metrics.last();
        assert forall|i: int, j: int| 0 <= i < j < shorter.len() implies bucket_of(
            #[trigger] shorter[i],
        ) != bucket_of(#[trigger] shorter[j]) by {
            assert(shorter[i] == metrics[i]);
            assert(shorter[j] == metrics[j]);
        }
        lemma_upserted_all(stored, shorter);
        assert(metric_at(shorter, bucket_of(last)) is None) by {
            if metric_at(shorter, bucket_of(last)) is Some {
                let p = metric_at(shorter, bucket_of(last)).unwrap();
                assert(shorter[p] == metrics[p]);
                assert(bucket_of(metrics[p]) != bucket_of(metrics[metrics.len() - 1]));
            }
        }
        lemma_metric_appended(shorter, last);
        assert(shorter.push(last) =~= metrics);
        assert(upserted_all(stored, metrics) =~= stored.union_prefer_right(metrics_map(metrics)));
    }
}

/// Aggregating the same payments over the same range a second time leaves
/// the stored metrics exactly as the first time left them.
pub proof fn lemma_aggregation_idempotent(
    stored: Map<(Seq<char>, u64), MetricValue>,
    payments: Seq<CorridorPayment>,
    start: u64,
    end: u64,
)
    ensures
        stored.union_prefer_right(aggregate_of(payments, start, end)).union_prefer_right(
            aggregate_of(payments, start, end),
        ) == stored.union_prefer_right(aggregate_of(payments, start, end)),
{
    let once = stored.union_prefer_right(aggregate_of(payments, start, end));
    assert(once.union_prefer_right(aggregate_of(payments, start, end)) =~= once);
}

/// Recomputes the hourly metrics of the range from `start`, inclusive, to
/// `end`, exclusive, from the payments and stores them, replacing what was
/// stored for the same corridor and hour.
pub fn aggregate(
    store: &mut HourlyMetricStore,
    payments: &Vec<CorridorPayment>,
    start: u64,
    end: u64,
)
    requires
        old(store).wf(),
    ensures
        final(store).wf(),
        final(store)@ == old(store)@.union_prefer_right(aggregate_of(payments@, start, end)),
{
    let metrics = aggregate_payments(payments, start, end);
    let ghost before = store@;
    assert(metrics@.take(0) =~= Seq::<HourlyCorridorMetric>::empty());
    for metric in iter: metrics
        invariant
            iter.seq() == metrics@,
            store.wf(),
            store@ == upserted_all(before, metrics@.take(iter.index() as int)),
    {
        proof {
            let n = iter.index() as int;
            assert(metrics@.take(n + 1).drop_last() =~= metrics@.take(n));
            assert(metrics@.take(n + 1).last() == metric);
        }
        store.upsert_hourly_corridor_metric(metric);
    }
    proof {
        assert(metrics@.take(metrics@.len() as int) =~= metrics@);
        lemma_upserted_all(before, metrics@);
    }
}

} // verus!
