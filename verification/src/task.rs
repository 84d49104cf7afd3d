//! Task configuration and the query model: time truncation, batch
//! buckets, and the validation of collect intervals against the
//! deployment-wide bounds.

use vstd::prelude::*;
use crate::base::{
    is_bad_request, reason_interval_too_big, reason_interval_too_far_future,
    reason_interval_too_far_past, DapAbort, DapGlobalConfig, DapVersion,
};
use crate::messages::{BatchSelector, HpkeConfig, Id, Interval, PartialBatchSelector, Query, Time};
use crate::storage::MapKey;

verus! {

/// The query mode a task is configured with.
#[derive(Clone, Copy, Debug)]
pub enum DapQueryConfig {
    TimeInterval,
    FixedSize { max_batch_size: u64 },
}

/// The aggregation scheme a task runs. `Sum64` is the known-answer
/// scheme shipped with this crate: measurements are 64-bit integers,
/// shares add up to the measurement modulo 2^64.
#[derive(Clone, Copy, Debug, PartialEq, Eq, Structural)]
pub enum AggScheme {
    Sum64,
}

/// Immutable, agreed-upon parameters of one measurement task: the trust
/// anchor both aggregators must hold identically.
#[derive(Clone, Debug)]
pub struct DapTaskConfig {
    pub version: DapVersion,
    pub collector_hpke_config: HpkeConfig,
    pub leader_url: String,
    pub helper_url: String,
    /// All time boundaries are multiples of this many seconds.
    pub time_precision: u64,
    /// Reports timestamped at or after this instant are rejected.
    pub expiration: Time,
    pub min_batch_size: u64,
    pub query: DapQueryConfig,
    pub agg_scheme: AggScheme,
}

impl DapTaskConfig {
    /// A usable task configuration has a nonzero time precision and a
    /// usable Collector encryption configuration.
    pub open spec fn wf(&self) -> bool {
        &&& self.time_precision >= 1
        &&& self.collector_hpke_config.public_key@.len() >= 1
    }

    /// `t` rounded down to the nearest multiple of the time precision:
    /// the start of the time-interval batch window containing `t`.
    pub open spec fn truncate_time_spec(&self, t: Time) -> int {
        t - (t as int % self.time_precision as int)
    }

    /// Rounds `t` down to the window containing it.
    pub fn truncate_time(&self, t: Time) -> (r: Time)
        requires
            self.wf(),
        ensures
            r == self.truncate_time_spec(t),
            r % self.time_precision == 0,
            r <= t < r + self.time_precision,
    {
        proof {
            lemma_truncate(t as int, self.time_precision as int);
        }
        t - (t % self.time_precision)
    }

    /// The time-interval query covering the batch window containing
    /// `now`.
    pub fn query_for_current_batch_window(&self, now: Time) -> (r: Query)
        requires
            self.wf(),
        ensures
            r matches Query::TimeInterval { batch_interval } && batch_interval
                == (Interval { start: self.truncate_time_spec(now) as u64, duration: self.time_precision }),
    {
        Query::TimeInterval {
            batch_interval: Interval {
                start: self.truncate_time(now),
                duration: self.time_precision,
            },
        }
    }
}

/// Rounding down to a multiple of `p` lands on a multiple of `p`, at or
/// below the rounded value and less than `p` away from it.
pub proof fn lemma_truncate(t: int, p: int)
    requires
        p >= 1,
        t >= 0,
    ensures
        0 <= t % p <= t,
        t % p < p,
        (t - t % p) % p == 0,
{
    vstd::arithmetic::div_mod::lemma_mod_division_less_than_divisor(t, p);
    vstd::arithmetic::div_mod::lemma_fundamental_div_mod(t, p);
    vstd::arithmetic::div_mod::lemma_div_pos_is_pos(t, p);
    vstd::arithmetic::mul::lemma_mul_nonnegative(p, t / p);
    vstd::arithmetic::div_mod::lemma_mod_multiples_basic(t / p, p);
    vstd::arithmetic::mul::lemma_mul_is_commutative(p, t / p);
    assert(t - t % p == (t / p) * p);
}

/// A batch bucket key: the smallest collectible partition, either a time
/// window (its start) or a fixed-size batch identifier.
#[derive(Clone, Copy, Debug)]
pub enum BucketKey {
    TimeInterval { batch_window: Time },
    FixedSizeByBatchId { batch_id: Id },
}

/// The abstract value of a bucket key.
pub ghost enum BucketKeyView {
    TimeInterval { batch_window: int },
    FixedSizeByBatchId { batch_id: Seq<u8> },
}

impl View for BucketKey {
    type V = BucketKeyView;

    open spec fn view(&self) -> BucketKeyView {
        match self {
            BucketKey::TimeInterval { batch_window } => BucketKeyView::TimeInterval {
                batch_window: *batch_window as int,
            },
            BucketKey::FixedSizeByBatchId { batch_id } => BucketKeyView::FixedSizeByBatchId {
                batch_id: batch_id@,
            },
        }
    }
}

impl MapKey for BucketKey {
    fn eq_key(&self, other: &Self) -> (r: bool)
        ensures
            r <==> self@ == other@,
    {
        match (self, other) {
            (
                BucketKey::TimeInterval { batch_window: a },
                BucketKey::TimeInterval { batch_window: b },
            ) => *a == *b,
            (
                BucketKey::FixedSizeByBatchId { batch_id: a },
                BucketKey::FixedSizeByBatchId { batch_id: b },
            ) => a.same_as(b),
            _ => false,
        }
    }
}

/// A bucket key scoped to its task: the key of the batch accounting
/// store.
#[derive(Clone, Copy, Debug)]
pub struct TaskBucketKey {
    pub task_id: Id,
    pub bucket: BucketKey,
}

impl View for TaskBucketKey {
    type V = (Seq<u8>, BucketKeyView);

    open spec fn view(&self) -> (Seq<u8>, BucketKeyView) {
        (self.task_id@, self.bucket@)
    }
}

impl MapKey for TaskBucketKey {
    fn eq_key(&self, other: &Self) -> (r: bool)
        ensures
            r <==> self@ == other@,
    {
        self.task_id.same_as(&other.task_id) && self.bucket.eq_key(&other.bucket)
    }
}

/// Whether a batch hint names the mode the task is configured with.
pub open spec fn query_matches_psel(q: DapQueryConfig, psel: PartialBatchSelector) -> bool {
    match (q, psel) {
        (DapQueryConfig::TimeInterval, PartialBatchSelector::TimeInterval) => true,
        (
            DapQueryConfig::FixedSize { .. },
            PartialBatchSelector::FixedSizeByBatchId { .. },
        ) => true,
        _ => false,
    }
}

/// Checks a batch hint against the task's query mode.
pub fn check_query_matches_psel(q: &DapQueryConfig, psel: &PartialBatchSelector) -> (r: bool)
    ensures
        r == query_matches_psel(*q, *psel),
{
    match (q, psel) {
        (DapQueryConfig::TimeInterval, PartialBatchSelector::TimeInterval) => true,
        (
            DapQueryConfig::FixedSize { .. },
            PartialBatchSelector::FixedSizeByBatchId { .. },
        ) => true,
        _ => false,
    }
}

/// Whether a batch selector names the mode the task is configured with.
pub open spec fn query_matches_sel(q: DapQueryConfig, sel: BatchSelector) -> bool {
    match (q, sel) {
        (DapQueryConfig::TimeInterval, BatchSelector::TimeInterval { .. }) => true,
        (DapQueryConfig::FixedSize { .. }, BatchSelector::FixedSizeByBatchId { .. }) => true,
        _ => false,
    }
}

/// Checks a batch selector against the task's query mode.
pub fn check_query_matches_sel(q: &DapQueryConfig, sel: &BatchSelector) -> (r: bool)
    ensures
        r == query_matches_sel(*q, *sel),
{
    match (q, sel) {
        (DapQueryConfig::TimeInterval, BatchSelector::TimeInterval { .. }) => true,
        (DapQueryConfig::FixedSize { .. }, BatchSelector::FixedSizeByBatchId { .. }) => true,
        _ => false,
    }
}

/// Whether a Collector query names the mode the task is configured with.
pub open spec fn query_matches_query(q: DapQueryConfig, query: Query) -> bool {
    match (q, query) {
        (DapQueryConfig::TimeInterval, Query::TimeInterval { .. }) => true,
        (DapQueryConfig::FixedSize { .. }, Query::FixedSizeByBatchId { .. }) => true,
        _ => false,
    }
}

/// Checks a Collector query against the task's query mode.
pub fn check_query_matches_query(q: &DapQueryConfig, query: &Query) -> (r: bool)
    ensures
        r == query_matches_query(*q, *query),
{
    match (q, query) {
        (DapQueryConfig::TimeInterval, Query::TimeInterval { .. }) => true,
        (DapQueryConfig::FixedSize { .. }, Query::FixedSizeByBatchId { .. }) => true,
        _ => false,
    }
}

/// A collect interval is usable when its boundaries are nonzero
/// multiples of the time precision and its end fits the time type.
pub open spec fn interval_aligned(itv: Interval, time_precision: u64) -> bool {
    &&& time_precision >= 1
    &&& itv.start as int % time_precision as int == 0
    &&& itv.duration as int % time_precision as int == 0
    &&& itv.duration >= time_precision
    &&& itv.start + itv.duration <= u64::MAX
}

/// The interval's duration exceeds the deployment-wide maximum.
pub open spec fn interval_too_big(itv: Interval, global: DapGlobalConfig) -> bool {
    itv.duration > global.max_batch_duration
}

/// The interval starts before the oldest admissible instant.
pub open spec fn interval_too_far_past(itv: Interval, global: DapGlobalConfig, now: Time) -> bool {
    (itv.start as int) < now - global.max_batch_duration - global.min_batch_interval_start
}

/// The interval ends after the newest admissible instant.
pub open spec fn interval_too_far_future(
    itv: Interval,
    global: DapGlobalConfig,
    now: Time,
) -> bool {
    itv.start + itv.duration > now + global.max_batch_interval_end
}

/// A collect interval passes every batch-interval bound.
pub open spec fn interval_bounds_ok(
    itv: Interval,
    time_precision: u64,
    global: DapGlobalConfig,
    now: Time,
) -> bool {
    &&& interval_aligned(itv, time_precision)
    &&& !interval_too_big(itv, global)
    &&& !interval_too_far_past(itv, global, now)
    &&& !interval_too_far_future(itv, global, now)
}

/// Validates a collect interval against the task's time precision and
/// the deployment-wide bounds, in order: alignment, maximum duration,
/// oldest admissible start, newest admissible end. Each rejection names
/// its reason exactly.
pub fn check_batch_interval(
    global: &DapGlobalConfig,
    time_precision: u64,
    now: Time,
    itv: &Interval,
) -> (r: Result<(), DapAbort>)
    requires
        time_precision >= 1,
    ensures
        r is Ok <==> interval_bounds_ok(*itv, time_precision, *global, now),
        !interval_aligned(*itv, time_precision) ==> r matches Err(DapAbort::BatchInvalid),
        interval_aligned(*itv, time_precision) && interval_too_big(*itv, *global) ==> is_bad_request(
            r,
            reason_interval_too_big(),
        ),
        interval_aligned(*itv, time_precision) && !interval_too_big(*itv, *global)
            && interval_too_far_past(*itv, *global, now) ==> is_bad_request(
            r,
            reason_interval_too_far_past(),
        ),
        interval_aligned(*itv, time_precision) && !interval_too_big(*itv, *global)
            && !interval_too_far_past(*itv, *global, now) && interval_too_far_future(
            *itv,
            *global,
            now,
        ) ==> is_bad_request(r, reason_interval_too_far_future()),
{
    let aligned = itv.start % time_precision == 0 && itv.duration % time_precision == 0
        && itv.duration >= time_precision && itv.start <= u64::MAX - itv.duration;
    if !aligned {
        return Err(DapAbort::BatchInvalid);
    }
    if itv.duration > global.max_batch_duration {
        return Err(DapAbort::bad_request("batch interval too large"));
    }
    let oldest: u128 = (itv.start as u128) + (global.max_batch_duration as u128) + (
    global.min_batch_interval_start as u128);
    if oldest < now as u128 {
        return Err(DapAbort::bad_request("batch interval too far into past"));
    }
    let newest: u128 = (itv.start as u128) + (itv.duration as u128);
    if newest > (now as u128) + (global.max_batch_interval_end as u128) {
        return Err(DapAbort::bad_request("batch interval too far into future"));
    }
    Ok(())
}

} // verus!
