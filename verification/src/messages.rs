//! Protocol messages and identifiers: reports, batch selectors, queries,
//! per-report transitions and the request/response bodies exchanged by
//! the aggregator endpoints.

use vstd::prelude::*;
use crate::base::{BearerToken, DapMediaType, DapVersion, TransitionFailure};
use crate::storage::MapKey;

verus! {

/// Seconds since the UNIX epoch.
pub type Time = u64;

/// A duration in seconds.
pub type Duration = u64;

/// A fixed-width opaque identifier: task, report, aggregation job, batch
/// and collect identifiers all take this shape.
#[derive(Clone, Copy, Debug)]
pub struct Id {
    pub bytes: [u8; 32],
}

impl View for Id {
    type V = Seq<u8>;

    open spec fn view(&self) -> Seq<u8> {
        self.bytes@
    }
}

impl MapKey for Id {
    fn eq_key(&self, other: &Self) -> (r: bool)
        ensures
            r <==> self@ == other@,
    {
        crate::bytesutil::bytes32_eq(&self.bytes, &other.bytes)
    }
}

impl Id {
    /// The all-zero identifier.
    pub fn zero() -> (r: Self)
        ensures
            r@ == Seq::new(32, |i: int| 0u8),
    {
        let r = Id { bytes: [0u8; 32] };
        proof {
            assert(r@ =~= Seq::new(32, |i: int| 0u8));
        }
        r
    }

    /// Compares two identifiers by value.
    pub fn same_as(&self, other: &Id) -> (r: bool)
        ensures
            r <==> self@ == other@,
    {
        crate::bytesutil::bytes32_eq(&self.bytes, &other.bytes)
    }
}

/// The pair scoping Helper-side aggregation state: one entry per
/// (task, aggregation job).
#[derive(Clone, Copy, Debug)]
pub struct JobKey {
    pub task_id: Id,
    pub agg_job_id: Id,
}

impl View for JobKey {
    type V = (Seq<u8>, Seq<u8>);

    open spec fn view(&self) -> (Seq<u8>, Seq<u8>) {
        (self.task_id@, self.agg_job_id@)
    }
}

impl MapKey for JobKey {
    fn eq_key(&self, other: &Self) -> (r: bool)
        ensures
            r <==> self@ == other@,
    {
        self.task_id.same_as(&other.task_id) && self.agg_job_id.same_as(&other.agg_job_id)
    }
}

/// A half-open time interval `[start, start + duration)`.
#[derive(Clone, Copy, Debug, PartialEq, Eq, Structural)]
pub struct Interval {
    pub start: Time,
    pub duration: Duration,
}

impl Interval {
    /// The end of the interval, one past its last second.
    pub open spec fn end_spec(&self) -> int {
        self.start + self.duration
    }
}

/// The Collector's description of the batch it wants: a time window or a
/// fixed-size batch named by its identifier.
#[derive(Clone, Copy, Debug)]
pub enum Query {
    TimeInterval { batch_interval: Interval },
    FixedSizeByBatchId { batch_id: Id },
}

/// The Leader's hint of the batch an aggregation job feeds: the batch
/// identifier in fixed-size mode, nothing in time-interval mode (the
/// bucket follows from each report's timestamp).
#[derive(Clone, Copy, Debug)]
pub enum PartialBatchSelector {
    TimeInterval,
    FixedSizeByBatchId { batch_id: Id },
}

/// The batch a collect or aggregate-share exchange settles, fully
/// resolved.
#[derive(Clone, Copy, Debug)]
pub enum BatchSelector {
    TimeInterval { batch_interval: Interval },
    FixedSizeByBatchId { batch_id: Id },
}

impl BatchSelector {
    /// The selector a query resolves to.
    pub fn from_query(q: &Query) -> (r: Self)
        ensures
            (q matches Query::TimeInterval { batch_interval } ==> r matches
                BatchSelector::TimeInterval { batch_interval: b } && b == batch_interval),
            (q matches Query::FixedSizeByBatchId { batch_id } ==> r matches
                BatchSelector::FixedSizeByBatchId { batch_id: b } && b == batch_id),
    {
        match q {
            Query::TimeInterval { batch_interval } => BatchSelector::TimeInterval {
                batch_interval: *batch_interval,
            },
            Query::FixedSizeByBatchId { batch_id } => BatchSelector::FixedSizeByBatchId {
                batch_id: *batch_id,
            },
        }
    }
}

/// An encrypted input or aggregate share, addressed to one decryption
/// configuration.
#[derive(Clone, Debug)]
pub struct HpkeCiphertext {
    pub config_id: u8,
    pub enc: Vec<u8>,
    pub payload: Vec<u8>,
}

/// A public encryption configuration: what a sender needs to encrypt to
/// its holder.
#[derive(Clone, Debug)]
pub struct HpkeConfig {
    pub id: u8,
    pub public_key: Vec<u8>,
}

/// A report's self-describing extension, read on first sight of an
/// unknown task to provision its configuration.
#[derive(Clone, Debug)]
pub enum Extension {
    Taskprov { config: crate::taskprov::TaskprovConfig },
}

/// Report metadata: identifier, timestamp and extensions.
#[derive(Clone, Debug)]
pub struct ReportMetadata {
    pub id: Id,
    pub time: Time,
    pub extensions: Vec<Extension>,
}

/// A Client's secret-shared measurement submission: one encrypted input
/// share per aggregator.
#[derive(Clone, Debug)]
pub struct Report {
    pub task_id: Id,
    pub metadata: ReportMetadata,
    pub public_share: Vec<u8>,
    pub encrypted_input_shares: Vec<HpkeCiphertext>,
}

/// The slice of a report relevant to one aggregator: the metadata, the
/// public share and that aggregator's encrypted input share.
#[derive(Clone, Debug)]
pub struct ReportShare {
    pub metadata: ReportMetadata,
    pub public_share: Vec<u8>,
    pub encrypted_input_share: HpkeCiphertext,
}

/// The per-report outcome of one round of the aggregation protocol.
#[derive(Clone, Debug)]
pub enum TransitionVar {
    Continued(Vec<u8>),
    Finished,
    Failed(TransitionFailure),
}

/// One report's transition inside a bulk aggregation response.
#[derive(Clone, Debug)]
pub struct Transition {
    pub report_id: Id,
    pub var: TransitionVar,
}

/// The Leader's request opening an aggregation job on the Helper.
#[derive(Clone, Debug)]
pub struct AggregateInitializeReq {
    pub task_id: Id,
    pub agg_job_id: Id,
    pub agg_param: Vec<u8>,
    pub part_batch_sel: PartialBatchSelector,
    pub report_shares: Vec<ReportShare>,
}

/// The Leader's request finishing an aggregation job on the Helper.
#[derive(Clone, Debug)]
pub struct AggregateContinueReq {
    pub task_id: Id,
    pub agg_job_id: Id,
    pub transitions: Vec<Transition>,
}

/// Either aggregation message, as the aggregate endpoint receives it.
#[derive(Clone, Debug)]
pub enum AggregateReq {
    Init(AggregateInitializeReq),
    Continue(AggregateContinueReq),
}

/// The Helper's bulk response: one transition per report share, in input
/// order.
#[derive(Clone, Debug)]
pub struct AggregateResp {
    pub transitions: Vec<Transition>,
}

/// The Leader's request for the Helper's half of a batch's aggregate.
#[derive(Clone, Debug)]
pub struct AggregateShareReq {
    pub task_id: Id,
    pub batch_sel: BatchSelector,
    pub agg_param: Vec<u8>,
    pub report_count: u64,
    pub checksum: [u8; 32],
}

/// The Helper's encrypted aggregate share, addressed to the Collector.
#[derive(Clone, Debug)]
pub struct AggregateShareResp {
    pub encrypted_agg_share: HpkeCiphertext,
}

/// The Collector's request for the aggregate of a batch.
#[derive(Clone, Debug)]
pub struct CollectReq {
    pub task_id: Id,
    pub query: Query,
    pub agg_param: Vec<u8>,
}

/// The combined result of a collect job: the batch, how many reports it
/// holds, and both aggregators' encrypted aggregate shares.
#[derive(Clone, Debug)]
pub struct CollectResp {
    pub part_batch_sel: PartialBatchSelector,
    pub report_count: u64,
    pub encrypted_agg_shares: Vec<HpkeCiphertext>,
}

/// What polling a collect identifier reveals: never issued, still queued,
/// or complete with the stored response.
#[derive(Clone, Debug)]
pub enum DapCollectJob {
    Unknown,
    Pending,
    Done(CollectResp),
}

/// A measurement as the Client submits it.
#[derive(Clone, Copy, Debug)]
pub enum DapMeasurement {
    U64(u64),
}

/// An inbound request as the transport hands it to a role: protocol
/// version, media type, the task the URL names, the decoded body and the
/// sender's credential.
#[derive(Clone, Debug)]
pub struct DapRequest<M> {
    pub version: DapVersion,
    pub media_type: Option<DapMediaType>,
    pub task_id: Option<Id>,
    pub payload: M,
    pub url: String,
    pub sender_auth: Option<BearerToken>,
}

/// True when the request carries a credential equal to `expected`.
pub open spec fn sender_authorized<M>(req: &DapRequest<M>, expected: Seq<u8>) -> bool {
    req.sender_auth matches Some(t) && t@ == expected
}

} // verus!
