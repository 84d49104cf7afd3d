//! Base vocabulary of the protocol: versions, media types, abort kinds,
//! per-report failure kinds, bearer credentials and the global
//! configuration shared across tasks.

use vstd::prelude::*;
use vstd::string::StringExecFns;

verus! {

/// Protocol version tag carried by every request and fixed per task.
#[derive(Clone, Copy, Debug, PartialEq, Eq, Structural)]
pub enum DapVersion {
    Draft02,
    Draft03,
    Unknown,
}

/// Media type expected by each endpoint; a request whose media type does
/// not match the endpoint is rejected.
#[derive(Clone, Copy, Debug, PartialEq, Eq, Structural)]
pub enum DapMediaType {
    Report,
    HpkeConfig,
    AggInitReq,
    AggContReq,
    AggShareReq,
    CollectReq,
}

/// Per-report failure kinds, reported individually inside an otherwise
/// successful aggregation response.
#[derive(Clone, Copy, Debug, PartialEq, Eq, Structural)]
pub enum TransitionFailure {
    BatchCollected,
    ReportReplayed,
    HpkeUnknownConfigId,
    HpkeDecryptError,
    VdafPrepError,
    TaskExpired,
}

/// Request-level aborts: the whole request is rejected and no durable
/// state changes.
#[derive(Clone, Debug)]
pub enum DapAbort {
    UnrecognizedTask,
    MissingTaskId,
    UnauthorizedRequest,
    InvalidProtocolVersion,
    UnrecognizedMessage,
    QueryMismatch,
    BatchInvalid,
    BatchOverlap,
    UnrecognizedAggregationJob,
    ReportTooLate,
    BadRequest(String),
}

/// The diagnostic attached to the `BadRequest` abort for a collect
/// interval whose duration exceeds the configured maximum.
pub open spec fn reason_interval_too_big() -> Seq<char> {
    "batch interval too large"@
}

/// The diagnostic for a collect interval starting too far into the past.
pub open spec fn reason_interval_too_far_past() -> Seq<char> {
    "batch interval too far into past"@
}

/// The diagnostic for a collect interval ending too far into the future.
pub open spec fn reason_interval_too_far_future() -> Seq<char> {
    "batch interval too far into future"@
}

/// The diagnostic for a repeated initialize request on one aggregation
/// job identifier.
pub open spec fn reason_job_already_exists() -> Seq<char> {
    "unexpected message for aggregation job (already exists)"@
}

/// The diagnostic for an output-share merge that hits a bucket already
/// marked collected: a protocol ordering bug upstream.
pub open spec fn reason_bucket_collected() -> Seq<char> {
    "aggregate share merged into a collected batch bucket"@
}

/// The diagnostic for a collect job identifier that the Leader never
/// issued being finished.
pub open spec fn reason_unknown_collect_job() -> Seq<char> {
    "unrecognized collect job"@
}

/// The diagnostic for a collect locator that cannot be resolved against
/// the task's Leader URL.
pub open spec fn reason_bad_leader_url() -> Seq<char> {
    "cannot build a collect job locator from the leader URL"@
}

/// True when `r` is the `BadRequest` abort carrying exactly `msg`.
pub open spec fn is_bad_request<T>(r: Result<T, DapAbort>, msg: Seq<char>) -> bool {
    &&& r matches Err(e)
    &&& e matches DapAbort::BadRequest(s)
    &&& s@ == msg
}

impl DapAbort {
    /// Builds the `BadRequest` abort carrying `msg`.
    pub fn bad_request(msg: &str) -> (r: Self)
        ensures
            r matches DapAbort::BadRequest(s) && s@ == msg@,
    {
        DapAbort::BadRequest(String::from_str(msg))
    }
}

/// A bearer credential carried by authenticated requests.
#[derive(Clone, Debug)]
pub struct BearerToken {
    pub bytes: Vec<u8>,
}

impl View for BearerToken {
    type V = Seq<u8>;

    open spec fn view(&self) -> Seq<u8> {
        self.bytes@
    }
}

impl BearerToken {
    /// Builds a token from raw credential bytes.
    pub fn from_bytes(bytes: Vec<u8>) -> (r: Self)
        ensures
            r@ == bytes@,
    {
        BearerToken { bytes }
    }

    /// Compares two tokens by value.
    pub fn same_as(&self, other: &BearerToken) -> (r: bool)
        ensures
            r <==> self@ == other@,
    {
        crate::bytesutil::bytes_eq(&self.bytes, &other.bytes)
    }
}

/// Deployment-wide bounds shared across tasks, threaded explicitly into
/// every validation call.
#[derive(Clone, Copy, Debug)]
pub struct DapGlobalConfig {
    /// How long uploaded reports are retained, in seconds.
    pub report_storage_epoch_duration: u64,
    /// Upper bound on the duration of a collect interval, in seconds.
    pub max_batch_duration: u64,
    /// How far into the past a collect interval may start, in seconds
    /// before now, combined with `max_batch_duration`.
    pub min_batch_interval_start: u64,
    /// How far into the future a collect interval may end, in seconds
    /// after now.
    pub max_batch_interval_end: u64,
    /// Whether a task may be provisioned on the fly from a self-describing
    /// report extension.
    pub allow_taskprov: bool,
}

} // verus!
