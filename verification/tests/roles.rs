//! End-to-end and endpoint-level scenarios for the two aggregator roles.

use daphne::aggregator::{InMemoryAggregator, ReportStore};
use daphne::batch::AggStore;
use daphne::base::{BearerToken, DapAbort, DapGlobalConfig, DapMediaType, DapVersion, TransitionFailure};
use daphne::driver::{run_agg_job, run_collect_job};
use daphne::hpke::HpkeReceiverConfig;
use daphne::messages::{
    AggregateContinueReq, AggregateInitializeReq, AggregateReq, AggregateShareReq, BatchSelector,
    CollectReq, CollectResp, DapCollectJob, DapMeasurement, DapRequest, Extension, Id,
    Interval, PartialBatchSelector, Query, Report, ReportShare, TransitionVar,
};
use daphne::scheme::{open_collect_resp, produce_report, produce_report_with_extensions};
use daphne::storage::IdSet;
use daphne::task::{AggScheme, BucketKey, DapQueryConfig, DapTaskConfig, TaskBucketKey};
use daphne::taskprov::{compute_task_id, TaskprovConfig, TaskprovQuery};

struct TestCtx {
    now: u64,
    leader: InMemoryAggregator,
    helper: InMemoryAggregator,
    collector_receiver: HpkeReceiverConfig,
    leader_token: BearerToken,
    collector_token: BearerToken,
    time_interval_task_id: Id,
    fixed_size_task_id: Id,
    expired_task_id: Id,
    version: DapVersion,
}

fn make_id(seed: u8) -> Id {
    Id { bytes: [seed; 32] }
}

fn global_config() -> DapGlobalConfig {
    DapGlobalConfig {
        report_storage_epoch_duration: 604800,
        max_batch_duration: 360000,
        min_batch_interval_start: 259200,
        max_batch_interval_end: 259200,
        allow_taskprov: true,
    }
}

fn new_ctx(version: DapVersion) -> TestCtx {
    let now: u64 = 1_600_000_000;
    let collector_receiver = HpkeReceiverConfig::build(23, vec![7u8; 32]);
    let leader_token = BearerToken::from_bytes(b"this is a bearer token!".to_vec());
    let collector_token = BearerToken::from_bytes(b"This is a DIFFERENT token.".to_vec());

    let time_interval_task_id = make_id(101);
    let fixed_size_task_id = make_id(102);
    let expired_task_id = make_id(103);

    let task = |query: DapQueryConfig, expiration: u64| DapTaskConfig {
        version,
        collector_hpke_config: collector_receiver.config.clone(),
        leader_url: "https://leader.biz/v02/".to_string(),
        helper_url: "http://helper.com:8788/v02/".to_string(),
        time_precision: 3600,
        expiration,
        min_batch_size: 1,
        query,
        agg_scheme: AggScheme::Sum64,
    };

    let mut leader = InMemoryAggregator::new(
        now,
        global_config(),
        leader_token.clone(),
        Some(collector_token.clone()),
        vec![HpkeReceiverConfig::build(1, vec![11u8; 32])],
        collector_receiver.config.clone(),
    );
    let mut helper = InMemoryAggregator::new(
        now,
        global_config(),
        leader_token.clone(),
        None,
        vec![HpkeReceiverConfig::build(2, vec![13u8; 32])],
        collector_receiver.config.clone(),
    );
    for agg in [&mut leader, &mut helper] {
        agg.add_task(&time_interval_task_id, task(DapQueryConfig::TimeInterval, now + 3600));
        agg.add_task(
            &fixed_size_task_id,
            task(DapQueryConfig::FixedSize { max_batch_size: 2 }, now + 3600),
        );
        agg.add_task(&expired_task_id, task(DapQueryConfig::TimeInterval, now));
    }

    TestCtx {
        now,
        leader,
        helper,
        collector_receiver,
        leader_token,
        collector_token,
        time_interval_task_id,
        fixed_size_task_id,
        expired_task_id,
        version,
    }
}

fn gen_test_report(ctx: &TestCtx, task_id: &Id) -> Report {
    let lc = ctx.leader.get_hpke_config_for(Some(task_id)).unwrap();
    let hc = ctx.helper.get_hpke_config_for(Some(task_id)).unwrap();
    produce_report(&vec![lc, hc], ctx.now, task_id, DapMeasurement::U64(1))
}

fn upload_req(ctx: &TestCtx, report: Report) -> DapRequest<Report> {
    DapRequest {
        version: ctx.version,
        media_type: Some(DapMediaType::Report),
        task_id: Some(report.task_id),
        payload: report,
        url: String::new(),
        sender_auth: None,
    }
}

fn agg_init_req(
    ctx: &TestCtx,
    task_id: &Id,
    agg_job_id: Id,
    part_batch_sel: PartialBatchSelector,
    report_shares: Vec<ReportShare>,
) -> DapRequest<AggregateReq> {
    DapRequest {
        version: ctx.version,
        media_type: Some(DapMediaType::AggInitReq),
        task_id: Some(*task_id),
        payload: AggregateReq::Init(AggregateInitializeReq {
            task_id: *task_id,
            agg_job_id,
            agg_param: Vec::new(),
            part_batch_sel,
            report_shares,
        }),
        url: String::new(),
        sender_auth: Some(ctx.leader_token.clone()),
    }
}

fn share_of(report: &Report) -> ReportShare {
    ReportShare {
        metadata: report.metadata.clone(),
        public_share: report.public_share.clone(),
        encrypted_input_share: report.encrypted_input_shares[1].clone(),
    }
}

/// Drives the oldest pending collect job to completion and returns the
/// stored response, polled back out of the Leader.
fn drive_collect(ctx: &mut TestCtx, task_id: &Id, query: Query) -> Result<CollectResp, DapAbort> {
    let req = DapRequest {
        version: ctx.version,
        media_type: Some(DapMediaType::CollectReq),
        task_id: Some(*task_id),
        payload: CollectReq { task_id: *task_id, query, agg_param: Vec::new() },
        url: String::new(),
        sender_auth: Some(ctx.collector_token.clone()),
    };
    ctx.leader.http_post_collect(req)?;
    let pending = ctx.leader.get_pending_collect_jobs();
    assert!(pending.len() >= 1);
    let (collect_id, creq) = &pending[0];
    let precision = 3600u64;
    let batch_sel = BatchSelector::from_query(&creq.query);
    let leader_share = ctx.leader.get_agg_share(&creq.task_id, &batch_sel, precision);
    let leader_value = match leader_share.data {
        Some(v) => v,
        None => 0,
    };
    let leader_enc = daphne::scheme::encrypt_share(&ctx.collector_receiver.config, leader_value);
    let asr = AggregateShareReq {
        task_id: creq.task_id,
        batch_sel: BatchSelector::from_query(&creq.query),
        agg_param: Vec::new(),
        report_count: leader_share.report_count,
        checksum: leader_share.checksum,
    };
    let req = DapRequest {
        version: ctx.version,
        media_type: Some(DapMediaType::AggShareReq),
        task_id: Some(creq.task_id),
        payload: asr,
        url: String::new(),
        sender_auth: Some(ctx.leader_token.clone()),
    };
    let share_resp = ctx.helper.http_post_aggregate_share(&req)?;
    let resp = CollectResp {
        part_batch_sel: match &batch_sel {
            BatchSelector::TimeInterval { .. } => PartialBatchSelector::TimeInterval,
            BatchSelector::FixedSizeByBatchId { batch_id } => {
                PartialBatchSelector::FixedSizeByBatchId { batch_id: *batch_id }
            },
        },
        report_count: leader_share.report_count,
        encrypted_agg_shares: vec![leader_enc, share_resp.encrypted_agg_share],
    };
    let task_id_copy = creq.task_id;
    let collect_id_copy = *collect_id;
    ctx.leader.finish_collect_job(&task_id_copy, &collect_id_copy, resp)?;
    ctx.leader.mark_collected(&task_id_copy, &batch_sel, precision);
    match ctx.leader.poll_collect_job(&task_id_copy, &collect_id_copy) {
        DapCollectJob::Done(out) => Ok(out),
        _ => panic!("collect job not done"),
    }
}

#[test]
fn http_post_aggregate_invalid_batch_sel() {
    let mut ctx = new_ctx(DapVersion::Draft02);
    let task_id = ctx.time_interval_task_id;
    let req = agg_init_req(
        &ctx,
        &task_id,
        make_id(50),
        PartialBatchSelector::FixedSizeByBatchId { batch_id: make_id(51) },
        Vec::new(),
    );
    assert!(matches!(ctx.helper.http_post_aggregate(&req), Err(DapAbort::QueryMismatch)));
}

#[test]
fn http_post_aggregate_init_unauthorized_request() {
    let mut ctx = new_ctx(DapVersion::Draft02);
    let task_id = ctx.time_interval_task_id;
    let mut req = agg_init_req(&ctx, &task_id, make_id(50), PartialBatchSelector::TimeInterval, Vec::new());
    req.sender_auth = None;
    assert!(matches!(ctx.helper.http_post_aggregate(&req), Err(DapAbort::UnauthorizedRequest)));
    req.sender_auth = Some(BearerToken::from_bytes(b"incorrect auth token!".to_vec()));
    assert!(matches!(ctx.helper.http_post_aggregate(&req), Err(DapAbort::UnauthorizedRequest)));
}

#[test]
fn http_post_aggregate_init_expired_task() {
    let mut ctx = new_ctx(DapVersion::Draft02);
    let task_id = ctx.expired_task_id;
    let report = gen_test_report(&ctx, &task_id);
    let req = agg_init_req(
        &ctx,
        &task_id,
        make_id(50),
        PartialBatchSelector::TimeInterval,
        vec![share_of(&report)],
    );
    let resp = ctx.helper.http_post_aggregate(&req).unwrap();
    assert_eq!(resp.transitions.len(), 1);
    assert!(matches!(
        resp.transitions[0].var,
        TransitionVar::Failed(TransitionFailure::TaskExpired)
    ));
}

#[test]
fn http_get_hpke_config_unrecognized_task() {
    let ctx = new_ctx(DapVersion::Draft02);
    let req: DapRequest<()> = DapRequest {
        version: DapVersion::Draft02,
        media_type: Some(DapMediaType::HpkeConfig),
        task_id: Some(make_id(77)),
        payload: (),
        url: String::new(),
        sender_auth: None,
    };
    assert!(matches!(ctx.leader.http_get_hpke_config(&req), Err(DapAbort::UnrecognizedTask)));
}

#[test]
fn http_get_hpke_config_missing_task_id() {
    let ctx = new_ctx(DapVersion::Draft02);
    let req: DapRequest<()> = DapRequest {
        version: DapVersion::Draft02,
        media_type: Some(DapMediaType::HpkeConfig),
        task_id: None,
        payload: (),
        url: String::new(),
        sender_auth: None,
    };
    assert!(matches!(ctx.leader.http_get_hpke_config(&req), Err(DapAbort::MissingTaskId)));
}

#[test]
fn http_post_aggregate_cont_unauthorized_request() {
    let mut ctx = new_ctx(DapVersion::Draft02);
    let task_id = ctx.time_interval_task_id;
    let mut req = DapRequest {
        version: ctx.version,
        media_type: Some(DapMediaType::AggContReq),
        task_id: Some(task_id),
        payload: AggregateReq::Continue(AggregateContinueReq {
            task_id,
            agg_job_id: make_id(60),
            transitions: Vec::new(),
        }),
        url: String::new(),
        sender_auth: None,
    };
    assert!(matches!(ctx.helper.http_post_aggregate(&req), Err(DapAbort::UnauthorizedRequest)));
    req.sender_auth = Some(BearerToken::from_bytes(b"incorrect auth token!".to_vec()));
    assert!(matches!(ctx.helper.http_post_aggregate(&req), Err(DapAbort::UnauthorizedRequest)));
}

#[test]
fn http_post_aggregate_share_unauthorized_request() {
    let mut ctx = new_ctx(DapVersion::Draft02);
    let task_id = ctx.time_interval_task_id;
    let mut req = DapRequest {
        version: ctx.version,
        media_type: Some(DapMediaType::AggShareReq),
        task_id: Some(task_id),
        payload: AggregateShareReq {
            task_id,
            batch_sel: BatchSelector::TimeInterval {
                batch_interval: Interval { start: 0, duration: 3600 },
            },
            agg_param: Vec::new(),
            report_count: 0,
            checksum: [0u8; 32],
        },
        url: String::new(),
        sender_auth: None,
    };
    assert!(matches!(
        ctx.helper.http_post_aggregate_share(&req),
        Err(DapAbort::UnauthorizedRequest)
    ));
    req.sender_auth = Some(BearerToken::from_bytes(b"incorrect auth token!".to_vec()));
    assert!(matches!(
        ctx.helper.http_post_aggregate_share(&req),
        Err(DapAbort::UnauthorizedRequest)
    ));
}

#[test]
fn http_post_aggregate_share_invalid_batch_sel() {
    let mut ctx = new_ctx(DapVersion::Draft02);
    // Helper expects a time-interval selector but a fixed-size one comes.
    let req = DapRequest {
        version: ctx.version,
        media_type: Some(DapMediaType::AggShareReq),
        task_id: Some(ctx.time_interval_task_id),
        payload: AggregateShareReq {
            task_id: ctx.time_interval_task_id,
            batch_sel: BatchSelector::FixedSizeByBatchId { batch_id: make_id(61) },
            agg_param: Vec::new(),
            report_count: 0,
            checksum: [0u8; 32],
        },
        url: String::new(),
        sender_auth: Some(ctx.leader_token.clone()),
    };
    assert!(matches!(ctx.helper.http_post_aggregate_share(&req), Err(DapAbort::QueryMismatch)));
    // Unknown batch identifier on the fixed-size task.
    let req = DapRequest {
        version: ctx.version,
        media_type: Some(DapMediaType::AggShareReq),
        task_id: Some(ctx.fixed_size_task_id),
        payload: AggregateShareReq {
            task_id: ctx.fixed_size_task_id,
            batch_sel: BatchSelector::FixedSizeByBatchId { batch_id: make_id(62) },
            agg_param: Vec::new(),
            report_count: 0,
            checksum: [0u8; 32],
        },
        url: String::new(),
        sender_auth: Some(ctx.leader_token.clone()),
    };
    assert!(matches!(ctx.helper.http_post_aggregate_share(&req), Err(DapAbort::BatchInvalid)));
}

#[test]
fn http_post_collect_unauthorized_request() {
    let mut ctx = new_ctx(DapVersion::Draft02);
    let task_id = ctx.time_interval_task_id;
    let query = Query::TimeInterval {
        batch_interval: Interval { start: 0, duration: 3600 },
    };
    let mut req = collector_req_simple(&ctx, &task_id, query);
    req.sender_auth = None;
    assert!(matches!(ctx.leader.http_post_collect(req), Err(DapAbort::UnauthorizedRequest)));
    let mut req = collector_req_simple(&ctx, &task_id, query);
    req.sender_auth = Some(BearerToken::from_bytes(b"incorrect auth token!".to_vec()));
    assert!(matches!(ctx.leader.http_post_collect(req), Err(DapAbort::UnauthorizedRequest)));
}

fn collector_req_simple(ctx: &TestCtx, task_id: &Id, query: Query) -> DapRequest<CollectReq> {
    DapRequest {
        version: ctx.version,
        media_type: Some(DapMediaType::CollectReq),
        task_id: Some(*task_id),
        payload: CollectReq { task_id: *task_id, query, agg_param: Vec::new() },
        url: String::new(),
        sender_auth: Some(ctx.collector_token.clone()),
    }
}

#[test]
fn http_post_aggregate_failure_hpke_decrypt_error() {
    let mut ctx = new_ctx(DapVersion::Draft02);
    let task_id = ctx.time_interval_task_id;
    let report = gen_test_report(&ctx, &task_id);
    let mut share = share_of(&report);
    share.encrypted_input_share.payload[0] ^= 0xff;
    let req = agg_init_req(&ctx, &task_id, make_id(50), PartialBatchSelector::TimeInterval, vec![
        share,
    ]);
    let resp = ctx.helper.http_post_aggregate(&req).unwrap();
    assert!(matches!(
        resp.transitions[0].var,
        TransitionVar::Failed(TransitionFailure::HpkeDecryptError)
    ));
}

#[test]
fn http_post_aggregate_failure_hpke_unknown_config_id() {
    let mut ctx = new_ctx(DapVersion::Draft02);
    let task_id = ctx.time_interval_task_id;
    let report = gen_test_report(&ctx, &task_id);
    let mut share = share_of(&report);
    share.encrypted_input_share.config_id = 250;
    let req = agg_init_req(&ctx, &task_id, make_id(50), PartialBatchSelector::TimeInterval, vec![
        share,
    ]);
    let resp = ctx.helper.http_post_aggregate(&req).unwrap();
    assert!(matches!(
        resp.transitions[0].var,
        TransitionVar::Failed(TransitionFailure::HpkeUnknownConfigId)
    ));
}

#[test]
fn http_post_aggregate_transition_continue() {
    let mut ctx = new_ctx(DapVersion::Draft02);
    let task_id = ctx.time_interval_task_id;
    let report = gen_test_report(&ctx, &task_id);
    let req = agg_init_req(&ctx, &task_id, make_id(50), PartialBatchSelector::TimeInterval, vec![
        share_of(&report),
    ]);
    let resp = ctx.helper.http_post_aggregate(&req).unwrap();
    assert!(matches!(resp.transitions[0].var, TransitionVar::Continued(_)));
}

#[test]
fn http_post_aggregate_failure_report_replayed() {
    let mut ctx = new_ctx(DapVersion::Draft02);
    let task_id = ctx.time_interval_task_id;
    let report = gen_test_report(&ctx, &task_id);
    // Seed the Helper's replay set with the report's identifier.
    let mut processed = IdSet::new();
    processed.insert(report.metadata.id.bytes);
    ctx.helper.report_store.set(&task_id, ReportStore { pending: Vec::new(), processed });
    let req = agg_init_req(&ctx, &task_id, make_id(50), PartialBatchSelector::TimeInterval, vec![
        share_of(&report),
    ]);
    let resp = ctx.helper.http_post_aggregate(&req).unwrap();
    assert!(matches!(
        resp.transitions[0].var,
        TransitionVar::Failed(TransitionFailure::ReportReplayed)
    ));
}

#[test]
fn report_replayed_on_second_attempt() {
    let mut ctx = new_ctx(DapVersion::Draft02);
    let task_id = ctx.time_interval_task_id;
    let report = gen_test_report(&ctx, &task_id);
    let req1 = agg_init_req(&ctx, &task_id, make_id(50), PartialBatchSelector::TimeInterval, vec![
        share_of(&report),
    ]);
    let resp1 = ctx.helper.http_post_aggregate(&req1).unwrap();
    assert!(matches!(resp1.transitions[0].var, TransitionVar::Continued(_)));
    // A second job carrying the same report replays.
    let req2 = agg_init_req(&ctx, &task_id, make_id(51), PartialBatchSelector::TimeInterval, vec![
        share_of(&report),
    ]);
    let resp2 = ctx.helper.http_post_aggregate(&req2).unwrap();
    assert!(matches!(
        resp2.transitions[0].var,
        TransitionVar::Failed(TransitionFailure::ReportReplayed)
    ));
}

#[test]
fn http_post_aggregate_failure_batch_collected() {
    let mut ctx = new_ctx(DapVersion::Draft02);
    let task_id = ctx.time_interval_task_id;
    let report = gen_test_report(&ctx, &task_id);
    let window = ctx.now - (ctx.now % 3600);
    ctx.helper.agg_store.set(
        &TaskBucketKey { task_id, bucket: BucketKey::TimeInterval { batch_window: window } },
        AggStore { agg_share: daphne::scheme::DapAggregateShare::empty(), collected: true },
    );
    let req = agg_init_req(&ctx, &task_id, make_id(50), PartialBatchSelector::TimeInterval, vec![
        share_of(&report),
    ]);
    let resp = ctx.helper.http_post_aggregate(&req).unwrap();
    assert!(matches!(
        resp.transitions[0].var,
        TransitionVar::Failed(TransitionFailure::BatchCollected)
    ));
}

#[test]
fn http_post_aggregate_abort_helper_state_overwritten() {
    let mut ctx = new_ctx(DapVersion::Draft02);
    let task_id = ctx.time_interval_task_id;
    let report = gen_test_report(&ctx, &task_id);
    let req = agg_init_req(&ctx, &task_id, make_id(50), PartialBatchSelector::TimeInterval, vec![
        share_of(&report),
    ]);
    let _ = ctx.helper.http_post_aggregate(&req);
    let err = ctx.helper.http_post_aggregate(&req).unwrap_err();
    match err {
        DapAbort::BadRequest(e) => {
            assert_eq!(e, "unexpected message for aggregation job (already exists)".to_string());
        },
        _ => panic!("wrong abort"),
    }
}

#[test]
fn http_post_aggregate_fail_send_cont_req() {
    let mut ctx = new_ctx(DapVersion::Draft02);
    let task_id = ctx.time_interval_task_id;
    let req = DapRequest {
        version: ctx.version,
        media_type: Some(DapMediaType::AggContReq),
        task_id: Some(task_id),
        payload: AggregateReq::Continue(AggregateContinueReq {
            task_id,
            agg_job_id: make_id(66),
            transitions: Vec::new(),
        }),
        url: String::new(),
        sender_auth: Some(ctx.leader_token.clone()),
    };
    assert!(matches!(
        ctx.helper.http_post_aggregate(&req),
        Err(DapAbort::UnrecognizedAggregationJob)
    ));
}

#[test]
fn http_post_upload_fail_send_invalid_report() {
    let mut ctx = new_ctx(DapVersion::Draft02);
    let task_id = ctx.time_interval_task_id;
    // Unknown task identifier, no provisioning extension.
    let mut report = gen_test_report(&ctx, &task_id);
    report.task_id = Id { bytes: [0u8; 32] };
    let req = upload_req(&ctx, report);
    assert!(matches!(ctx.leader.http_post_upload(req), Err(DapAbort::UnrecognizedTask)));
    // Wrong number of encrypted input shares.
    let mut report = gen_test_report(&ctx, &task_id);
    report.encrypted_input_shares.pop();
    let req = upload_req(&ctx, report);
    assert!(matches!(ctx.leader.http_post_upload(req), Err(DapAbort::UnrecognizedMessage)));
}

#[test]
fn http_post_upload_task_expired() {
    let mut ctx = new_ctx(DapVersion::Draft02);
    let task_id = ctx.expired_task_id;
    let report = gen_test_report(&ctx, &task_id);
    let req = upload_req(&ctx, report);
    assert!(matches!(ctx.leader.http_post_upload(req), Err(DapAbort::ReportTooLate)));
}

#[test]
fn get_reports_empty_response() {
    let mut ctx = new_ctx(DapVersion::Draft02);
    let task_id = ctx.time_interval_task_id;
    let report = gen_test_report(&ctx, &task_id);
    ctx.leader.http_post_upload(upload_req(&ctx, report)).expect("upload failed unexpectedly");
    let (_psel, reports) = ctx.leader.get_reports(&task_id).unwrap();
    assert_eq!(reports.len(), 1);
    let (_psel, reports) = ctx.leader.get_reports(&task_id).unwrap();
    assert_eq!(reports.len(), 0);
}

#[test]
fn poll_collect_job_test_results() {
    let mut ctx = new_ctx(DapVersion::Draft02);
    let task_id = ctx.time_interval_task_id;
    let window = ctx.now - (ctx.now % 3600);
    let query = Query::TimeInterval {
        batch_interval: Interval { start: window, duration: 3600 },
    };
    let req = collector_req_simple(&ctx, &task_id, query);
    ctx.leader.http_post_collect(req).unwrap();
    // An identifier never issued polls as unknown.
    assert!(matches!(
        ctx.leader.poll_collect_job(&task_id, &Id { bytes: [0u8; 32] }),
        DapCollectJob::Unknown
    ));
    let pending = ctx.leader.get_pending_collect_jobs();
    let (collect_id, _creq) = &pending[0];
    assert!(matches!(ctx.leader.poll_collect_job(&task_id, collect_id), DapCollectJob::Pending));
    let resp = CollectResp {
        part_batch_sel: PartialBatchSelector::TimeInterval,
        report_count: 0,
        encrypted_agg_shares: Vec::new(),
    };
    ctx.leader.finish_collect_job(&task_id, collect_id, resp).unwrap();
    assert!(matches!(
        ctx.leader.poll_collect_job(&task_id, collect_id),
        DapCollectJob::Done(..)
    ));
    // Done responses stay retrievable.
    assert!(matches!(
        ctx.leader.poll_collect_job(&task_id, collect_id),
        DapCollectJob::Done(..)
    ));
}

#[test]
fn http_post_collect_fail_invalid_batch_interval() {
    let mut ctx = new_ctx(DapVersion::Draft02);
    let task_id = ctx.time_interval_task_id;
    let g = global_config();
    let window = ctx.now - (ctx.now % 3600);
    // Too large.
    let query = Query::TimeInterval {
        batch_interval: Interval { start: window, duration: g.max_batch_duration + 3600 },
    };
    let req = collector_req_simple(&ctx, &task_id, query);
    match ctx.leader.http_post_collect(req).unwrap_err() {
        DapAbort::BadRequest(s) => assert_eq!(s, "batch interval too large".to_string()),
        _ => panic!("wrong abort"),
    }
    // Too far into the past.
    let query = Query::TimeInterval {
        batch_interval: Interval {
            start: window - g.max_batch_duration - g.min_batch_interval_start - 3600,
            duration: 7200,
        },
    };
    let req = collector_req_simple(&ctx, &task_id, query);
    match ctx.leader.http_post_collect(req).unwrap_err() {
        DapAbort::BadRequest(s) => assert_eq!(s, "batch interval too far into past".to_string()),
        _ => panic!("wrong abort"),
    }
    // Too far into the future.
    let query = Query::TimeInterval {
        batch_interval: Interval {
            start: window + g.max_batch_interval_end - 3600,
            duration: 7200,
        },
    };
    let req = collector_req_simple(&ctx, &task_id, query);
    match ctx.leader.http_post_collect(req).unwrap_err() {
        DapAbort::BadRequest(s) => assert_eq!(s, "batch interval too far into future".to_string()),
        _ => panic!("wrong abort"),
    }
}

#[test]
fn http_post_collect_fail_misaligned_batch_interval() {
    let mut ctx = new_ctx(DapVersion::Draft02);
    let task_id = ctx.time_interval_task_id;
    let window = ctx.now - (ctx.now % 3600);
    let query = Query::TimeInterval {
        batch_interval: Interval { start: window + 1, duration: 3600 },
    };
    let req = collector_req_simple(&ctx, &task_id, query);
    assert!(matches!(ctx.leader.http_post_collect(req), Err(DapAbort::BatchInvalid)));
}

#[test]
fn http_post_collect_succeed_max_batch_interval() {
    let mut ctx = new_ctx(DapVersion::Draft02);
    let task_id = ctx.time_interval_task_id;
    let g = global_config();
    let window = ctx.now - (ctx.now % 3600);
    let query = Query::TimeInterval {
        batch_interval: Interval {
            start: window - g.max_batch_duration / 2,
            duration: g.max_batch_duration,
        },
    };
    let req = collector_req_simple(&ctx, &task_id, query);
    ctx.leader.http_post_collect(req).unwrap();
}

#[test]
fn http_post_collect_fail_overlapping_batch_interval() {
    let mut ctx = new_ctx(DapVersion::Draft02);
    let task_id = ctx.time_interval_task_id;
    let report = gen_test_report(&ctx, &task_id);
    ctx.leader.http_post_upload(upload_req(&ctx, report)).unwrap();
    run_agg_job(&mut ctx.leader, &mut ctx.helper, &task_id).unwrap();
    let window = ctx.now - (ctx.now % 3600);
    let query = Query::TimeInterval {
        batch_interval: Interval { start: window, duration: 3600 },
    };
    run_collect_job(&mut ctx.leader, &mut ctx.helper, &task_id, &query).unwrap();
    assert!(matches!(
        run_collect_job(&mut ctx.leader, &mut ctx.helper, &task_id, &query),
        Err(DapAbort::BatchOverlap)
    ));
}

#[test]
fn http_post_collect_success() {
    let mut ctx = new_ctx(DapVersion::Draft02);
    let task_id = ctx.time_interval_task_id;
    let window = ctx.now - (ctx.now % 3600);
    let query = Query::TimeInterval {
        batch_interval: Interval { start: window, duration: 3600 },
    };
    let req = collector_req_simple(&ctx, &task_id, query);
    let url = ctx.leader.http_post_collect(req).unwrap();
    let pending = ctx.leader.get_pending_collect_jobs();
    assert_eq!(pending.len(), 1);
    let (collect_id, creq) = &pending[0];
    assert_eq!(creq.task_id.bytes, task_id.bytes);
    // The locator names the same collect identifier the Leader stored.
    let parsed = url::Url::parse(&url).unwrap();
    let path = parsed.path().to_string();
    let mut router = matchit::Router::new();
    router.insert("/{version}/collect/task/{task_id}/req/{collect_id}", true).unwrap();
    let matched = router.at(&path).unwrap();
    assert_eq!(
        matched.params.get("collect_id").unwrap().to_string(),
        daphne::locator::id_to_base64url(collect_id)
    );
    assert_eq!(
        matched.params.get("task_id").unwrap().to_string(),
        daphne::locator::id_to_base64url(&task_id)
    );
}

#[test]
fn http_post_collect_invalid_query() {
    let mut ctx = new_ctx(DapVersion::Draft02);
    // Leader expects a time-interval query but a fixed-size one comes.
    let query = Query::FixedSizeByBatchId { batch_id: make_id(63) };
    let tid = ctx.time_interval_task_id;
    let req = collector_req_simple(&ctx, &tid, query);
    assert!(matches!(ctx.leader.http_post_collect(req), Err(DapAbort::QueryMismatch)));
    // Unrecognized batch identifier on the fixed-size task.
    let query = Query::FixedSizeByBatchId { batch_id: make_id(64) };
    let tid = ctx.fixed_size_task_id;
    let req = collector_req_simple(&ctx, &tid, query);
    assert!(matches!(ctx.leader.http_post_collect(req), Err(DapAbort::BatchInvalid)));
}

#[test]
fn http_post_fail_wrong_dap_version() {
    let mut ctx = new_ctx(DapVersion::Draft02);
    let task_id = ctx.time_interval_task_id;
    let report = gen_test_report(&ctx, &task_id);
    let mut req = upload_req(&ctx, report);
    req.version = DapVersion::Unknown;
    assert!(matches!(ctx.leader.http_post_upload(req), Err(DapAbort::InvalidProtocolVersion)));
}

#[test]
fn http_post_upload() {
    let mut ctx = new_ctx(DapVersion::Draft02);
    let task_id = ctx.time_interval_task_id;
    let report = gen_test_report(&ctx, &task_id);
    ctx.leader.http_post_upload(upload_req(&ctx, report)).expect("upload failed unexpectedly");
}

#[test]
fn e2e_time_interval() {
    let mut ctx = new_ctx(DapVersion::Draft02);
    let task_id = ctx.time_interval_task_id;
    let report = gen_test_report(&ctx, &task_id);
    ctx.leader.http_post_upload(upload_req(&ctx, report)).unwrap();
    run_agg_job(&mut ctx.leader, &mut ctx.helper, &task_id).unwrap();
    let window = ctx.now - (ctx.now % 3600);
    let query = Query::TimeInterval {
        batch_interval: Interval { start: window, duration: 3600 },
    };
    let resp = drive_collect(&mut ctx, &task_id, query).unwrap();
    assert_eq!(resp.report_count, 1);
    // Known answer: the two aggregate shares recombine into the one
    // measurement uploaded.
    assert_eq!(open_collect_resp(&ctx.collector_receiver, &resp), Some(1));
}

#[test]
fn e2e_fixed_size() {
    let mut ctx = new_ctx(DapVersion::Draft02);
    let task_id = ctx.fixed_size_task_id;
    let report = gen_test_report(&ctx, &task_id);
    ctx.leader.http_post_upload(upload_req(&ctx, report)).unwrap();
    run_agg_job(&mut ctx.leader, &mut ctx.helper, &task_id).unwrap();
    let batch_id = ctx.leader.current_batch_id(&task_id).unwrap();
    let query = Query::FixedSizeByBatchId { batch_id };
    let resp = drive_collect(&mut ctx, &task_id, query).unwrap();
    assert_eq!(resp.report_count, 1);
    assert_eq!(open_collect_resp(&ctx.collector_receiver, &resp), Some(1));
}

#[test]
fn e2e_taskprov() {
    let mut ctx = new_ctx(DapVersion::Draft02);
    let taskprov_config = TaskprovConfig {
        task_info: b"cool task".to_vec(),
        leader_url: b"https://cool.biz/".to_vec(),
        helper_url: b"http://cool.com:8788/".to_vec(),
        time_precision: 3600,
        min_batch_size: 1,
        query: TaskprovQuery::FixedSize { max_batch_size: 2 },
        task_expiration: ctx.now + 86400 * 14,
    };
    let taskprov_id = compute_task_id(&taskprov_config);
    let lc = ctx.leader.get_hpke_config_for(Some(&taskprov_id)).unwrap();
    let hc = ctx.helper.get_hpke_config_for(Some(&taskprov_id)).unwrap();
    let report = produce_report_with_extensions(
        &vec![lc, hc],
        ctx.now,
        &taskprov_id,
        DapMeasurement::U64(1),
        vec![Extension::Taskprov { config: taskprov_config }],
    );
    ctx.leader.http_post_upload(upload_req(&ctx, report)).unwrap();
    run_agg_job(&mut ctx.leader, &mut ctx.helper, &taskprov_id).unwrap();
    let batch_id = ctx.leader.current_batch_id(&taskprov_id).unwrap();
    let query = Query::FixedSizeByBatchId { batch_id };
    let resp = drive_collect(&mut ctx, &taskprov_id, query).unwrap();
    assert_eq!(resp.report_count, 1);
    assert_eq!(open_collect_resp(&ctx.collector_receiver, &resp), Some(1));
}

#[test]
fn continue_into_collected_bucket_is_fatal() {
    let mut ctx = new_ctx(DapVersion::Draft02);
    let task_id = ctx.time_interval_task_id;
    let report = gen_test_report(&ctx, &task_id);
    // Open the job on the Helper.
    let init = agg_init_req(&ctx, &task_id, make_id(50), PartialBatchSelector::TimeInterval, vec![
        share_of(&report),
    ]);
    let resp = ctx.helper.http_post_aggregate(&init).unwrap();
    assert!(matches!(resp.transitions[0].var, TransitionVar::Continued(_)));
    // A collect slips in between initialize and continue and marks the
    // report's bucket collected on the Helper.
    let window = ctx.now - (ctx.now % 3600);
    let asr = DapRequest {
        version: ctx.version,
        media_type: Some(DapMediaType::AggShareReq),
        task_id: Some(task_id),
        payload: AggregateShareReq {
            task_id,
            batch_sel: BatchSelector::TimeInterval {
                batch_interval: Interval { start: window, duration: 3600 },
            },
            agg_param: Vec::new(),
            report_count: 0,
            checksum: [0u8; 32],
        },
        url: String::new(),
        sender_auth: Some(ctx.leader_token.clone()),
    };
    ctx.helper.http_post_aggregate_share(&asr).unwrap();
    // The late continue must not merge into the collected bucket.
    let cont = DapRequest {
        version: ctx.version,
        media_type: Some(DapMediaType::AggContReq),
        task_id: Some(task_id),
        payload: AggregateReq::Continue(AggregateContinueReq {
            task_id,
            agg_job_id: make_id(50),
            transitions: vec![daphne::messages::Transition {
                report_id: report.metadata.id,
                var: TransitionVar::Continued(Vec::new()),
            }],
        }),
        url: String::new(),
        sender_auth: Some(ctx.leader_token.clone()),
    };
    match ctx.helper.http_post_aggregate(&cont).unwrap_err() {
        DapAbort::BadRequest(s) => {
            assert_eq!(s, "aggregate share merged into a collected batch bucket".to_string());
        },
        _ => panic!("wrong abort"),
    }
}

#[test]
fn finish_unknown_collect_job_rejected() {
    let mut ctx = new_ctx(DapVersion::Draft02);
    let task_id = ctx.time_interval_task_id;
    let resp = CollectResp {
        part_batch_sel: PartialBatchSelector::TimeInterval,
        report_count: 0,
        encrypted_agg_shares: Vec::new(),
    };
    match ctx.leader.finish_collect_job(&task_id, &make_id(42), resp).unwrap_err() {
        DapAbort::BadRequest(s) => assert_eq!(s, "unrecognized collect job".to_string()),
        _ => panic!("wrong abort"),
    }
}

#[test]
fn taskprov_rejects_wrong_claimed_id() {
    let mut ctx = new_ctx(DapVersion::Draft02);
    let taskprov_config = TaskprovConfig {
        task_info: b"cool task".to_vec(),
        leader_url: b"https://cool.biz/".to_vec(),
        helper_url: b"http://cool.com:8788/".to_vec(),
        time_precision: 3600,
        min_batch_size: 1,
        query: TaskprovQuery::FixedSize { max_batch_size: 2 },
        task_expiration: ctx.now + 86400,
    };
    let wrong_id = make_id(99);
    let lc = ctx.leader.get_hpke_config_for(Some(&wrong_id)).unwrap();
    let hc = ctx.helper.get_hpke_config_for(Some(&wrong_id)).unwrap();
    let report = produce_report_with_extensions(
        &vec![lc, hc],
        ctx.now,
        &wrong_id,
        DapMeasurement::U64(1),
        vec![Extension::Taskprov { config: taskprov_config }],
    );
    assert!(matches!(
        ctx.leader.http_post_upload(upload_req(&ctx, report)),
        Err(DapAbort::UnrecognizedTask)
    ));
}
