//! The Helper's aggregation endpoint: a stateful responder to initialize
//! and continue requests that enforces single-use job identifiers,
//! per-report anti-replay and batch-collected accounting, and the
//! aggregate-share exchange that hands the Leader the Helper's half of a
//! batch.

use vstd::prelude::*;
use crate::aggregator::{has_receiver, receiver_idx, HelperState, InMemoryAggregator, ReportStore};
use crate::base::{
    is_bad_request, reason_bucket_collected, reason_job_already_exists, DapAbort, DapMediaType,
    TransitionFailure,
};
use crate::batch::{
    any_bucket_collected, bucket_collected, bucket_for, entries_view, merge_fold, rec_bucket,
    sel_overlaps_collected, sel_share_view, HelperStateEntry, OutRec, ShareView,
};
use crate::hpke::{decrypt_view, hpke_decrypt, HpkeReceiverConfig};
use crate::messages::{
    AggregateInitializeReq, AggregateReq, AggregateResp, AggregateShareReq, AggregateShareResp,
    DapRequest, HpkeCiphertext, Id, JobKey, PartialBatchSelector, ReportMetadata, ReportShare,
    Transition, TransitionVar,
};
use crate::scheme::{consume_share_view, encrypted_share_of, DapAggregateShare};
use crate::storage::IdSet;
use crate::task::{
    interval_aligned, query_matches_psel, query_matches_sel, DapQueryConfig, DapTaskConfig,
    TaskBucketKey,
};
use crate::taskprov::{can_provision, provisioned_matches, TaskprovConfig};

verus! {

/// What decrypting one report share yields: no configuration for its
/// identifier, a failed decryption, or the plaintext share.
pub ghost enum DecryptOutcome {
    UnknownConfig,
    Fail,
    Plain(Seq<u8>),
}

/// The outcome of decrypting a ciphertext against a role's decryption
/// configurations.
pub open spec fn decrypt_share_view(
    list: Seq<HpkeReceiverConfig>,
    ct: HpkeCiphertext,
) -> DecryptOutcome {
    if !has_receiver(list, ct.config_id) {
        DecryptOutcome::UnknownConfig
    } else {
        let rc = list[receiver_idx(list, ct.config_id)];
        match decrypt_view(rc.private_key@, ct.payload@, ct.enc@) {
            Option::None => DecryptOutcome::Fail,
            Option::Some(p) => DecryptOutcome::Plain(p),
        }
    }
}

/// What one report share comes to at initialization, in order: the task
/// must not be expired at the report's timestamp, the report must not
/// replay an already-processed identifier, its bucket must not be
/// collected, its share must decrypt, and the share must decode.
pub open spec fn share_outcome(
    precision: u64,
    expiration: u64,
    psel: PartialBatchSelector,
    list: Seq<HpkeReceiverConfig>,
    batch: crate::batch::BatchMap,
    task_id: Seq<u8>,
    processed: Set<Seq<u8>>,
    share: ReportShare,
) -> Result<u64, TransitionFailure> {
    if share.metadata.time >= expiration {
        Err(TransitionFailure::TaskExpired)
    } else if processed.contains(share.metadata.id@) {
        Err(TransitionFailure::ReportReplayed)
    } else if bucket_collected(
        batch,
        task_id,
        rec_bucket(psel, precision, share.metadata.time),
    ) {
        Err(TransitionFailure::BatchCollected)
    } else {
        match decrypt_share_view(list, share.encrypted_input_share) {
            DecryptOutcome::UnknownConfig => Err(TransitionFailure::HpkeUnknownConfigId),
            DecryptOutcome::Fail => Err(TransitionFailure::HpkeDecryptError),
            DecryptOutcome::Plain(plain) => consume_share_view(plain),
        }
    }
}

/// The running state of initialization: the replay set as it grows, the
/// entries stored for the continue step, and one outcome per share.
pub ghost struct InitAccum {
    pub processed: Set<Seq<u8>>,
    pub entries: Seq<OutRec>,
    pub outcomes: Seq<Result<u64, TransitionFailure>>,
}

/// Initialization folded over the report shares in input order. A share
/// that succeeds enters the replay set at once, so a duplicate later in
/// the same request replays.
pub open spec fn init_fold(
    precision: u64,
    expiration: u64,
    psel: PartialBatchSelector,
    list: Seq<HpkeReceiverConfig>,
    batch: crate::batch::BatchMap,
    task_id: Seq<u8>,
    processed0: Set<Seq<u8>>,
    shares: Seq<ReportShare>,
) -> InitAccum
    decreases shares.len(),
{
    if shares.len() == 0 {
        InitAccum { processed: processed0, entries: Seq::empty(), outcomes: Seq::empty() }
    } else {
        let prev = init_fold(
            precision,
            expiration,
            psel,
            list,
            batch,
            task_id,
            processed0,
            shares.drop_last(),
        );
        let share = shares.last();
        match share_outcome(precision, expiration, psel, list, batch, task_id, prev.processed, share) {
            Ok(v) => InitAccum {
                processed: prev.processed.insert(share.metadata.id@),
                entries: prev.entries.push(
                    OutRec { report_id: share.metadata.id@, time: share.metadata.time, value: v },
                ),
                outcomes: prev.outcomes.push(Ok(v)),
            },
            Err(f) => InitAccum {
                processed: prev.processed,
                entries: prev.entries,
                outcomes: prev.outcomes.push(Err(f)),
            },
        }
    }
}

/// Whether a transition reports `oc` for the report named `report_id`:
/// a successful share continues with the Helper's (empty) preparation
/// message, a failed one carries its failure kind.
pub open spec fn transition_reflects(
    t: Transition,
    report_id: Seq<u8>,
    oc: Result<u64, TransitionFailure>,
) -> bool {
    &&& t.report_id@ == report_id
    &&& match oc {
        Ok(_) => t.var matches TransitionVar::Continued(m) && m@.len() == 0,
        Err(f) => t.var matches TransitionVar::Failed(g) && g == f,
    }
}

/// The replay set a task's report store holds, empty before the first
/// report.
pub open spec fn processed_of(m: Map<Seq<u8>, ReportStore>, task_id: Seq<u8>) -> Set<Seq<u8>> {
    if m.contains_key(task_id) {
        m[task_id].processed@
    } else {
        Set::empty()
    }
}

/// The pending queue a task's report store holds, empty before the first
/// report.
pub open spec fn pending_of(m: Map<Seq<u8>, ReportStore>, task_id: Seq<u8>) -> Seq<
    crate::messages::Report,
> {
    if m.contains_key(task_id) {
        m[task_id].pending@
    } else {
        Seq::empty()
    }
}

/// The provisioning extension the first of a run of report shares
/// carries, if any.
pub open spec fn ext_of_shares(shares: Seq<ReportShare>) -> Option<TaskprovConfig> {
    if shares.len() == 0 {
        None
    } else {
        taskprov_ext_of(shares[0].metadata)
    }
}

/// Whether a run of report shares provisions the unknown task it claims.
pub open spec fn shares_provision_ok(allow: bool, shares: Seq<ReportShare>, tid: Seq<u8>) -> bool {
    ext_of_shares(shares) matches Some(ext) && can_provision(allow, ext, tid)
}

/// The time precision a run of report shares resolves against: the
/// registered task's, or the provisioned one's.
pub open spec fn resolved_precision_of(
    tasks: Map<Seq<u8>, DapTaskConfig>,
    tid: Seq<u8>,
    shares: Seq<ReportShare>,
) -> u64 {
    if tasks.contains_key(tid) {
        tasks[tid].time_precision
    } else {
        ext_of_shares(shares)->Some_0.time_precision
    }
}

/// The expiration a run of report shares resolves against.
pub open spec fn resolved_expiration_of(
    tasks: Map<Seq<u8>, DapTaskConfig>,
    tid: Seq<u8>,
    shares: Seq<ReportShare>,
) -> u64 {
    if tasks.contains_key(tid) {
        tasks[tid].expiration
    } else {
        ext_of_shares(shares)->Some_0.task_expiration
    }
}

/// The provisioning extension a report's metadata carries, if any.
pub open spec fn taskprov_ext_of(md: ReportMetadata) -> Option<TaskprovConfig> {
    if md.extensions@.len() == 0 {
        None
    } else {
        match md.extensions@[0] {
            crate::messages::Extension::Taskprov { config } => Some(config),
        }
    }
}

/// The first stored output share for a report identifier.
pub open spec fn find_rec(entries: Seq<OutRec>, id: Seq<u8>) -> Option<OutRec>
    decreases entries.len(),
{
    if entries.len() == 0 {
        None
    } else if entries[0].report_id == id {
        Some(entries[0])
    } else {
        find_rec(entries.drop_first(), id)
    }
}

/// Whether some collected output share is for the report named `id`.
pub open spec fn rec_ids_contain(recs: Seq<OutRec>, id: Seq<u8>) -> bool {
    exists|i: int| 0 <= i < recs.len() && #[trigger] recs[i].report_id == id
}

/// A first match at position `i` is what `find_rec` finds.
pub proof fn lemma_find_rec_at(entries: Seq<OutRec>, id: Seq<u8>, i: int)
    requires
        0 <= i < entries.len(),
        forall|j: int| 0 <= j < i ==> entries[j].report_id != id,
        entries[i].report_id == id,
    ensures
        find_rec(entries, id) == Some(entries[i]),
    decreases i,
{
    if i > 0 {
        lemma_find_rec_at(entries.drop_first(), id, i - 1);
    }
}

/// With no match anywhere, `find_rec` finds nothing.
pub proof fn lemma_find_rec_none(entries: Seq<OutRec>, id: Seq<u8>)
    requires
        forall|j: int| 0 <= j < entries.len() ==> entries[j].report_id != id,
    ensures
        find_rec(entries, id) is None,
    decreases entries.len(),
{
    if entries.len() > 0 {
        lemma_find_rec_none(entries.drop_first(), id);
    }
}

/// The continue step folded over the Leader's transitions, in order: a
/// continued transition commits the stored output share of its report,
/// once; a failed one commits nothing; anything else, an unknown report
/// or a repeated one, rejects the whole request.
pub open spec fn cont_fold(entries: Seq<OutRec>, transitions: Seq<Transition>) -> Option<
    Seq<OutRec>,
>
    decreases transitions.len(),
{
    if transitions.len() == 0 {
        Some(Seq::empty())
    } else {
        match cont_fold(entries, transitions.drop_last()) {
            None => None,
            Some(prev) => {
                let t = transitions.last();
                match t.var {
                    TransitionVar::Continued(_) => match find_rec(entries, t.report_id@) {
                        None => None,
                        Some(rec) => if rec_ids_contain(prev, t.report_id@) {
                            None
                        } else {
                            Some(prev.push(rec))
                        },
                    },
                    TransitionVar::Failed(_) => Some(prev),
                    TransitionVar::Finished => None,
                }
            },
        }
    }
}

/// Finds the first stored output share for a report identifier.
pub fn find_entry(entries: &Vec<HelperStateEntry>, id: &Id) -> (r: Option<HelperStateEntry>)
    ensures
        (r is Some) == (find_rec(entries_view(entries@), id@) is Some),
        r matches Some(e) ==> find_rec(entries_view(entries@), id@) == Some(e@),
{
    let ghost ev = entries_view(entries@);
    let mut i: usize = 0;
    while i < entries.len()
        invariant
            i <= entries@.len(),
            ev == entries_view(entries@),
            forall|j: int| 0 <= j < i ==> ev[j].report_id != id@,
        decreases entries@.len() - i,
    {
        if entries[i].report_id.same_as(id) {
            proof {
                lemma_find_rec_at(ev, id@, i as int);
            }
            return Some(entries[i]);
        }
        i += 1;
    }
    proof {
        lemma_find_rec_none(ev, id@);
    }
    None
}

/// Whether a collected output share for the report named `id` is already
/// present.
pub fn recs_contain(recs: &Vec<HelperStateEntry>, id: &Id) -> (r: bool)
    ensures
        r == rec_ids_contain(entries_view(recs@), id@),
{
    let ghost ev = entries_view(recs@);
    let mut i: usize = 0;
    while i < recs.len()
        invariant
            i <= recs@.len(),
            ev == entries_view(recs@),
            forall|j: int| 0 <= j < i ==> ev[j].report_id != id@,
        decreases recs@.len() - i,
    {
        if recs[i].report_id.same_as(id) {
            proof {
                assert(ev[i as int].report_id == id@);
            }
            return true;
        }
        i += 1;
    }
    false
}

impl InMemoryAggregator {
    /// The provisioning extension an initialize request carries on its
    /// first report share, if any.
    pub open spec fn init_ext(init: AggregateInitializeReq) -> Option<TaskprovConfig> {
        ext_of_shares(init.report_shares@)
    }

    /// Whether an initialize request for an unknown task provisions it.
    pub open spec fn init_provision_ok(self, init: AggregateInitializeReq) -> bool {
        shares_provision_ok(self.global_config.allow_taskprov, init.report_shares@, init.task_id@)
    }

    /// The query mode an initialize request resolves against: the
    /// registered task's, or the provisioned one's.
    pub open spec fn resolved_query(self, init: AggregateInitializeReq) -> DapQueryConfig {
        if self.tasks@.contains_key(init.task_id@) {
            self.tasks@[init.task_id@].query
        } else {
            match Self::init_ext(init)->Some_0.query {
                crate::taskprov::TaskprovQuery::TimeInterval => DapQueryConfig::TimeInterval,
                crate::taskprov::TaskprovQuery::FixedSize { max_batch_size } => (
                DapQueryConfig::FixedSize { max_batch_size }),
            }
        }
    }

    /// The time precision an initialize request resolves against.
    pub open spec fn resolved_precision(self, init: AggregateInitializeReq) -> u64 {
        resolved_precision_of(self.tasks@, init.task_id@, init.report_shares@)
    }

    /// The expiration an initialize request resolves against.
    pub open spec fn resolved_expiration(self, init: AggregateInitializeReq) -> u64 {
        resolved_expiration_of(self.tasks@, init.task_id@, init.report_shares@)
    }

    /// The fold an initialize request comes to against this state.
    pub open spec fn init_fold_of(self, init: AggregateInitializeReq) -> InitAccum {
        init_fold(
            self.resolved_precision(init),
            self.resolved_expiration(init),
            init.part_batch_sel,
            self.hpke_receiver_config_list@,
            self.batch_view(),
            init.task_id@,
            processed_of(self.report_store@, init.task_id@),
            init.report_shares@,
        )
    }

    /// Decrypts one report share against this role's configurations.
    pub fn decrypt_share(&self, ct: &HpkeCiphertext) -> (r: Result<Vec<u8>, TransitionFailure>)
        requires
            self.wf(),
        ensures
            match decrypt_share_view(self.hpke_receiver_config_list@, *ct) {
                DecryptOutcome::UnknownConfig => r == Err::<Vec<u8>, TransitionFailure>(
                    TransitionFailure::HpkeUnknownConfigId,
                ),
                DecryptOutcome::Fail => r == Err::<Vec<u8>, TransitionFailure>(
                    TransitionFailure::HpkeDecryptError,
                ),
                DecryptOutcome::Plain(p) => r matches Ok(v) && v@ == p,
            },
    {
        match self.receiver_for(ct.config_id) {
            None => Err(TransitionFailure::HpkeUnknownConfigId),
            Some(rc) => {
                proof {
                    let idx = receiver_idx(self.hpke_receiver_config_list@, ct.config_id);
                    assert(self.hpke_receiver_config_list@[idx].wf());
                }
                match hpke_decrypt(&rc.private_key, ct) {
                    Some(p) => Ok(p),
                    None => Err(TransitionFailure::HpkeDecryptError),
                }
            },
        }
    }

    /// Checks that none of the output shares targets a collected bucket.
    pub fn buckets_uncollected(
        &self,
        task_id: &Id,
        psel: &PartialBatchSelector,
        precision: u64,
        out_shares: &Vec<HelperStateEntry>,
    ) -> (r: bool)
        requires
            self.wf(),
            precision >= 1,
        ensures
            r == !any_bucket_collected(
                self.batch_view(),
                task_id@,
                *psel,
                precision,
                entries_view(out_shares@),
            ),
    {
        let ghost recs = entries_view(out_shares@);
        let mut i: usize = 0;
        while i < out_shares.len()
            invariant
                self.wf(),
                precision >= 1,
                i <= out_shares@.len(),
                recs == entries_view(out_shares@),
                forall|j: int|
                    0 <= j < i ==> !bucket_collected(
                        self.batch_view(),
                        task_id@,
                        rec_bucket(*psel, precision, #[trigger] recs[j].time),
                    ),
            decreases out_shares@.len() - i,
        {
            let rec = out_shares[i];
            let b = bucket_for(psel, precision, rec.time);
            let key = TaskBucketKey { task_id: *task_id, bucket: b };
            match self.agg_store.get(&key) {
                Some(st) => {
                    if st.collected {
                        proof {
                            assert(recs[i as int].time == rec.time);
                            assert(bucket_collected(
                                self.batch_view(),
                                task_id@,
                                rec_bucket(*psel, precision, recs[i as int].time),
                            ));
                        }
                        return false;
                    }
                },
                None => {},
            }
            proof {
                assert(recs[i as int].time == rec.time);
            }
            i += 1;
        }
        true
    }
}

/// The fold assigns one outcome per share.
pub proof fn lemma_init_fold_len(
    precision: u64,
    expiration: u64,
    psel: PartialBatchSelector,
    list: Seq<HpkeReceiverConfig>,
    batch: crate::batch::BatchMap,
    task_id: Seq<u8>,
    processed0: Set<Seq<u8>>,
    shares: Seq<ReportShare>,
)
    ensures
        init_fold(
            precision,
            expiration,
            psel,
            list,
            batch,
            task_id,
            processed0,
            shares,
        ).outcomes.len() == shares.len(),
    decreases shares.len(),
{
    if shares.len() > 0 {
        lemma_init_fold_len(
            precision,
            expiration,
            psel,
            list,
            batch,
            task_id,
            processed0,
            shares.drop_last(),
        );
    }
}

/// A rejection anywhere in the continue fold rejects the whole request.
pub proof fn lemma_cont_fold_none(entries: Seq<OutRec>, ts: Seq<Transition>, j: int)
    requires
        0 <= j <= ts.len(),
        cont_fold(entries, ts.take(j)) is None,
    ensures
        cont_fold(entries, ts) is None,
    decreases ts.len() - j,
{
    if j < ts.len() {
        assert(ts.take(j + 1).drop_last() =~= ts.take(j));
        assert(cont_fold(entries, ts.take(j + 1)) is None);
        lemma_cont_fold_none(entries, ts, j + 1);
    } else {
        assert(ts.take(j) =~= ts);
    }
}

/// Whether the media type of an aggregation request matches the message
/// it carries.
pub open spec fn agg_media_ok(req: DapRequest<AggregateReq>) -> bool {
    match req.payload {
        AggregateReq::Init(_) => req.media_type == Some(DapMediaType::AggInitReq),
        AggregateReq::Continue(_) => req.media_type == Some(DapMediaType::AggContReq),
    }
}

/// What an authorized, well-typed initialize request does to a Helper:
/// the gates in order, then one transition per report share and the
/// stored job state.
pub open spec fn init_post(
    pre: InMemoryAggregator,
    post: InMemoryAggregator,
    version: crate::base::DapVersion,
    init: AggregateInitializeReq,
    r: Result<AggregateResp, DapAbort>,
) -> bool {
    let tid = init.task_id@;
    let known = pre.tasks@.contains_key(tid);
    let key = (tid, init.agg_job_id@);
    let fold = pre.init_fold_of(init);
    if !known && !pre.init_provision_ok(init) {
        r matches Err(DapAbort::UnrecognizedTask) && post == pre
    } else if known && pre.tasks@[tid].version != version {
        r matches Err(DapAbort::InvalidProtocolVersion) && post == pre
    } else if !query_matches_psel(pre.resolved_query(init), init.part_batch_sel) {
        r matches Err(DapAbort::QueryMismatch) && post == pre
    } else if pre.helper_states@.contains_key(key) {
        is_bad_request(r, reason_job_already_exists()) && post == pre
    } else {
        &&& r matches Ok(resp) && resp.transitions@.len() == init.report_shares@.len() && (forall|
            i: int,
        |
            0 <= i < init.report_shares@.len() ==> transition_reflects(
                #[trigger] resp.transitions@[i],
                init.report_shares@[i].metadata.id@,
                fold.outcomes[i],
            ))
        &&& post.report_store@.contains_key(tid)
        &&& post.report_store@[tid].processed@ == fold.processed
        &&& (if pre.report_store@.contains_key(tid) {
            post.report_store@[tid].pending == pre.report_store@[tid].pending
        } else {
            post.report_store@[tid].pending@.len() == 0
        })
        &&& post.report_store@ == pre.report_store@.insert(tid, post.report_store@[tid])
        &&& post.helper_states@.contains_key(key)
        &&& post.helper_states@[key].part_batch_sel == init.part_batch_sel
        &&& entries_view(post.helper_states@[key].entries@) == fold.entries
        &&& post.helper_states@ == pre.helper_states@.insert(key, post.helper_states@[key])
        &&& (if known {
            post.tasks == pre.tasks
        } else {
            &&& post.tasks@.contains_key(tid)
            &&& provisioned_matches(
                post.tasks@[tid],
                InMemoryAggregator::init_ext(init)->Some_0,
                version,
                pre.collector_hpke_config,
            )
            &&& post.tasks@ == pre.tasks@.insert(tid, post.tasks@[tid])
        })
        &&& post.agg_store == pre.agg_store
        &&& post.collect_jobs == pre.collect_jobs
        &&& post.current_batch == pre.current_batch
        &&& post.now == pre.now
        &&& post.global_config == pre.global_config
        &&& post.leader_token == pre.leader_token
        &&& post.collector_token == pre.collector_token
        &&& post.hpke_receiver_config_list == pre.hpke_receiver_config_list
        &&& post.collector_hpke_config == pre.collector_hpke_config
    }
}

/// What an authorized, well-typed continue request does to a Helper: the
/// gates in order, then the committed output shares and the discarded
/// job state.
pub open spec fn cont_post(
    pre: InMemoryAggregator,
    post: InMemoryAggregator,
    version: crate::base::DapVersion,
    cont: crate::messages::AggregateContinueReq,
    r: Result<AggregateResp, DapAbort>,
) -> bool {
    let tid = cont.task_id@;
    let key = (tid, cont.agg_job_id@);
    if !pre.tasks@.contains_key(tid) {
        r matches Err(DapAbort::UnrecognizedTask) && post == pre
    } else if pre.tasks@[tid].version != version {
        r matches Err(DapAbort::InvalidProtocolVersion) && post == pre
    } else if !pre.helper_states@.contains_key(key) {
        r matches Err(DapAbort::UnrecognizedAggregationJob) && post == pre
    } else {
        let st = pre.helper_states@[key];
        let p = pre.tasks@[tid].time_precision;
        match cont_fold(entries_view(st.entries@), cont.transitions@) {
            None => r matches Err(DapAbort::UnrecognizedMessage) && post == pre,
            Some(recs) => if any_bucket_collected(
                pre.batch_view(),
                tid,
                st.part_batch_sel,
                p,
                recs,
            ) {
                is_bad_request(r, reason_bucket_collected()) && post == pre
            } else {
                &&& r matches Ok(resp) && resp.transitions@.len() == recs.len() && (forall|j: int|
                    0 <= j < recs.len() ==> (#[trigger] resp.transitions@[j]).report_id@
                        == recs[j].report_id && resp.transitions@[j].var matches
                        TransitionVar::Finished)
                &&& post.helper_states@ == pre.helper_states@.remove(key)
                &&& post.batch_view() == merge_fold(
                    pre.batch_view(),
                    tid,
                    st.part_batch_sel,
                    p,
                    recs,
                )
                &&& post.report_store == pre.report_store
                &&& post.tasks == pre.tasks
                &&& post.collect_jobs == pre.collect_jobs
                &&& post.current_batch == pre.current_batch
                &&& post.now == pre.now
                &&& post.global_config == pre.global_config
                &&& post.leader_token == pre.leader_token
                &&& post.collector_token == pre.collector_token
                &&& post.hpke_receiver_config_list == pre.hpke_receiver_config_list
                &&& post.collector_hpke_config == pre.collector_hpke_config
            },
        }
    }
}

impl InMemoryAggregator {
    /// The Helper's aggregate endpoint: an initialize request opens an
    /// aggregation job exactly once and answers one transition per
    /// report share; a continue request commits the job's output shares
    /// into the batch accounting store and discards the job state.
    pub fn http_post_aggregate(&mut self, req: &DapRequest<AggregateReq>) -> (r: Result<
        AggregateResp,
        DapAbort,
    >)
        requires
            old(self).wf(),
        ensures
            final(self).wf(),
            !old(self).leader_auth_ok(*req) ==> ((r matches Err(DapAbort::UnauthorizedRequest))
                && *final(self) == *old(self)),
            old(self).leader_auth_ok(*req) && !agg_media_ok(*req) ==> ((r matches Err(
                DapAbort::InvalidProtocolVersion,
            )) && *final(self) == *old(self)),
            req.payload matches AggregateReq::Init(init) ==> ((old(self).leader_auth_ok(*req)
                && agg_media_ok(*req)) ==> init_post(
                *old(self),
                *final(self),
                req.version,
                init,
                r,
            )),
            req.payload matches AggregateReq::Continue(cont) ==> ((old(self).leader_auth_ok(*req)
                && agg_media_ok(*req)) ==> cont_post(
                *old(self),
                *final(self),
                req.version,
                cont,
                r,
            )),
    {
        if !self.check_leader_auth(req) {
            return Err(DapAbort::UnauthorizedRequest);
        }
        match &req.payload {
            AggregateReq::Init(init) => {
                match req.media_type {
                    Some(DapMediaType::AggInitReq) => {},
                    _ => {
                        return Err(DapAbort::InvalidProtocolVersion);
                    },
                }
                self.handle_agg_init(req.version, init)
            },
            AggregateReq::Continue(cont) => {
                match req.media_type {
                    Some(DapMediaType::AggContReq) => {},
                    _ => {
                        return Err(DapAbort::InvalidProtocolVersion);
                    },
                }
                self.handle_agg_cont(req.version, cont)
            },
        }
    }

    /// Handles one initialize request; see `init_post` for what it does.
    pub fn handle_agg_init(
        &mut self,
        version: crate::base::DapVersion,
        init: &AggregateInitializeReq,
    ) -> (r: Result<AggregateResp, DapAbort>)
        requires
            old(self).wf(),
        ensures
            final(self).wf(),
            init_post(*old(self), *final(self), version, *init, r),
    {
        let tid = init.task_id;
        // Resolve the task: registered, or provisioned from the first
        // report share's extension.
        let (precision, expiration, qconf, provision): (
            u64,
            u64,
            DapQueryConfig,
            Option<DapTaskConfig>,
        ) = match self.get_task(&tid) {
            Some(t) => {
                if !version_eq(version, t.version) {
                    return Err(DapAbort::InvalidProtocolVersion);
                }
                (t.time_precision, t.expiration, t.query, None)
            },
            None => {
                let ext_opt: Option<&TaskprovConfig> = if init.report_shares.len() >= 1 && init.report_shares[0].metadata.extensions.len() >= 1 {
                    match &init.report_shares[0].metadata.extensions[0] {
                        crate::messages::Extension::Taskprov { config } => Some(config),
                    }
                } else {
                    None
                };
                match ext_opt {
                    None => {
                        return Err(DapAbort::UnrecognizedTask);
                    },
                    Some(ext) => {
                        match crate::taskprov::resolve_provision(
                            self.global_config.allow_taskprov,
                            version,
                            &self.collector_hpke_config,
                            ext,
                            &tid,
                        ) {
                            None => {
                                return Err(DapAbort::UnrecognizedTask);
                            },
                            Some(c) => (c.time_precision, c.expiration, c.query, Some(c)),
                        }
                    },
                }
            },
        };
        if !crate::task::check_query_matches_psel(&qconf, &init.part_batch_sel) {
            return Err(DapAbort::QueryMismatch);
        }
        let key = JobKey { task_id: tid, agg_job_id: init.agg_job_id };
        if self.helper_states.contains_key(&key) {
            return Err(DapAbort::bad_request(
                "unexpected message for aggregation job (already exists)",
            ));
        }
        let ghost pre = *old(self);
        let ghost processed0 = processed_of(pre.report_store@, tid@);
        let ghost shares = init.report_shares@;
        let ghost psel = init.part_batch_sel;
        let ghost list = pre.hpke_receiver_config_list@;
        let ghost batch = pre.batch_view();
        proof {
            assert(precision == pre.resolved_precision(*init));
            assert(expiration == pre.resolved_expiration(*init));
            assert(precision >= 1);
        }
        let mut store: ReportStore = match self.report_store.remove(&tid) {
            Some(s) => s,
            None => ReportStore { pending: Vec::new(), processed: IdSet::new() },
        };
        let mut entries: Vec<HelperStateEntry> = Vec::new();
        let mut transitions: Vec<Transition> = Vec::new();
        let mut i: usize = 0;
        while i < init.report_shares.len()
            invariant
                self.wf(),
                precision >= 1,
                i <= shares.len(),
                shares == init.report_shares@,
                psel == init.part_batch_sel,
                list == pre.hpke_receiver_config_list@,
                batch == pre.batch_view(),
                self.report_store@ == pre.report_store@.remove(tid@),
                self.tasks == pre.tasks,
                self.helper_states == pre.helper_states,
                self.agg_store == pre.agg_store,
                self.collect_jobs == pre.collect_jobs,
                self.current_batch == pre.current_batch,
                self.now == pre.now,
                self.global_config == pre.global_config,
                self.leader_token == pre.leader_token,
                self.collector_token == pre.collector_token,
                self.hpke_receiver_config_list == pre.hpke_receiver_config_list,
                self.collector_hpke_config == pre.collector_hpke_config,
                (pre.report_store@.contains_key(tid@) ==> store.pending
                    == pre.report_store@[tid@].pending),
                (!pre.report_store@.contains_key(tid@) ==> store.pending@.len() == 0),
                processed0 == processed_of(pre.report_store@, tid@),
                store.processed@ == init_fold(
                    precision,
                    expiration,
                    psel,
                    list,
                    batch,
                    tid@,
                    processed0,
                    shares.take(i as int),
                ).processed,
                entries_view(entries@) == init_fold(
                    precision,
                    expiration,
                    psel,
                    list,
                    batch,
                    tid@,
                    processed0,
                    shares.take(i as int),
                ).entries,
                transitions@.len() == i,
                init_fold(
                    precision,
                    expiration,
                    psel,
                    list,
                    batch,
                    tid@,
                    processed0,
                    shares.take(i as int),
                ).outcomes.len() == i,
                forall|j: int|
                    0 <= j < i ==> transition_reflects(
                        #[trigger] transitions@[j],
                        shares[j].metadata.id@,
                        init_fold(
                            precision,
                            expiration,
                            psel,
                            list,
                            batch,
                            tid@,
                            processed0,
                            shares.take(i as int),
                        ).outcomes[j],
                    ),
            decreases shares.len() - i,
        {
            let ghost fold_i = init_fold(
                precision,
                expiration,
                psel,
                list,
                batch,
                tid@,
                processed0,
                shares.take(i as int),
            );
            let share = &init.report_shares[i];
            let oc: Result<u64, TransitionFailure> = if share.metadata.time >= expiration {
                Err(TransitionFailure::TaskExpired)
            } else if store.processed.contains(&share.metadata.id.bytes) {
                Err(TransitionFailure::ReportReplayed)
            } else {
                let b = bucket_for(&init.part_batch_sel, precision, share.metadata.time);
                let bkey = TaskBucketKey { task_id: tid, bucket: b };
                let coll = match self.agg_store.get(&bkey) {
                    Some(st) => st.collected,
                    None => false,
                };
                if coll {
                    Err(TransitionFailure::BatchCollected)
                } else {
                    match self.decrypt_share(&share.encrypted_input_share) {
                        Err(f) => Err(f),
                        Ok(plain) => crate::scheme::consume_share(&plain),
                    }
                }
            };
            proof {
                assert(oc == share_outcome(
                    precision,
                    expiration,
                    psel,
                    list,
                    batch,
                    tid@,
                    fold_i.processed,
                    shares[i as int],
                ));
                assert(shares.take(i as int + 1).drop_last() =~= shares.take(i as int));
                assert(shares.take(i as int + 1).last() == shares[i as int]);
            }
            match oc {
                Ok(v) => {
                    store.processed.insert(share.metadata.id.bytes);
                    entries.push(
                        HelperStateEntry {
                            report_id: share.metadata.id,
                            time: share.metadata.time,
                            out_share: v,
                        },
                    );
                    transitions.push(
                        Transition {
                            report_id: share.metadata.id,
                            var: TransitionVar::Continued(Vec::new()),
                        },
                    );
                    proof {
                        assert(entries_view(entries@) =~= fold_i.entries.push(
                            OutRec {
                                report_id: shares[i as int].metadata.id@,
                                time: shares[i as int].metadata.time,
                                value: v,
                            },
                        ));
                    }
                },
                Err(f) => {
                    transitions.push(
                        Transition { report_id: share.metadata.id, var: TransitionVar::Failed(f) },
                    );
                },
            }
            i += 1;
        }
        proof {
            assert(shares.take(shares.len() as int) =~= shares);
        }
        self.report_store.set(&tid, store);
        let st = HelperState { part_batch_sel: init.part_batch_sel, entries };
        self.helper_states.set(&key, st);
        match provision {
            Some(c) => {
                self.tasks.set(&tid, c);
            },
            None => {},
        }
        proof {
            assert(self.report_store@ =~= pre.report_store@.insert(
                tid@,
                self.report_store@[tid@],
            ));
            assert(self.wf()) by {
                assert(forall|k: Seq<u8>|
                    #[trigger] self.tasks@.contains_key(k) ==> self.tasks@[k].wf());
            }
        }
        Ok(AggregateResp { transitions })
    }
}

/// Compares two protocol versions.
pub fn version_eq(a: crate::base::DapVersion, b: crate::base::DapVersion) -> (r: bool)
    ensures
        r == (a == b),
{
    a == b
}

/// The value an accumulated share encrypts to the Collector: the
/// combined share material, zero before any merge.
pub open spec fn share_value(sv: ShareView) -> u64 {
    match sv.data {
        Some(v) => v,
        None => 0,
    }
}

/// What an authorized, well-typed aggregate-share request does to a
/// Helper: the gates in order, then the encrypted share and the batch
/// marked collected.
pub open spec fn agg_share_post(
    pre: InMemoryAggregator,
    post: InMemoryAggregator,
    version: crate::base::DapVersion,
    asr: AggregateShareReq,
    r: Result<AggregateShareResp, DapAbort>,
) -> bool {
    let tid = asr.task_id@;
    if !pre.tasks@.contains_key(tid) {
        r matches Err(DapAbort::UnrecognizedTask) && post == pre
    } else if pre.tasks@[tid].version != version {
        r matches Err(DapAbort::InvalidProtocolVersion) && post == pre
    } else {
        let task = pre.tasks@[tid];
        let p = task.time_precision;
        if !query_matches_sel(task.query, asr.batch_sel) {
            r matches Err(DapAbort::QueryMismatch) && post == pre
        } else if (asr.batch_sel matches crate::messages::BatchSelector::TimeInterval {
            batch_interval,
        } && !interval_aligned(batch_interval, p)) {
            r matches Err(DapAbort::BatchInvalid) && post == pre
        } else if (asr.batch_sel matches crate::messages::BatchSelector::FixedSizeByBatchId {
            batch_id,
        } && !pre.batch_view().contains_key(
            (tid, crate::task::BucketKeyView::FixedSizeByBatchId { batch_id: batch_id@ }),
        )) {
            r matches Err(DapAbort::BatchInvalid) && post == pre
        } else if sel_overlaps_collected(pre.batch_view(), tid, asr.batch_sel, p) {
            r matches Err(DapAbort::BatchOverlap) && post == pre
        } else {
            let sv = sel_share_view(pre.batch_view(), tid, asr.batch_sel, p);
            &&& r matches Ok(resp) && encrypted_share_of(
                task.collector_hpke_config,
                share_value(sv),
                resp.encrypted_agg_share,
            )
            &&& post.batch_view() == crate::batch::mark_view(pre.batch_view(), tid, asr.batch_sel, p)
            &&& post.same_but_agg_store(pre)
        }
    }
}

impl InMemoryAggregator {
    /// The Helper's aggregate-share exchange: validates the batch
    /// selector, answers the accumulated share encrypted to the
    /// Collector, and marks the batch collected so that it can be
    /// answered exactly once.
    pub fn http_post_aggregate_share(&mut self, req: &DapRequest<AggregateShareReq>) -> (r: Result<
        AggregateShareResp,
        DapAbort,
    >)
        requires
            old(self).wf(),
        ensures
            final(self).wf(),
            !old(self).leader_auth_ok(*req) ==> ((r matches Err(DapAbort::UnauthorizedRequest))
                && *final(self) == *old(self)),
            old(self).leader_auth_ok(*req) && req.media_type != Some(DapMediaType::AggShareReq)
                ==> ((r matches Err(DapAbort::InvalidProtocolVersion)) && *final(self) == *old(
                self,
            )),
            (old(self).leader_auth_ok(*req) && req.media_type == Some(DapMediaType::AggShareReq))
                ==> agg_share_post(*old(self), *final(self), req.version, req.payload, r),
    {
        if !self.check_leader_auth(req) {
            return Err(DapAbort::UnauthorizedRequest);
        }
        match req.media_type {
            Some(DapMediaType::AggShareReq) => {},
            _ => {
                return Err(DapAbort::InvalidProtocolVersion);
            },
        }
        let asr = &req.payload;
        let tid = asr.task_id;
        let (precision, resp) = match self.get_task(&tid) {
            None => {
                return Err(DapAbort::UnrecognizedTask);
            },
            Some(t) => {
                if !version_eq(req.version, t.version) {
                    return Err(DapAbort::InvalidProtocolVersion);
                }
                if !crate::task::check_query_matches_sel(&t.query, &asr.batch_sel) {
                    return Err(DapAbort::QueryMismatch);
                }
                match &asr.batch_sel {
                    crate::messages::BatchSelector::TimeInterval { batch_interval } => {
                        let aligned = batch_interval.start % t.time_precision == 0
                            && batch_interval.duration % t.time_precision == 0
                            && batch_interval.duration >= t.time_precision && batch_interval.start
                            <= u64::MAX - batch_interval.duration;
                        if !aligned {
                            return Err(DapAbort::BatchInvalid);
                        }
                    },
                    crate::messages::BatchSelector::FixedSizeByBatchId { batch_id } => {
                        let bkey = TaskBucketKey {
                            task_id: tid,
                            bucket: crate::task::BucketKey::FixedSizeByBatchId {
                                batch_id: *batch_id,
                            },
                        };
                        if !self.agg_store.contains_key(&bkey) {
                            return Err(DapAbort::BatchInvalid);
                        }
                    },
                }
                if self.is_overlapping(&tid, &asr.batch_sel, t.time_precision) {
                    return Err(DapAbort::BatchOverlap);
                }
                let share = self.get_agg_share(&tid, &asr.batch_sel, t.time_precision);
                let value: u64 = match share.data {
                    Some(v) => v,
                    None => 0,
                };
                let ct = crate::scheme::encrypt_share(&t.collector_hpke_config, value);
                (t.time_precision, AggregateShareResp { encrypted_agg_share: ct })
            },
        };
        self.mark_collected(&tid, &asr.batch_sel, precision);
        Ok(resp)
    }
}

impl InMemoryAggregator {
    /// Handles one continue request; see `cont_post` for what it does.
    pub fn handle_agg_cont(
        &mut self,
        version: crate::base::DapVersion,
        cont: &crate::messages::AggregateContinueReq,
    ) -> (r: Result<AggregateResp, DapAbort>)
        requires
            old(self).wf(),
        ensures
            final(self).wf(),
            cont_post(*old(self), *final(self), version, *cont, r),
    {
        let tid = cont.task_id;
        let precision: u64 = match self.get_task(&tid) {
            Some(t) => {
                if !version_eq(version, t.version) {
                    return Err(DapAbort::InvalidProtocolVersion);
                }
                t.time_precision
            },
            None => {
                return Err(DapAbort::UnrecognizedTask);
            },
        };
        let key = JobKey { task_id: tid, agg_job_id: cont.agg_job_id };
        let ghost pre = *old(self);
        let (psel, merged): (PartialBatchSelector, Vec<HelperStateEntry>) = match self
            .helper_states
            .get(&key) {
            None => {
                return Err(DapAbort::UnrecognizedAggregationJob);
            },
            Some(st) => {
                let ghost ev = entries_view(st.entries@);
                let ghost ts = cont.transitions@;
                let mut merged: Vec<HelperStateEntry> = Vec::new();
                let mut j: usize = 0;
                while j < cont.transitions.len()
                    invariant
                        j <= ts.len(),
                        *self == pre,
                        pre == *old(self),
                        self.wf(),
                        tid@ == cont.task_id@,
                        pre.tasks@.contains_key(tid@),
                        pre.tasks@[tid@].version == version,
                        precision == pre.tasks@[tid@].time_precision,
                        pre.helper_states@.contains_key((tid@, cont.agg_job_id@)),
                        *st == pre.helper_states@[(tid@, cont.agg_job_id@)],
                        ts == cont.transitions@,
                        ev == entries_view(st.entries@),
                        cont_fold(ev, ts.take(j as int)) == Some(entries_view(merged@)),
                    decreases ts.len() - j,
                {
                    let t = &cont.transitions[j];
                    proof {
                        assert(ts.take(j as int + 1).drop_last() =~= ts.take(j as int));
                        assert(ts.take(j as int + 1).last() == ts[j as int]);
                    }
                    match &t.var {
                        TransitionVar::Continued(_) => {
                            match find_entry(&st.entries, &t.report_id) {
                                None => {
                                    proof {
                                        lemma_cont_fold_none(ev, ts, j as int + 1);
                                    }
                                    return Err(DapAbort::UnrecognizedMessage);
                                },
                                Some(e) => {
                                    if recs_contain(&merged, &t.report_id) {
                                        proof {
                                            lemma_cont_fold_none(ev, ts, j as int + 1);
                                        }
                                        return Err(DapAbort::UnrecognizedMessage);
                                    }
                                    let ghost mv = entries_view(merged@);
                                    merged.push(e);
                                    proof {
                                        assert(entries_view(merged@) =~= mv.push(e@));
                                    }
                                },
                            }
                        },
                        TransitionVar::Failed(_) => {},
                        TransitionVar::Finished => {
                            proof {
                                lemma_cont_fold_none(ev, ts, j as int + 1);
                            }
                            return Err(DapAbort::UnrecognizedMessage);
                        },
                    }
                    j += 1;
                }
                proof {
                    assert(ts.take(ts.len() as int) =~= ts);
                }
                (st.part_batch_sel, merged)
            },
        };
        if !self.buckets_uncollected(&tid, &psel, precision, &merged) {
            return Err(DapAbort::bad_request(
                "aggregate share merged into a collected batch bucket",
            ));
        }
        let removed = self.helper_states.remove(&key);
        let mr = self.merge_out_shares(&tid, &psel, precision, &merged);
        match mr {
            Err(e) => {
                // Unreachable: no target bucket is collected, so the
                // merge succeeds.
                proof {
                    assert(false);
                }
                Err(e)
            },
            Ok(()) => {
                let mut out: Vec<Transition> = Vec::new();
                let mut j: usize = 0;
                while j < merged.len()
                    invariant
                        j <= merged@.len(),
                        out@.len() == j,
                        forall|k: int|
                            0 <= k < j ==> (#[trigger] out@[k]).report_id@
                                == entries_view(merged@)[k].report_id && out@[k].var matches
                                TransitionVar::Finished,
                    decreases merged@.len() - j,
                {
                    out.push(
                        Transition { report_id: merged[j].report_id, var: TransitionVar::Finished },
                    );
                    j += 1;
                }
                Ok(AggregateResp { transitions: out })
            },
        }
    }
}

} // verus!
