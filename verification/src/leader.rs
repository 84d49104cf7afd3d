//! The Leader's endpoints: report ingestion, the report drain feeding
//! aggregation jobs, the Leader's side of the aggregation protocol, and
//! the collect-job lifecycle from submission through polling.

use vstd::prelude::*;
use vstd::string::StringExecFns;
use crate::aggregator::{CollectJobEntry, CollectJobState, InMemoryAggregator, ReportStore};
use crate::base::{is_bad_request, reason_unknown_collect_job, DapAbort, DapMediaType,
    TransitionFailure};
use crate::batch::{entries_view, HelperStateEntry, OutRec};
use crate::helper::{
    cont_fold, decrypt_share_view, find_rec, processed_of, rec_ids_contain, taskprov_ext_of,
    version_eq, DecryptOutcome,
};
use crate::hpke::HpkeReceiverConfig;
use crate::messages::{
    AggregateContinueReq, AggregateInitializeReq, AggregateResp, BatchSelector, CollectReq,
    CollectResp, DapCollectJob, DapRequest, HpkeCiphertext, Id, PartialBatchSelector, Query,
    Report, ReportShare, Transition, TransitionVar,
};
use crate::scheme::consume_share_view;
use crate::storage::IdSet;
use crate::task::{
    check_batch_interval, interval_aligned, query_matches_query, BucketKey, BucketKeyView,
    DapQueryConfig, DapTaskConfig, TaskBucketKey,
};
use crate::taskprov::{can_provision, provisioned_matches, TaskprovConfig};

verus! {

/// What an upload does to the Leader: the gates in order, then the
/// report appended to the task's pending queue.
pub open spec fn upload_post(
    pre: InMemoryAggregator,
    post: InMemoryAggregator,
    req: DapRequest<Report>,
    r: Result<(), DapAbort>,
) -> bool {
    let report = req.payload;
    let tid = report.task_id@;
    let known = pre.tasks@.contains_key(tid);
    let ext = taskprov_ext_of(report.metadata);
    let provision_ok = ext matches Some(e) && can_provision(
        pre.global_config.allow_taskprov,
        e,
        tid,
    );
    let expiration = if known {
        pre.tasks@[tid].expiration
    } else {
        ext->Some_0.task_expiration
    };
    if req.media_type != Some(DapMediaType::Report) {
        r matches Err(DapAbort::InvalidProtocolVersion) && post == pre
    } else if !known && !provision_ok {
        r matches Err(DapAbort::UnrecognizedTask) && post == pre
    } else if known && pre.tasks@[tid].version != req.version {
        r matches Err(DapAbort::InvalidProtocolVersion) && post == pre
    } else if report.encrypted_input_shares@.len() != 2 {
        r matches Err(DapAbort::UnrecognizedMessage) && post == pre
    } else if report.metadata.time >= expiration {
        r matches Err(DapAbort::ReportTooLate) && post == pre
    } else {
        &&& r is Ok
        &&& post.report_store@.contains_key(tid)
        &&& post.report_store@[tid].pending@ == (if pre.report_store@.contains_key(tid) {
            pre.report_store@[tid].pending@
        } else {
            Seq::<Report>::empty()
        }).push(report)
        &&& post.report_store@[tid].processed@ == processed_of(pre.report_store@, tid)
        &&& post.report_store@ == pre.report_store@.insert(tid, post.report_store@[tid])
        &&& (if known {
            post.tasks == pre.tasks
        } else {
            &&& post.tasks@.contains_key(tid)
            &&& provisioned_matches(post.tasks@[tid], ext->Some_0, req.version, pre.collector_hpke_config)
            &&& post.tasks@ == pre.tasks@.insert(tid, post.tasks@[tid])
        })
        &&& post.helper_states == pre.helper_states
        &&& post.agg_store == pre.agg_store
        &&& post.collect_jobs == pre.collect_jobs
        &&& post.current_batch == pre.current_batch
        &&& post.now == pre.now
        &&& post.global_config == pre.global_config
        &&& post.leader_token == pre.leader_token
        &&& post.collector_token == pre.collector_token
        &&& post.hpke_receiver_config_list == pre.hpke_receiver_config_list
        &&& post.collector_hpke_config == pre.collector_hpke_config
    }
}

impl InMemoryAggregator {
    /// The Leader's upload endpoint: validates the report against its
    /// task, provisioning the task from the report's extension when the
    /// identifier is unknown, and appends it to the pending queue.
    pub fn http_post_upload(&mut self, req: DapRequest<Report>) -> (r: Result<(), DapAbort>)
        requires
            old(self).wf(),
        ensures
            final(self).wf(),
            upload_post(*old(self), *final(self), req, r),
    {
        match req.media_type {
            Some(DapMediaType::Report) => {},
            _ => {
                return Err(DapAbort::InvalidProtocolVersion);
            },
        }
        let report = req.payload;
        let tid = report.task_id;
        let (expiration, provision): (u64, Option<DapTaskConfig>) = match self.get_task(&tid) {
            Some(t) => {
                if !version_eq(req.version, t.version) {
                    return Err(DapAbort::InvalidProtocolVersion);
                }
                (t.expiration, None)
            },
            None => {
                let ext_opt: Option<&TaskprovConfig> = if report.metadata.extensions.len() >= 1 {
                    match &report.metadata.extensions[0] {
                        crate::messages::Extension::Taskprov { config } => Some(config),
                    }
                } else {
                    None
                };
                match ext_opt {
                    None => {
                        return Err(DapAbort::UnrecognizedTask);
                    },
                    Some(ext) => {
                        match crate::taskprov::resolve_provision(
                            self.global_config.allow_taskprov,
                            req.version,
                            &self.collector_hpke_config,
                            ext,
                            &tid,
                        ) {
                            None => {
                                return Err(DapAbort::UnrecognizedTask);
                            },
                            Some(c) => (c.expiration, Some(c)),
                        }
                    },
                }
            },
        };
        if report.encrypted_input_shares.len() != 2 {
            return Err(DapAbort::UnrecognizedMessage);
        }
        if report.metadata.time >= expiration {
            return Err(DapAbort::ReportTooLate);
        }
        let ghost pre = *old(self);
        let mut store: ReportStore = match self.report_store.remove(&tid) {
            Some(s) => s,
            None => ReportStore { pending: Vec::new(), processed: IdSet::new() },
        };
        store.pending.push(report);
        self.report_store.set(&tid, store);
        match provision {
            Some(c) => {
                self.tasks.set(&tid, c);
            },
            None => {},
        }
        proof {
            assert(self.report_store@ =~= pre.report_store@.insert(
                tid@,
                self.report_store@[tid@],
            ));
            assert(self.wf()) by {
                assert(forall|k: Seq<u8>|
                    #[trigger] self.tasks@.contains_key(k) ==> self.tasks@[k].wf());
            }
        }
        Ok(())
    }

    /// Drains and returns the task's queued reports, with the batch hint
    /// they will be aggregated under: the time-interval marker, or the
    /// task's current fixed-size batch, opened here when none is open.
    pub fn get_reports(&mut self, task_id: &Id) -> (r: Result<
        (PartialBatchSelector, Vec<Report>),
        DapAbort,
    >)
        requires
            old(self).wf(),
        ensures
            final(self).wf(),
            !old(self).tasks@.contains_key(task_id@) ==> ((r matches Err(
                DapAbort::UnrecognizedTask,
            )) && *final(self) == *old(self)),
            old(self).tasks@.contains_key(task_id@) ==> (r matches Ok(pair) && {
                let (psel, reports) = pair;
                &&& reports@ == (if old(self).report_store@.contains_key(task_id@) {
                    old(self).report_store@[task_id@].pending@
                } else {
                    Seq::<Report>::empty()
                })
                &&& final(self).report_store@.contains_key(task_id@)
                &&& final(self).report_store@[task_id@].pending@.len() == 0
                &&& final(self).report_store@[task_id@].processed@ == processed_of(
                    old(self).report_store@,
                    task_id@,
                )
                &&& final(self).report_store@ == old(self).report_store@.insert(
                    task_id@,
                    final(self).report_store@[task_id@],
                )
                &&& crate::task::query_matches_psel(old(self).tasks@[task_id@].query, psel)
                &&& (old(self).tasks@[task_id@].query matches DapQueryConfig::TimeInterval
                    ==> final(self).current_batch == old(self).current_batch)
                &&& (old(self).tasks@[task_id@].query matches DapQueryConfig::FixedSize { .. }
                    ==> (psel matches PartialBatchSelector::FixedSizeByBatchId { batch_id } && {
                    &&& final(self).current_batch@.contains_key(task_id@)
                    &&& batch_id@ == final(self).current_batch@[task_id@]@
                    &&& final(self).current_batch@ == old(self).current_batch@.insert(
                        task_id@,
                        final(self).current_batch@[task_id@],
                    )
                    &&& (old(self).current_batch@.contains_key(task_id@) ==> final(self).current_batch@[task_id@]
                        == old(self).current_batch@[task_id@])
                }))
                &&& final(self).tasks == old(self).tasks
                &&& final(self).helper_states == old(self).helper_states
                &&& final(self).agg_store == old(self).agg_store
                &&& final(self).collect_jobs == old(self).collect_jobs
                &&& final(self).now == old(self).now
                &&& final(self).global_config == old(self).global_config
                &&& final(self).leader_token == old(self).leader_token
                &&& final(self).collector_token == old(self).collector_token
                &&& final(self).hpke_receiver_config_list == old(self).hpke_receiver_config_list
                &&& final(self).collector_hpke_config == old(self).collector_hpke_config
            }),
    {
        let is_fixed: bool = match self.get_task(task_id) {
            None => {
                return Err(DapAbort::UnrecognizedTask);
            },
            Some(t) => match t.query {
                DapQueryConfig::TimeInterval => false,
                DapQueryConfig::FixedSize { .. } => true,
            },
        };
        let psel: PartialBatchSelector = if is_fixed {
            let bid: Id = match self.current_batch.get(task_id) {
                Some(b) => *b,
                None => {
                    let fresh = crate::rng::random_id();
                    self.current_batch.set(task_id, fresh);
                    fresh
                },
            };
            PartialBatchSelector::FixedSizeByBatchId { batch_id: bid }
        } else {
            PartialBatchSelector::TimeInterval
        };
        let ghost pre = *old(self);
        let store: ReportStore = match self.report_store.remove(task_id) {
            Some(s) => s,
            None => ReportStore { pending: Vec::new(), processed: IdSet::new() },
        };
        let reports: Vec<Report> = store.pending;
        self.report_store.set(
            task_id,
            ReportStore { pending: Vec::new(), processed: store.processed },
        );
        proof {
            assert(self.report_store@ =~= pre.report_store@.insert(
                task_id@,
                self.report_store@[task_id@],
            ));
        }
        Ok((psel, reports))
    }

    /// The task's current fixed-size batch, if one is open.
    pub fn current_batch_id(&self, task_id: &Id) -> (r: Option<Id>)
        requires
            self.wf(),
        ensures
            match r {
                Some(b) => self.current_batch@.contains_key(task_id@) && b
                    == self.current_batch@[task_id@],
                None => !self.current_batch@.contains_key(task_id@),
            },
    {
        match self.current_batch.get(task_id) {
            Some(b) => Some(*b),
            None => None,
        }
    }
}

/// The running state of the Leader's initialization step: one stored
/// output share and one forwarded report share per report whose own
/// share the Leader could consume; the rest are dropped.
pub ghost struct LeaderAccum {
    pub entries: Seq<OutRec>,
    pub rshares: Seq<ReportShare>,
}

/// What the Leader makes of one report: the value of its own input
/// share, or the failure that drops the report from the job.
pub open spec fn leader_share_outcome(list: Seq<HpkeReceiverConfig>, report: Report) -> Result<
    u64,
    TransitionFailure,
> {
    if report.encrypted_input_shares@.len() != 2 {
        Err(TransitionFailure::VdafPrepError)
    } else {
        match decrypt_share_view(list, report.encrypted_input_shares@[0]) {
            DecryptOutcome::UnknownConfig => Err(TransitionFailure::HpkeUnknownConfigId),
            DecryptOutcome::Fail => Err(TransitionFailure::HpkeDecryptError),
            DecryptOutcome::Plain(p) => consume_share_view(p),
        }
    }
}

/// The Leader's initialization folded over the drained reports in order.
pub open spec fn leader_fold(list: Seq<HpkeReceiverConfig>, reports: Seq<Report>) -> LeaderAccum
    decreases reports.len(),
{
    if reports.len() == 0 {
        LeaderAccum { entries: Seq::empty(), rshares: Seq::empty() }
    } else {
        let prev = leader_fold(list, reports.drop_last());
        let rep = reports.last();
        match leader_share_outcome(list, rep) {
            Ok(v) => LeaderAccum {
                entries: prev.entries.push(
                    OutRec { report_id: rep.metadata.id@, time: rep.metadata.time, value: v },
                ),
                rshares: prev.rshares.push(
                    ReportShare {
                        metadata: rep.metadata,
                        public_share: rep.public_share,
                        encrypted_input_share: rep.encrypted_input_shares@[1],
                    },
                ),
            },
            Err(_) => prev,
        }
    }
}

/// The fold the continue step of the Leader derives from helper-reported
/// transitions: see `cont_fold`; a `Finished` transition at this stage is
/// unexpected.
pub open spec fn final_fold(entries: Seq<OutRec>, transitions: Seq<Transition>) -> Option<
    Seq<OutRec>,
>
    decreases transitions.len(),
{
    if transitions.len() == 0 {
        Some(Seq::empty())
    } else {
        match final_fold(entries, transitions.drop_last()) {
            None => None,
            Some(prev) => {
                let t = transitions.last();
                match t.var {
                    TransitionVar::Finished => match find_rec(entries, t.report_id@) {
                        None => None,
                        Some(rec) => if rec_ids_contain(prev, t.report_id@) {
                            None
                        } else {
                            Some(prev.push(rec))
                        },
                    },
                    TransitionVar::Failed(_) => Some(prev),
                    TransitionVar::Continued(_) => None,
                }
            },
        }
    }
}

/// A rejection anywhere in the final fold rejects the whole response.
pub proof fn lemma_final_fold_none(entries: Seq<OutRec>, ts: Seq<Transition>, j: int)
    requires
        0 <= j <= ts.len(),
        final_fold(entries, ts.take(j)) is None,
    ensures
        final_fold(entries, ts) is None,
    decreases ts.len() - j,
{
    if j < ts.len() {
        assert(ts.take(j + 1).drop_last() =~= ts.take(j));
        assert(final_fold(entries, ts.take(j + 1)) is None);
        lemma_final_fold_none(entries, ts, j + 1);
    } else {
        assert(ts.take(j) =~= ts);
    }
}

impl InMemoryAggregator {
    /// The Leader's initialization step: consumes its own input share of
    /// each drained report and builds the initialize request forwarding
    /// each consumable report's other share to the Helper. Reports whose
    /// share cannot be consumed are dropped from the job.
    pub fn produce_agg_init_req(
        &self,
        task_id: Id,
        agg_job_id: Id,
        psel: &PartialBatchSelector,
        reports: Vec<Report>,
    ) -> (r: (Vec<HelperStateEntry>, AggregateInitializeReq))
        requires
            self.wf(),
        ensures
            entries_view(r.0@) == leader_fold(self.hpke_receiver_config_list@, reports@).entries,
            r.1.task_id == task_id,
            r.1.agg_job_id == agg_job_id,
            r.1.agg_param@.len() == 0,
            r.1.part_batch_sel == *psel,
            r.1.report_shares@ == leader_fold(self.hpke_receiver_config_list@, reports@).rshares,
    {
        let ghost orig = reports@;
        let ghost list = self.hpke_receiver_config_list@;
        let mut reports = reports;
        let mut state: Vec<HelperStateEntry> = Vec::new();
        let mut rshares: Vec<ReportShare> = Vec::new();
        let ghost mut i: int = 0;
        while reports.len() > 0
            invariant
                self.wf(),
                list == self.hpke_receiver_config_list@,
                0 <= i <= orig.len(),
                reports@ == orig.skip(i),
                entries_view(state@) == leader_fold(list, orig.take(i)).entries,
                rshares@ == leader_fold(list, orig.take(i)).rshares,
            decreases reports@.len(),
        {
            let rep = reports.remove(0);
            proof {
                assert(rep == orig[i]);
                assert(reports@ =~= orig.skip(i + 1));
                assert(orig.take(i + 1).drop_last() =~= orig.take(i));
                assert(orig.take(i + 1).last() == orig[i]);
            }
            let ghost prev_entries = entries_view(state@);
            let oc: Result<u64, TransitionFailure> = if rep.encrypted_input_shares.len() != 2 {
                Err(TransitionFailure::VdafPrepError)
            } else {
                match self.decrypt_share(&rep.encrypted_input_shares[0]) {
                    Err(f) => Err(f),
                    Ok(p) => crate::scheme::consume_share(&p),
                }
            };
            proof {
                assert(oc == leader_share_outcome(list, rep));
            }
            match oc {
                Ok(v) => {
                    state.push(
                        HelperStateEntry {
                            report_id: rep.metadata.id,
                            time: rep.metadata.time,
                            out_share: v,
                        },
                    );
                    let mut shares = rep.encrypted_input_shares;
                    let ct1 = shares.remove(1);
                    rshares.push(
                        ReportShare {
                            metadata: rep.metadata,
                            public_share: rep.public_share,
                            encrypted_input_share: ct1,
                        },
                    );
                    proof {
                        assert(entries_view(state@) =~= prev_entries.push(
                            OutRec {
                                report_id: orig[i].metadata.id@,
                                time: orig[i].metadata.time,
                                value: v,
                            },
                        ));
                    }
                },
                Err(_) => {},
            }
            proof {
                i = i + 1;
            }
        }
        proof {
            assert(orig.take(orig.len() as int) =~= orig);
        }
        let init = AggregateInitializeReq {
            task_id,
            agg_job_id,
            agg_param: Vec::new(),
            part_batch_sel: *psel,
            report_shares: rshares,
        };
        (state, init)
    }

    /// Commits a finished job's output shares into the Leader's batch
    /// accounting store.
    pub fn put_out_shares(
        &mut self,
        task_id: &Id,
        psel: &PartialBatchSelector,
        out_shares: &Vec<HelperStateEntry>,
    ) -> (r: Result<(), DapAbort>)
        requires
            old(self).wf(),
        ensures
            final(self).wf(),
            final(self).same_but_agg_store(*old(self)),
            !old(self).tasks@.contains_key(task_id@) ==> ((r matches Err(
                DapAbort::UnrecognizedTask,
            )) && final(self).agg_store == old(self).agg_store),
            old(self).tasks@.contains_key(task_id@) ==> {
                let p = old(self).tasks@[task_id@].time_precision;
                if crate::batch::any_bucket_collected(
                    old(self).batch_view(),
                    task_id@,
                    *psel,
                    p,
                    entries_view(out_shares@),
                ) {
                    is_bad_request(r, crate::base::reason_bucket_collected())
                        && final(self).agg_store == old(self).agg_store
                } else {
                    r is Ok && final(self).batch_view() == crate::batch::merge_fold(
                        old(self).batch_view(),
                        task_id@,
                        *psel,
                        p,
                        entries_view(out_shares@),
                    )
                }
            },
    {
        let precision: u64 = match self.get_task(task_id) {
            None => {
                return Err(DapAbort::UnrecognizedTask);
            },
            Some(t) => t.time_precision,
        };
        self.merge_out_shares(task_id, psel, precision, out_shares)
    }
}

/// The Leader's handling of the Helper's initialize response: each
/// continued transition keeps the matching stored output share and is
/// answered in the continue request; a failed one drops its report; an
/// unknown or repeated report, or a finished transition this early,
/// rejects the response.
pub fn handle_agg_resp(
    task_id: Id,
    agg_job_id: Id,
    state: &Vec<HelperStateEntry>,
    resp: &AggregateResp,
) -> (r: Result<(Vec<HelperStateEntry>, AggregateContinueReq), DapAbort>)
    ensures
        match cont_fold(entries_view(state@), resp.transitions@) {
            None => r matches Err(DapAbort::UnrecognizedMessage),
            Some(recs) => r matches Ok(pair) && {
                &&& entries_view(pair.0@) == recs
                &&& pair.1.task_id == task_id
                &&& pair.1.agg_job_id == agg_job_id
                &&& pair.1.transitions@.len() == recs.len()
                &&& forall|j: int|
                    0 <= j < recs.len() ==> (#[trigger] pair.1.transitions@[j]).report_id@
                        == recs[j].report_id && (pair.1.transitions@[j].var matches
                        TransitionVar::Continued(m) && m@.len() == 0)
            },
        },
{
    let ghost ev = entries_view(state@);
    let ghost ts = resp.transitions@;
    let mut merged: Vec<HelperStateEntry> = Vec::new();
    let mut out: Vec<Transition> = Vec::new();
    let mut j: usize = 0;
    while j < resp.transitions.len()
        invariant
            j <= ts.len(),
            ts == resp.transitions@,
            ev == entries_view(state@),
            cont_fold(ev, ts.take(j as int)) == Some(entries_view(merged@)),
            out@.len() == entries_view(merged@).len(),
            forall|k: int|
                0 <= k < out@.len() ==> (#[trigger] out@[k]).report_id@
                    == entries_view(merged@)[k].report_id && (out@[k].var matches
                    TransitionVar::Continued(m) && m@.len() == 0),
        decreases ts.len() - j,
    {
        let t = &resp.transitions[j];
        proof {
            assert(ts.take(j as int + 1).drop_last() =~= ts.take(j as int));
            assert(ts.take(j as int + 1).last() == ts[j as int]);
        }
        match &t.var {
            TransitionVar::Continued(_) => {
                match crate::helper::find_entry(state, &t.report_id) {
                    None => {
                        proof {
                            crate::helper::lemma_cont_fold_none(ev, ts, j as int + 1);
                        }
                        return Err(DapAbort::UnrecognizedMessage);
                    },
                    Some(e) => {
                        if crate::helper::recs_contain(&merged, &t.report_id) {
                            proof {
                                crate::helper::lemma_cont_fold_none(ev, ts, j as int + 1);
                            }
                            return Err(DapAbort::UnrecognizedMessage);
                        }
                        let ghost mv = entries_view(merged@);
                        merged.push(e);
                        out.push(
                            Transition {
                                report_id: e.report_id,
                                var: TransitionVar::Continued(Vec::new()),
                            },
                        );
                        proof {
                            assert(entries_view(merged@) =~= mv.push(e@));
                        }
                    },
                }
            },
            TransitionVar::Failed(_) => {},
            TransitionVar::Finished => {
                proof {
                    crate::helper::lemma_cont_fold_none(ev, ts, j as int + 1);
                }
                return Err(DapAbort::UnrecognizedMessage);
            },
        }
        j += 1;
    }
    proof {
        assert(ts.take(ts.len() as int) =~= ts);
    }
    let cont = AggregateContinueReq { task_id, agg_job_id, transitions: out };
    Ok((merged, cont))
}

/// The Leader's handling of the Helper's final response: each finished
/// transition commits the matching uncommitted output share; a failed
/// one drops its report; an unknown or repeated report, or a continued
/// transition this late, rejects the response.
pub fn handle_final_agg_resp(uncommitted: &Vec<HelperStateEntry>, resp: &AggregateResp) -> (r:
    Result<Vec<HelperStateEntry>, DapAbort>)
    ensures
        match final_fold(entries_view(uncommitted@), resp.transitions@) {
            None => r matches Err(DapAbort::UnrecognizedMessage),
            Some(recs) => r matches Ok(v) && entries_view(v@) == recs,
        },
{
    let ghost ev = entries_view(uncommitted@);
    let ghost ts = resp.transitions@;
    let mut merged: Vec<HelperStateEntry> = Vec::new();
    let mut j: usize = 0;
    while j < resp.transitions.len()
        invariant
            j <= ts.len(),
            ts == resp.transitions@,
            ev == entries_view(uncommitted@),
            final_fold(ev, ts.take(j as int)) == Some(entries_view(merged@)),
        decreases ts.len() - j,
    {
        let t = &resp.transitions[j];
        proof {
            assert(ts.take(j as int + 1).drop_last() =~= ts.take(j as int));
            assert(ts.take(j as int + 1).last() == ts[j as int]);
        }
        match &t.var {
            TransitionVar::Finished => {
                match crate::helper::find_entry(uncommitted, &t.report_id) {
                    None => {
                        proof {
                            lemma_final_fold_none(ev, ts, j as int + 1);
                        }
                        return Err(DapAbort::UnrecognizedMessage);
                    },
                    Some(e) => {
                        if crate::helper::recs_contain(&merged, &t.report_id) {
                            proof {
                                lemma_final_fold_none(ev, ts, j as int + 1);
                            }
                            return Err(DapAbort::UnrecognizedMessage);
                        }
                        let ghost mv = entries_view(merged@);
                        merged.push(e);
                        proof {
                            assert(entries_view(merged@) =~= mv.push(e@));
                        }
                    },
                }
            },
            TransitionVar::Failed(_) => {},
            TransitionVar::Continued(_) => {
                proof {
                    lemma_final_fold_none(ev, ts, j as int + 1);
                }
                return Err(DapAbort::UnrecognizedMessage);
            },
        }
        j += 1;
    }
    proof {
        assert(ts.take(ts.len() as int) =~= ts);
    }
    Ok(merged)
}

/// The most recent collect job issued under a task and collect
/// identifier, if any.
pub open spec fn last_match(jobs: Seq<CollectJobEntry>, tid: Seq<u8>, cid: Seq<u8>) -> Option<int>
    decreases jobs.len(),
{
    if jobs.len() == 0 {
        None
    } else if jobs.last().task_id@ == tid && jobs.last().collect_id@ == cid {
        Some(jobs.len() - 1)
    } else {
        last_match(jobs.drop_last(), tid, cid)
    }
}

/// A found most-recent match is a position of the queue, and the entry
/// there carries the identifiers searched for.
pub proof fn lemma_last_match_bounds(jobs: Seq<CollectJobEntry>, tid: Seq<u8>, cid: Seq<u8>)
    requires
        last_match(jobs, tid, cid) is Some,
    ensures
        ({
            let i = last_match(jobs, tid, cid)->Some_0;
            &&& 0 <= i < jobs.len()
            &&& jobs[i].task_id@ == tid
            &&& jobs[i].collect_id@ == cid
        }),
    decreases jobs.len(),
{
    if jobs.len() > 0 && !(jobs.last().task_id@ == tid && jobs.last().collect_id@ == cid) {
        lemma_last_match_bounds(jobs.drop_last(), tid, cid);
    }
}

/// With no match at or after position `i`, the most recent match lies in
/// the prefix.
pub proof fn lemma_last_match_prefix(jobs: Seq<CollectJobEntry>, tid: Seq<u8>, cid: Seq<u8>, i: int)
    requires
        0 <= i <= jobs.len(),
        forall|j: int|
            i <= j < jobs.len() ==> !((#[trigger] jobs[j]).task_id@ == tid && jobs[j].collect_id@
                == cid),
    ensures
        last_match(jobs, tid, cid) == last_match(jobs.take(i), tid, cid),
    decreases jobs.len() - i,
{
    if i < jobs.len() {
        assert(jobs.take(jobs.len() as int) =~= jobs);
        lemma_last_match_prefix(jobs.drop_last(), tid, cid, i);
        assert(jobs.drop_last().take(i) =~= jobs.take(i));
    } else {
        assert(jobs.take(i) =~= jobs);
    }
}

/// Whether two query values describe the same batch.
pub open spec fn query_matches_val(a: Query, b: Query) -> bool {
    match (a, b) {
        (
            Query::TimeInterval { batch_interval: i1 },
            Query::TimeInterval { batch_interval: i2 },
        ) => i1 == i2,
        (
            Query::FixedSizeByBatchId { batch_id: b1 },
            Query::FixedSizeByBatchId { batch_id: b2 },
        ) => b1@ == b2@,
        _ => false,
    }
}

/// Whether two collect requests carry the same task, query and
/// parameter.
pub open spec fn collect_req_matches(a: CollectReq, b: CollectReq) -> bool {
    &&& a.task_id@ == b.task_id@
    &&& query_matches_val(a.query, b.query)
    &&& a.agg_param@ == b.agg_param@
}

/// Whether two batch hints describe the same batch.
pub open spec fn psel_matches_val(a: PartialBatchSelector, b: PartialBatchSelector) -> bool {
    match (a, b) {
        (PartialBatchSelector::TimeInterval, PartialBatchSelector::TimeInterval) => true,
        (
            PartialBatchSelector::FixedSizeByBatchId { batch_id: b1 },
            PartialBatchSelector::FixedSizeByBatchId { batch_id: b2 },
        ) => b1@ == b2@,
        _ => false,
    }
}

/// Whether two collect responses carry the same batch, count and
/// encrypted shares.
pub open spec fn collect_resp_matches(a: CollectResp, b: CollectResp) -> bool {
    &&& psel_matches_val(a.part_batch_sel, b.part_batch_sel)
    &&& a.report_count == b.report_count
    &&& a.encrypted_agg_shares@.len() == b.encrypted_agg_shares@.len()
    &&& forall|i: int|
        0 <= i < a.encrypted_agg_shares@.len() ==> {
            &&& (#[trigger] a.encrypted_agg_shares@[i]).config_id
                == b.encrypted_agg_shares@[i].config_id
            &&& a.encrypted_agg_shares@[i].enc@ == b.encrypted_agg_shares@[i].enc@
            &&& a.encrypted_agg_shares@[i].payload@ == b.encrypted_agg_shares@[i].payload@
        }
}

/// Copies a ciphertext.
pub fn clone_ciphertext(c: &HpkeCiphertext) -> (r: HpkeCiphertext)
    ensures
        r.config_id == c.config_id,
        r.enc@ == c.enc@,
        r.payload@ == c.payload@,
{
    HpkeCiphertext {
        config_id: c.config_id,
        enc: crate::bytesutil::bytes_clone(&c.enc),
        payload: crate::bytesutil::bytes_clone(&c.payload),
    }
}

/// Copies a collect response.
pub fn clone_collect_resp(resp: &CollectResp) -> (r: CollectResp)
    ensures
        collect_resp_matches(r, *resp),
{
    let mut shares: Vec<HpkeCiphertext> = Vec::new();
    let mut i: usize = 0;
    while i < resp.encrypted_agg_shares.len()
        invariant
            i <= resp.encrypted_agg_shares@.len(),
            shares@.len() == i,
            forall|j: int|
                0 <= j < i ==> {
                    &&& (#[trigger] shares@[j]).config_id
                        == resp.encrypted_agg_shares@[j].config_id
                    &&& shares@[j].enc@ == resp.encrypted_agg_shares@[j].enc@
                    &&& shares@[j].payload@ == resp.encrypted_agg_shares@[j].payload@
                },
        decreases resp.encrypted_agg_shares@.len() - i,
    {
        shares.push(clone_ciphertext(&resp.encrypted_agg_shares[i]));
        i += 1;
    }
    CollectResp {
        part_batch_sel: resp.part_batch_sel,
        report_count: resp.report_count,
        encrypted_agg_shares: shares,
    }
}

/// The indices of the still-pending collect jobs, in submission order.
pub open spec fn pending_indices(jobs: Seq<CollectJobEntry>) -> Seq<int>
    decreases jobs.len(),
{
    if jobs.len() == 0 {
        Seq::empty()
    } else {
        let prev = pending_indices(jobs.drop_last());
        match jobs.last().state {
            CollectJobState::Pending => prev.push(jobs.len() - 1),
            CollectJobState::Done(_) => prev,
        }
    }
}

/// Every pending index points at a pending entry.
pub proof fn lemma_pending_indices(jobs: Seq<CollectJobEntry>)
    ensures
        forall|k: int|
            0 <= k < pending_indices(jobs).len() ==> {
                let i = #[trigger] pending_indices(jobs)[k];
                &&& 0 <= i < jobs.len()
                &&& jobs[i].state matches CollectJobState::Pending
            },
    decreases jobs.len(),
{
    if jobs.len() > 0 {
        lemma_pending_indices(jobs.drop_last());
    }
}

/// What a collect submission does to the Leader: the gates in order,
/// then a fresh pending job and its locator.
pub open spec fn collect_post(
    pre: InMemoryAggregator,
    post: InMemoryAggregator,
    req: DapRequest<CollectReq>,
    r: Result<String, DapAbort>,
) -> bool {
    let creq = req.payload;
    let tid = creq.task_id@;
    let known = pre.tasks@.contains_key(tid);
    if !pre.collector_auth_ok(req) {
        (r matches Err(DapAbort::UnauthorizedRequest)) && post == pre
    } else if req.media_type != Some(DapMediaType::CollectReq) {
        (r matches Err(DapAbort::InvalidProtocolVersion)) && post == pre
    } else if !known {
        (r matches Err(DapAbort::UnrecognizedTask)) && post == pre
    } else if pre.tasks@[tid].version != req.version {
        (r matches Err(DapAbort::InvalidProtocolVersion)) && post == pre
    } else {
        let task = pre.tasks@[tid];
        let p = task.time_precision;
        let sel = sel_of_query(creq.query);
        if !query_matches_query(task.query, creq.query) {
            (r matches Err(DapAbort::QueryMismatch)) && post == pre
        } else if (creq.query matches Query::FixedSizeByBatchId { batch_id }
            && !pre.batch_view().contains_key(
            (tid, BucketKeyView::FixedSizeByBatchId { batch_id: batch_id@ }),
        )) {
            (r matches Err(DapAbort::BatchInvalid)) && post == pre
        } else if (creq.query matches Query::TimeInterval { batch_interval }
            && !interval_aligned(batch_interval, p)) {
            (r matches Err(DapAbort::BatchInvalid)) && post == pre
        } else if (creq.query matches Query::TimeInterval { batch_interval }
            && crate::task::interval_too_big(batch_interval, pre.global_config)) {
            is_bad_request(r, crate::base::reason_interval_too_big()) && post == pre
        } else if (creq.query matches Query::TimeInterval { batch_interval }
            && crate::task::interval_too_far_past(batch_interval, pre.global_config, pre.now)) {
            is_bad_request(r, crate::base::reason_interval_too_far_past()) && post == pre
        } else if (creq.query matches Query::TimeInterval { batch_interval }
            && crate::task::interval_too_far_future(batch_interval, pre.global_config, pre.now)) {
            is_bad_request(r, crate::base::reason_interval_too_far_future()) && post == pre
        } else if crate::batch::sel_overlaps_collected(pre.batch_view(), tid, sel, p) {
            (r matches Err(DapAbort::BatchOverlap)) && post == pre
        } else if r matches Err(e) {
            // Past every gate, the one admissible failure is a locator
            // that cannot be resolved against the task's Leader URL, and
            // then the join did fail for the identifier drawn.
            &&& is_bad_request(r, crate::base::reason_bad_leader_url())
            &&& post == pre
            &&& exists|cid: Seq<u8>|
                cid.len() == 32 && crate::urlpath::url_joined(
                    task.leader_url@,
                    crate::locator::collect_path_of(tid, cid),
                ) is None
        } else {
            let jobs = post.collect_jobs@;
            &&& jobs.len() == pre.collect_jobs@.len() + 1
            &&& jobs == pre.collect_jobs@.push(jobs.last())
            &&& jobs.last().task_id@ == tid
            &&& jobs.last().req == creq
            &&& jobs.last().state matches CollectJobState::Pending
            &&& (r matches Ok(url) && crate::urlpath::url_joined(
                task.leader_url@,
                crate::locator::collect_path_of(tid, jobs.last().collect_id@),
            ) == Some(url@))
            &&& post.report_store == pre.report_store
            &&& post.tasks == pre.tasks
            &&& post.helper_states == pre.helper_states
            &&& post.agg_store == pre.agg_store
            &&& post.current_batch == pre.current_batch
            &&& post.now == pre.now
            &&& post.global_config == pre.global_config
            &&& post.leader_token == pre.leader_token
            &&& post.collector_token == pre.collector_token
            &&& post.hpke_receiver_config_list == pre.hpke_receiver_config_list
            &&& post.collector_hpke_config == pre.collector_hpke_config
        }
    }
}

/// The batch selector a query resolves to, abstractly.
pub open spec fn sel_of_query(q: Query) -> BatchSelector {
    match q {
        Query::TimeInterval { batch_interval } => BatchSelector::TimeInterval { batch_interval },
        Query::FixedSizeByBatchId { batch_id } => BatchSelector::FixedSizeByBatchId { batch_id },
    }
}

impl InMemoryAggregator {
    /// The Leader's collect endpoint: validates authorization, query
    /// mode and the batch interval against the deployment bounds,
    /// rejects a selector overlapping an already-collected batch, and
    /// queues a fresh pending collect job, answering its locator.
    pub fn http_post_collect(&mut self, req: DapRequest<CollectReq>) -> (r: Result<
        String,
        DapAbort,
    >)
        requires
            old(self).wf(),
        ensures
            final(self).wf(),
            collect_post(*old(self), *final(self), req, r),
    {
        if !self.check_collector_auth(&req) {
            return Err(DapAbort::UnauthorizedRequest);
        }
        match req.media_type {
            Some(DapMediaType::CollectReq) => {},
            _ => {
                return Err(DapAbort::InvalidProtocolVersion);
            },
        }
        let creq = req.payload;
        let tid = creq.task_id;
        let collect_id = crate::rng::random_id();
        let url: String = match self.get_task(&tid) {
            None => {
                return Err(DapAbort::UnrecognizedTask);
            },
            Some(t) => {
                if !version_eq(req.version, t.version) {
                    return Err(DapAbort::InvalidProtocolVersion);
                }
                if !crate::task::check_query_matches_query(&t.query, &creq.query) {
                    return Err(DapAbort::QueryMismatch);
                }
                match &creq.query {
                    Query::FixedSizeByBatchId { batch_id } => {
                        let bkey = TaskBucketKey {
                            task_id: tid,
                            bucket: BucketKey::FixedSizeByBatchId { batch_id: *batch_id },
                        };
                        if !self.agg_store.contains_key(&bkey) {
                            return Err(DapAbort::BatchInvalid);
                        }
                    },
                    Query::TimeInterval { batch_interval } => {
                        match check_batch_interval(
                            &self.global_config,
                            t.time_precision,
                            self.now,
                            batch_interval,
                        ) {
                            Ok(()) => {},
                            Err(e) => {
                                return Err(e);
                            },
                        }
                    },
                }
                let sel = BatchSelector::from_query(&creq.query);
                proof {
                    assert(sel == sel_of_query(creq.query));
                }
                if self.is_overlapping(&tid, &sel, t.time_precision) {
                    return Err(DapAbort::BatchOverlap);
                }
                let path = crate::locator::collect_path(&tid, &collect_id);
                match crate::urlpath::join_url(t.leader_url.as_str(), path.as_str()) {
                    None => {
                        proof {
                            assert(collect_id@.len() == 32);
                            assert(crate::urlpath::url_joined(
                                t.leader_url@,
                                crate::locator::collect_path_of(tid@, collect_id@),
                            ) is None);
                        }
                        return Err(DapAbort::bad_request(
                            "cannot build a collect job locator from the leader URL",
                        ));
                    },
                    Some(u) => u,
                }
            },
        };
        let entry = CollectJobEntry {
            task_id: tid,
            collect_id,
            req: creq,
            state: CollectJobState::Pending,
        };
        self.collect_jobs.push(entry);
        Ok(url)
    }

    /// The still-pending collect jobs, in submission order: the queue the
    /// Leader's driver works through.
    pub fn get_pending_collect_jobs(&self) -> (r: Vec<(Id, CollectReq)>)
        requires
            self.wf(),
        ensures
            r@.len() == pending_indices(self.collect_jobs@).len(),
            forall|k: int|
                0 <= k < r@.len() ==> {
                    let i = pending_indices(self.collect_jobs@)[k];
                    &&& (#[trigger] r@[k]).0 == self.collect_jobs@[i].collect_id
                    &&& r@[k].1.task_id == self.collect_jobs@[i].req.task_id
                    &&& r@[k].1.query == self.collect_jobs@[i].req.query
                    &&& collect_req_matches(r@[k].1, self.collect_jobs@[i].req)
                },
    {
        let ghost jobs = self.collect_jobs@;
        let mut out: Vec<(Id, CollectReq)> = Vec::new();
        let mut i: usize = 0;
        while i < self.collect_jobs.len()
            invariant
                i <= jobs.len(),
                jobs == self.collect_jobs@,
                out@.len() == pending_indices(jobs.take(i as int)).len(),
                forall|k: int|
                    0 <= k < out@.len() ==> {
                        let x = pending_indices(jobs.take(i as int))[k];
                        &&& (#[trigger] out@[k]).0 == jobs[x].collect_id
                        &&& out@[k].1.task_id == jobs[x].req.task_id
                        &&& out@[k].1.query == jobs[x].req.query
                        &&& collect_req_matches(out@[k].1, jobs[x].req)
                    },
            decreases jobs.len() - i,
        {
            proof {
                assert(jobs.take(i as int + 1).drop_last() =~= jobs.take(i as int));
                assert(jobs.take(i as int + 1).last() == jobs[i as int]);
            }
            let e = &self.collect_jobs[i];
            match &e.state {
                CollectJobState::Pending => {
                    let req_copy = CollectReq {
                        task_id: e.req.task_id,
                        query: e.req.query,
                        agg_param: crate::bytesutil::bytes_clone(&e.req.agg_param),
                    };
                    out.push((e.collect_id, req_copy));
                },
                CollectJobState::Done(_) => {},
            }
            i += 1;
        }
        proof {
            assert(jobs.take(jobs.len() as int) =~= jobs);
        }
        out
    }

    /// Polls a collect identifier: never issued, still pending, or done
    /// with the stored response. Polling has no side effects.
    pub fn poll_collect_job(&self, task_id: &Id, collect_id: &Id) -> (r: DapCollectJob)
        requires
            self.wf(),
        ensures
            match last_match(self.collect_jobs@, task_id@, collect_id@) {
                None => r matches DapCollectJob::Unknown,
                Some(i) => match self.collect_jobs@[i].state {
                    CollectJobState::Pending => r matches DapCollectJob::Pending,
                    CollectJobState::Done(resp) => r matches DapCollectJob::Done(out)
                        && collect_resp_matches(out, resp),
                },
            },
    {
        let ghost jobs = self.collect_jobs@;
        let mut i: usize = self.collect_jobs.len();
        while i > 0
            invariant
                i <= jobs.len(),
                jobs == self.collect_jobs@,
                forall|j: int|
                    i <= j < jobs.len() ==> !((#[trigger] jobs[j]).task_id@ == task_id@
                        && jobs[j].collect_id@ == collect_id@),
            decreases i,
        {
            i = i - 1;
            let e = &self.collect_jobs[i];
            if e.task_id.same_as(task_id) && e.collect_id.same_as(collect_id) {
                proof {
                    lemma_last_match_prefix(jobs, task_id@, collect_id@, i as int + 1);
                    assert(jobs.take(i as int + 1).last() == jobs[i as int]);
                    assert(jobs.take(i as int + 1).len() - 1 == i as int);
                }
                match &e.state {
                    CollectJobState::Pending => {
                        return DapCollectJob::Pending;
                    },
                    CollectJobState::Done(resp) => {
                        return DapCollectJob::Done(clone_collect_resp(resp));
                    },
                }
            }
        }
        proof {
            lemma_last_match_prefix(jobs, task_id@, collect_id@, 0);
            assert(jobs.take(0) =~= Seq::<CollectJobEntry>::empty());
        }
        DapCollectJob::Unknown
    }

    /// Completes a pending collect job by storing its response; a job
    /// already done is left as it is, and an identifier never issued is
    /// rejected.
    pub fn finish_collect_job(&mut self, task_id: &Id, collect_id: &Id, resp: CollectResp) -> (r:
        Result<(), DapAbort>)
        requires
            old(self).wf(),
        ensures
            final(self).wf(),
            final(self).same_but_collect_jobs(*old(self)),
            match last_match(old(self).collect_jobs@, task_id@, collect_id@) {
                None => is_bad_request(r, reason_unknown_collect_job()) && final(self).collect_jobs
                    == old(self).collect_jobs,
                Some(i) => match old(self).collect_jobs@[i].state {
                    CollectJobState::Done(_) => r is Ok && final(self).collect_jobs == old(
                        self,
                    ).collect_jobs,
                    CollectJobState::Pending => r is Ok && final(self).collect_jobs@ == old(
                        self,
                    ).collect_jobs@.update(i, final(self).collect_jobs@[i]) && {
                        let e = final(self).collect_jobs@[i];
                        &&& e.task_id == old(self).collect_jobs@[i].task_id
                        &&& e.collect_id == old(self).collect_jobs@[i].collect_id
                        &&& e.req == old(self).collect_jobs@[i].req
                        &&& e.state == CollectJobState::Done(resp)
                    },
                },
            },
    {
        let ghost jobs = old(self).collect_jobs@;
        let mut i: usize = self.collect_jobs.len();
        while i > 0
            invariant
                *self == *old(self),
                old(self).wf(),
                i <= jobs.len(),
                jobs == self.collect_jobs@,
                forall|j: int|
                    i <= j < jobs.len() ==> !((#[trigger] jobs[j]).task_id@ == task_id@
                        && jobs[j].collect_id@ == collect_id@),
            decreases i,
        {
            i = i - 1;
            let found = self.collect_jobs[i].task_id.same_as(task_id)
                && self.collect_jobs[i].collect_id.same_as(collect_id);
            if found {
                proof {
                    lemma_last_match_prefix(jobs, task_id@, collect_id@, i as int + 1);
                    assert(jobs.take(i as int + 1).last() == jobs[i as int]);
                }
                let is_pending = match &self.collect_jobs[i].state {
                    CollectJobState::Pending => true,
                    CollectJobState::Done(_) => false,
                };
                if is_pending {
                    let e = self.collect_jobs.remove(i);
                    self.collect_jobs.insert(
                        i,
                        CollectJobEntry {
                            task_id: e.task_id,
                            collect_id: e.collect_id,
                            req: e.req,
                            state: CollectJobState::Done(resp),
                        },
                    );
                    proof {
                        assert(self.collect_jobs@ =~= jobs.update(
                            i as int,
                            self.collect_jobs@[i as int],
                        ));
                    }
                    return Ok(());
                }
                return Ok(());
            }
        }
        proof {
            lemma_last_match_prefix(jobs, task_id@, collect_id@, 0);
            assert(jobs.take(0) =~= Seq::<CollectJobEntry>::empty());
        }
        Err(DapAbort::bad_request("unrecognized collect job"))
    }
}

} // verus!
