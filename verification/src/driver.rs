//! Drivers running one aggregation job and one collect job end to end
//! between two in-memory roles. The semantics live in the endpoint
//! contracts these drivers compose; the drivers themselves promise to
//! keep both roles well formed.

use vstd::prelude::*;
use crate::base::{is_bad_request, DapAbort, DapMediaType};
use crate::batch::merge_fold;
use crate::helper::{
    init_fold, pending_of, processed_of, resolved_expiration_of, resolved_precision_of,
    shares_provision_ok,
};
use crate::laws::kept_recs;
use crate::leader::{handle_agg_resp, handle_final_agg_resp, leader_fold};
use crate::messages::{
    AggregateReq, AggregateShareReq, BatchSelector, CollectReq, DapRequest, PartialBatchSelector,
    Query,
};
use crate::aggregator::InMemoryAggregator;

verus! {

/// What one completed aggregation job does, under the batch hint `psel`
/// it ran with: the Leader's queued reports were drained, the Helper
/// opened a job on the Leader's consumable report shares, committed
/// exactly the entries that passed initialization into its batch
/// accounting and extended its replay set, discarded the job state, and
/// the Leader committed its own stored output share of each of those
/// reports.
pub open spec fn agg_job_committed(
    pre_l: InMemoryAggregator,
    pre_h: InMemoryAggregator,
    post_l: InMemoryAggregator,
    post_h: InMemoryAggregator,
    tid: Seq<u8>,
    psel: PartialBatchSelector,
) -> bool {
    let reports = pending_of(pre_l.report_store@, tid);
    let lacc = leader_fold(pre_l.hpke_receiver_config_list@, reports);
    let shares = lacc.rshares;
    let hp = resolved_precision_of(pre_h.tasks@, tid, shares);
    let he = resolved_expiration_of(pre_h.tasks@, tid, shares);
    let hacc = init_fold(
        hp,
        he,
        psel,
        pre_h.hpke_receiver_config_list@,
        pre_h.batch_view(),
        tid,
        processed_of(pre_h.report_store@, tid),
        shares,
    );
    let kept = kept_recs(lacc.entries, hacc.entries);
    &&& crate::task::query_matches_psel(pre_l.tasks@[tid].query, psel)
    &&& post_h.batch_view() == merge_fold(pre_h.batch_view(), tid, psel, hp, hacc.entries)
    &&& post_l.batch_view() == merge_fold(
        pre_l.batch_view(),
        tid,
        psel,
        pre_l.tasks@[tid].time_precision,
        kept,
    )
    &&& post_h.report_store@.contains_key(tid)
    &&& post_h.report_store@[tid].processed@ == hacc.processed
    &&& post_h.helper_states@ == pre_h.helper_states@
}

/// Runs one aggregation job for a task: drains the Leader's queued
/// reports, opens a job on the Helper, continues it, and commits both
/// sides' output shares. The batch hint is existential because a
/// fixed-size task with no open batch draws a fresh batch identifier.
pub fn run_agg_job(
    leader: &mut InMemoryAggregator,
    helper: &mut InMemoryAggregator,
    task_id: &crate::messages::Id,
) -> (r: Result<(), DapAbort>)
    requires
        old(leader).wf(),
        old(helper).wf(),
    ensures
        final(leader).wf(),
        final(helper).wf(),
        final(leader).tasks == old(leader).tasks,
        final(leader).collect_jobs == old(leader).collect_jobs,
        final(leader).now == old(leader).now,
        final(leader).global_config == old(leader).global_config,
        final(leader).leader_token == old(leader).leader_token,
        final(leader).collector_token == old(leader).collector_token,
        final(helper).collect_jobs == old(helper).collect_jobs,
        final(helper).now == old(helper).now,
        final(helper).global_config == old(helper).global_config,
        final(helper).leader_token == old(helper).leader_token,
        final(helper).collector_token == old(helper).collector_token,
        !old(leader).tasks@.contains_key(task_id@) ==> ((r matches Err(DapAbort::UnrecognizedTask))
            && *final(leader) == *old(leader) && *final(helper) == *old(helper)),
        old(leader).tasks@.contains_key(task_id@) ==> final(leader).report_store@.contains_key(
            task_id@,
        ) && final(leader).report_store@[task_id@].pending@.len() == 0,
        r is Err ==> final(leader).agg_store == old(leader).agg_store,
        r matches Err(DapAbort::UnrecognizedTask) ==> (!old(leader).tasks@.contains_key(task_id@)
            || !(old(helper).tasks@.contains_key(task_id@) || shares_provision_ok(
            old(helper).global_config.allow_taskprov,
            leader_fold(
                old(leader).hpke_receiver_config_list@,
                pending_of(old(leader).report_store@, task_id@),
            ).rshares,
            task_id@,
        ))),
        r is Ok ==> exists|psel: PartialBatchSelector|
            #[trigger] agg_job_committed(
                *old(leader),
                *old(helper),
                *final(leader),
                *final(helper),
                task_id@,
                psel,
            ),
{
    let ghost tid = task_id@;
    let version = match leader.get_task(task_id) {
        None => {
            return Err(DapAbort::UnrecognizedTask);
        },
        Some(t) => t.version,
    };
    let (psel, reports) = match leader.get_reports(task_id) {
        Ok(pair) => pair,
        Err(e) => {
            // Unreachable: the task is known, so the drain succeeds.
            proof {
                assert(false);
            }
            return Err(e);
        },
    };
    let ghost lacc = leader_fold(old(leader).hpke_receiver_config_list@, reports@);
    let agg_job_id = crate::rng::random_id();
    let (state, init_req) = leader.produce_agg_init_req(*task_id, agg_job_id, &psel, reports);
    let ghost shares = lacc.rshares;
    let ghost hp = resolved_precision_of(old(helper).tasks@, tid, shares);
    let ghost he = resolved_expiration_of(old(helper).tasks@, tid, shares);
    let ghost hacc = init_fold(
        hp,
        he,
        psel,
        old(helper).hpke_receiver_config_list@,
        old(helper).batch_view(),
        tid,
        processed_of(old(helper).report_store@, tid),
        shares,
    );
    let req = DapRequest {
        version,
        media_type: Some(DapMediaType::AggInitReq),
        task_id: Some(*task_id),
        payload: AggregateReq::Init(init_req),
        url: String::new(),
        sender_auth: Some(leader.authorize()),
    };
    let resp = match helper.http_post_aggregate(&req) {
        Ok(resp) => resp,
        Err(e) => {
            return Err(e);
        },
    };
    // The Helper answered one transition per forwarded share, so the
    // Leader's continue step keeps exactly its own record of each share
    // the Helper opened.
    proof {
        crate::laws::lemma_leader_fold_parallel(
            old(leader).hpke_receiver_config_list@,
            pending_of(old(leader).report_store@, tid),
        );
        assert forall|j: int|
            0 <= j < shares.len() implies crate::helper::rec_ids_contain(
            lacc.entries,
            (#[trigger] shares[j]).metadata.id@,
        ) by {
            assert(lacc.entries[j].report_id == shares[j].metadata.id@);
        }
        crate::laws::lemma_cont_fold_reflected(
            lacc.entries,
            resp.transitions@,
            hp,
            he,
            psel,
            old(helper).hpke_receiver_config_list@,
            old(helper).batch_view(),
            tid,
            processed_of(old(helper).report_store@, tid),
            shares,
        );
        crate::laws::lemma_init_fold_entries(
            hp,
            he,
            psel,
            old(helper).hpke_receiver_config_list@,
            old(helper).batch_view(),
            tid,
            processed_of(old(helper).report_store@, tid),
            shares,
        );
    }
    let ghost kept = kept_recs(lacc.entries, hacc.entries);
    // Each kept record carries the identifier of the Helper entry it was
    // kept for, so the kept identifiers are pairwise distinct too.
    proof {
        assert forall|k: int|
            0 <= k < hacc.entries.len() implies (#[trigger] kept[k]).report_id
            == hacc.entries[k].report_id by {
            let idk = hacc.entries[k].report_id;
            let j = choose|j: int|
                0 <= j < shares.len() && (#[trigger] shares[j]).metadata.id@ == idk;
            assert(lacc.entries[j].report_id == idk);
            assert(crate::helper::rec_ids_contain(lacc.entries, idk));
            crate::laws::lemma_find_rec_some(lacc.entries, idk);
            crate::laws::lemma_find_rec_found(lacc.entries, idk);
        }
    }
    let (uncommitted, cont_req) = match handle_agg_resp(*task_id, agg_job_id, &state, &resp) {
        Ok(pair) => pair,
        Err(e) => {
            // Unreachable: the fold was shown to accept the response.
            proof {
                assert(false);
            }
            return Err(e);
        },
    };
    proof {
        crate::laws::lemma_cont_fold_all_continued(
            hacc.entries,
            cont_req.transitions@,
            hacc.entries.len() as int,
        );
        assert(cont_req.transitions@.take(cont_req.transitions@.len() as int)
            =~= cont_req.transitions@);
        assert(hacc.entries.take(hacc.entries.len() as int) =~= hacc.entries);
    }
    let req = DapRequest {
        version,
        media_type: Some(DapMediaType::AggContReq),
        task_id: Some(*task_id),
        payload: AggregateReq::Continue(cont_req),
        url: String::new(),
        sender_auth: Some(leader.authorize()),
    };
    let resp = match helper.http_post_aggregate(&req) {
        Ok(resp) => resp,
        Err(e) => {
            return Err(e);
        },
    };
    proof {
        crate::laws::lemma_final_fold_all_finished(
            kept,
            resp.transitions@,
            kept.len() as int,
        );
        assert(resp.transitions@.take(resp.transitions@.len() as int) =~= resp.transitions@);
        assert(kept.take(kept.len() as int) =~= kept);
    }
    let out_shares = match handle_final_agg_resp(&uncommitted, &resp) {
        Ok(v) => v,
        Err(e) => {
            // Unreachable: the fold was shown to accept the response.
            proof {
                assert(false);
            }
            return Err(e);
        },
    };
    match leader.put_out_shares(task_id, &psel, &out_shares) {
        Err(e) => Err(e),
        Ok(()) => {
            proof {
                assert(helper.helper_states@ =~= old(helper).helper_states@);
                assert(agg_job_committed(*old(leader), *old(helper), *leader, *helper, tid, psel));
            }
            Ok(())
        },
    }
}

/// What one completed collect run does, given the entry `new_e` it
/// queued: with `jobs1` the queue after submission and `driven` its
/// oldest pending job, both roles' accounting stores are the marked
/// stores of the driven job's selector, and the most recent job under
/// the driven identifiers is completed with the combined response — the
/// driven job's own count and the two aggregate shares encrypted to the
/// Collector — unless a job under the same identifiers was already done.
pub open spec fn collect_job_committed(
    pre_l: InMemoryAggregator,
    pre_h: InMemoryAggregator,
    post_l: InMemoryAggregator,
    post_h: InMemoryAggregator,
    tid: Seq<u8>,
    query: Query,
    new_e: crate::aggregator::CollectJobEntry,
) -> bool {
    let jobs1 = pre_l.collect_jobs@.push(new_e);
    let pi = crate::leader::pending_indices(jobs1)[0];
    let driven = jobs1[pi];
    let tid2 = driven.req.task_id@;
    let sel = crate::leader::sel_of_query(driven.req.query);
    let p_l = pre_l.tasks@[tid2].time_precision;
    let p_h = pre_h.tasks@[tid2].time_precision;
    let sv_l = crate::batch::sel_share_view(pre_l.batch_view(), tid2, sel, p_l);
    let sv_h = crate::batch::sel_share_view(pre_h.batch_view(), tid2, sel, p_h);
    let mi = crate::leader::last_match(jobs1, tid2, driven.collect_id@);
    &&& new_e.task_id@ == tid
    &&& new_e.req.task_id@ == tid
    &&& new_e.req.query == query
    &&& new_e.req.agg_param@.len() == 0
    &&& new_e.state matches crate::aggregator::CollectJobState::Pending
    &&& crate::leader::pending_indices(jobs1).len() >= 1
    &&& post_l.batch_view() == crate::batch::mark_view(pre_l.batch_view(), tid2, sel, p_l)
    &&& post_h.batch_view() == crate::batch::mark_view(pre_h.batch_view(), tid2, sel, p_h)
    &&& post_l.collect_jobs@.len() == jobs1.len()
    &&& mi is Some
    &&& (jobs1[mi->Some_0].state matches crate::aggregator::CollectJobState::Done(_)
        ==> post_l.collect_jobs@ == jobs1)
    &&& ((jobs1[mi->Some_0].state matches crate::aggregator::CollectJobState::Pending) ==> ({
        let j = mi->Some_0;
        let done = post_l.collect_jobs@[j];
        &&& post_l.collect_jobs@ == jobs1.update(j, done)
        &&& done.task_id == jobs1[j].task_id
        &&& done.collect_id == jobs1[j].collect_id
        &&& done.req == jobs1[j].req
        &&& (done.state matches crate::aggregator::CollectJobState::Done(resp) && {
            &&& resp.report_count == sv_l.report_count
            &&& resp.encrypted_agg_shares@.len() == 2
            &&& crate::scheme::encrypted_share_of(
                pre_l.tasks@[tid].collector_hpke_config,
                crate::helper::share_value(sv_l),
                resp.encrypted_agg_shares@[0],
            )
            &&& crate::scheme::encrypted_share_of(
                pre_h.tasks@[tid2].collector_hpke_config,
                crate::helper::share_value(sv_h),
                resp.encrypted_agg_shares@[1],
            )
        })
    }))
}

/// The deterministic gates of a collect submission by this driver: the
/// Leader holds a Collector credential and the task, the query names the
/// task's mode and a valid, in-bounds batch, and the selector overlaps no
/// collected bucket. Past these, only the locator join can refuse the
/// submission.
pub open spec fn collect_gates_ok(pre: InMemoryAggregator, tid: Seq<u8>, query: Query) -> bool {
    &&& pre.collector_token is Some
    &&& pre.tasks@.contains_key(tid)
    &&& crate::task::query_matches_query(pre.tasks@[tid].query, query)
    &&& (query matches Query::FixedSizeByBatchId { batch_id } ==> pre.batch_view().contains_key(
        (tid, crate::task::BucketKeyView::FixedSizeByBatchId { batch_id: batch_id@ }),
    ))
    &&& (query matches Query::TimeInterval { batch_interval } ==> crate::task::interval_bounds_ok(
        batch_interval,
        pre.tasks@[tid].time_precision,
        pre.global_config,
        pre.now,
    ))
    &&& !crate::batch::sel_overlaps_collected(
        pre.batch_view(),
        tid,
        crate::leader::sel_of_query(query),
        pre.tasks@[tid].time_precision,
    )
}

/// Runs one collect job for a task: submits the Collector's request,
/// drives the oldest pending job through the aggregate-share exchange,
/// stores the combined response and marks the batch collected.
pub fn run_collect_job(
    leader: &mut InMemoryAggregator,
    helper: &mut InMemoryAggregator,
    task_id: &crate::messages::Id,
    query: &Query,
) -> (r: Result<(), DapAbort>)
    requires
        old(leader).wf(),
        old(helper).wf(),
    ensures
        final(leader).wf(),
        final(helper).wf(),
        final(leader).tasks == old(leader).tasks,
        final(leader).report_store == old(leader).report_store,
        final(leader).helper_states == old(leader).helper_states,
        final(leader).now == old(leader).now,
        final(leader).global_config == old(leader).global_config,
        final(leader).leader_token == old(leader).leader_token,
        final(leader).collector_token == old(leader).collector_token,
        final(helper).tasks == old(helper).tasks,
        final(helper).report_store == old(helper).report_store,
        final(helper).helper_states == old(helper).helper_states,
        final(helper).collect_jobs == old(helper).collect_jobs,
        final(helper).now == old(helper).now,
        final(helper).global_config == old(helper).global_config,
        final(helper).leader_token == old(helper).leader_token,
        final(helper).collector_token == old(helper).collector_token,
        !old(leader).tasks@.contains_key(task_id@) ==> ((r matches Err(DapAbort::UnrecognizedTask))
            && *final(leader) == *old(leader) && *final(helper) == *old(helper)),
        r is Err ==> final(leader).agg_store == old(leader).agg_store,
        r matches Err(DapAbort::BatchOverlap) ==> final(helper).agg_store == old(
            helper,
        ).agg_store,
        collect_gates_ok(*old(leader), task_id@, *query) ==> (final(leader).collect_jobs@.len()
            == old(leader).collect_jobs@.len() + 1 || is_bad_request(
            r,
            crate::base::reason_bad_leader_url(),
        )),
        r matches Err(DapAbort::UnrecognizedTask) ==> (!old(leader).tasks@.contains_key(task_id@)
            || ({
            let pend0 = crate::leader::pending_indices(old(leader).collect_jobs@);
            let driven_tid = if pend0.len() >= 1 {
                old(leader).collect_jobs@[pend0[0]].req.task_id@
            } else {
                task_id@
            };
            !old(leader).tasks@.contains_key(driven_tid) || !old(helper).tasks@.contains_key(
                driven_tid,
            )
        })),
        r is Ok ==> exists|new_e: crate::aggregator::CollectJobEntry|
            #[trigger] collect_job_committed(
                *old(leader),
                *old(helper),
                *final(leader),
                *final(helper),
                task_id@,
                *query,
                new_e,
            ),
{
    let ghost tid = task_id@;
    let (version, collector_config) = match leader.get_task(task_id) {
        None => {
            return Err(DapAbort::UnrecognizedTask);
        },
        Some(t) => {
            let c = crate::messages::HpkeConfig {
                id: t.collector_hpke_config.id,
                public_key: crate::bytesutil::bytes_clone(&t.collector_hpke_config.public_key),
            };
            (t.version, c)
        },
    };
    let creq = CollectReq { task_id: *task_id, query: *query, agg_param: Vec::new() };
    let req = DapRequest {
        version,
        media_type: Some(DapMediaType::CollectReq),
        task_id: Some(*task_id),
        payload: creq,
        url: String::new(),
        sender_auth: leader.collector_credential(),
    };
    match leader.http_post_collect(req) {
        Ok(_) => {},
        Err(e) => {
            return Err(e);
        },
    }
    let ghost jobs1 = leader.collect_jobs@;
    let ghost new_e = jobs1.last();
    proof {
        assert(jobs1.drop_last() =~= old(leader).collect_jobs@);
        crate::leader::lemma_pending_indices(jobs1);
    }
    // Drive the oldest pending collect job; the one just queued is
    // pending, so at least one is.
    let pending = leader.get_pending_collect_jobs();
    if pending.len() == 0 {
        // Unreachable: the job just queued is pending.
        proof {
            assert(false);
        }
        return Err(DapAbort::bad_request("no pending collect job"));
    }
    let ghost pi = crate::leader::pending_indices(jobs1)[0];
    let ghost driven = jobs1[pi];
    let (collect_id, pending_req) = &pending[0];
    proof {
        assert(pending@[0].0 == driven.collect_id);
        assert(pending@[0].1.task_id == driven.req.task_id);
        assert(pending@[0].1.query == driven.req.query);
        assert(pending_req.task_id@ == driven.req.task_id@);
        assert(collect_id@ == driven.collect_id@);
        // The driven job is the queue's oldest pending job before the
        // submission, or the job just queued when none was pending.
        assert(crate::leader::pending_indices(jobs1) == crate::leader::pending_indices(
            old(leader).collect_jobs@,
        ).push(old(leader).collect_jobs@.len() as int));
        crate::leader::lemma_pending_indices(old(leader).collect_jobs@);
        if crate::leader::pending_indices(old(leader).collect_jobs@).len() >= 1 {
            assert(pi == crate::leader::pending_indices(old(leader).collect_jobs@)[0]);
            assert(driven == old(leader).collect_jobs@[pi]);
        } else {
            assert(pi == old(leader).collect_jobs@.len() as int);
            assert(driven == new_e);
            assert(driven.req.task_id@ == tid);
        }
    }
    let precision = match leader.get_task(&pending_req.task_id) {
        None => {
            return Err(DapAbort::UnrecognizedTask);
        },
        Some(t) => t.time_precision,
    };
    let batch_sel = BatchSelector::from_query(&pending_req.query);
    proof {
        assert(batch_sel == crate::leader::sel_of_query(driven.req.query));
    }
    match &batch_sel {
        BatchSelector::TimeInterval { batch_interval } => {
            let aligned = batch_interval.start % precision == 0 && batch_interval.duration
                % precision == 0 && batch_interval.duration >= precision && batch_interval.start
                <= u64::MAX - batch_interval.duration;
            if !aligned {
                return Err(DapAbort::BatchInvalid);
            }
        },
        BatchSelector::FixedSizeByBatchId { .. } => {},
    }
    let leader_share = leader.get_agg_share(&pending_req.task_id, &batch_sel, precision);
    let leader_value: u64 = match leader_share.data {
        Some(v) => v,
        None => 0,
    };
    let leader_enc = crate::scheme::encrypt_share(&collector_config, leader_value);
    let asr = AggregateShareReq {
        task_id: pending_req.task_id,
        batch_sel,
        agg_param: crate::bytesutil::bytes_clone(&pending_req.agg_param),
        report_count: leader_share.report_count,
        checksum: leader_share.checksum,
    };
    let req = DapRequest {
        version,
        media_type: Some(DapMediaType::AggShareReq),
        task_id: Some(*task_id),
        payload: asr,
        url: String::new(),
        sender_auth: Some(leader.authorize()),
    };
    let share_resp = match helper.http_post_aggregate_share(&req) {
        Ok(resp) => resp,
        Err(e) => {
            return Err(e);
        },
    };
    let mut encrypted_agg_shares: Vec<crate::messages::HpkeCiphertext> = Vec::new();
    encrypted_agg_shares.push(leader_enc);
    encrypted_agg_shares.push(share_resp.encrypted_agg_share);
    let part_batch_sel = match &batch_sel {
        BatchSelector::TimeInterval { .. } => crate::messages::PartialBatchSelector::TimeInterval,
        BatchSelector::FixedSizeByBatchId { batch_id } => (
        crate::messages::PartialBatchSelector::FixedSizeByBatchId { batch_id: *batch_id }),
    };
    let collect_resp = crate::messages::CollectResp {
        part_batch_sel,
        report_count: leader_share.report_count,
        encrypted_agg_shares,
    };
    let ghost resp_g = collect_resp;
    match leader.finish_collect_job(&pending_req.task_id, collect_id, collect_resp) {
        Ok(()) => {},
        Err(e) => {
            return Err(e);
        },
    }
    leader.mark_collected(&pending_req.task_id, &batch_sel, precision);
    proof {
        let tid2 = driven.req.task_id@;
        let sel = crate::leader::sel_of_query(driven.req.query);
        let p_l = old(leader).tasks@[tid2].time_precision;
        let sv_l = crate::batch::sel_share_view(old(leader).batch_view(), tid2, sel, p_l);
        assert(leader_value == crate::helper::share_value(sv_l));
        assert(crate::scheme::encrypted_share_of(
            old(leader).tasks@[tid].collector_hpke_config,
            crate::helper::share_value(sv_l),
            leader_enc,
        ));
        assert(resp_g.encrypted_agg_shares@.len() == 2);
        assert(resp_g.encrypted_agg_shares@[0] == leader_enc);
        assert(resp_g.encrypted_agg_shares@[1] == share_resp.encrypted_agg_share);
        assert(jobs1 == old(leader).collect_jobs@.push(new_e));
        assert(new_e.task_id@ == tid);
        assert(new_e.req.task_id@ == tid);
        assert(new_e.req.query == *query);
        assert(new_e.req.agg_param@.len() == 0);
        assert(crate::leader::pending_indices(jobs1).len() >= 1);
        assert(leader.batch_view() == crate::batch::mark_view(
            old(leader).batch_view(),
            tid2,
            sel,
            p_l,
        ));
        assert(helper.batch_view() == crate::batch::mark_view(
            old(helper).batch_view(),
            tid2,
            sel,
            old(helper).tasks@[tid2].time_precision,
        ));
        assert(crate::leader::last_match(jobs1, tid2, driven.collect_id@) is Some);
        crate::leader::lemma_last_match_bounds(jobs1, tid2, driven.collect_id@);
        assert(collect_job_committed(
            *old(leader),
            *old(helper),
            *leader,
            *helper,
            tid,
            *query,
            new_e,
        ));
    }
    Ok(())
}

} // verus!
