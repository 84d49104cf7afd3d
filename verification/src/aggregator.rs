//! The in-memory aggregator: the stores and capabilities one protocol
//! role (Leader or Helper) holds, and the store-level operations the
//! endpoints are built from.

use vstd::prelude::*;
use crate::base::{
    is_bad_request, reason_bucket_collected, BearerToken, DapAbort, DapGlobalConfig,
};
use crate::batch::{
    any_bucket_collected, bucket_for, bucket_in_sel, bucket_in_windows_upto, entries_view,
    mark_view, mark_windows_upto, merge_fold, merge_one, rec_bucket, sel_overlaps_collected,
    sel_share_view, window_at, window_count, window_share_fold, AggStore, AggStoreView, BatchMap,
    HelperStateEntry, ShareView,
};
use crate::hpke::HpkeReceiverConfig;
use crate::messages::{
    sender_authorized, BatchSelector, CollectReq, CollectResp, DapRequest, HpkeConfig, Id, Interval,
    JobKey, PartialBatchSelector, Report, Time,
};
use crate::scheme::DapAggregateShare;
use crate::storage::{AssocMap, IdSet};
use crate::task::{interval_aligned, BucketKey, BucketKeyView, DapTaskConfig, TaskBucketKey};

verus! {

/// The per-task report store: the queue of unconsumed reports and the
/// durable replay set.
pub struct ReportStore {
    pub pending: Vec<Report>,
    pub processed: IdSet,
}

/// A collect job's position in its lifecycle.
pub enum CollectJobState {
    Pending,
    Done(CollectResp),
}

/// One collect job the Leader has issued.
pub struct CollectJobEntry {
    pub task_id: Id,
    pub collect_id: Id,
    pub req: CollectReq,
    pub state: CollectJobState,
}

/// The Helper's intermediate state for one aggregation job: the batch
/// hint the job was opened with and one entry per report that passed
/// initialization.
pub struct HelperState {
    pub part_batch_sel: PartialBatchSelector,
    pub entries: Vec<HelperStateEntry>,
}

/// One protocol role's state: its clock, the deployment bounds, the task
/// registry, the decryption configurations, the expected credentials and
/// the four stores the protocol needs.
pub struct InMemoryAggregator {
    /// The role's clock, fixed per instance.
    pub now: Time,
    pub global_config: DapGlobalConfig,
    pub tasks: AssocMap<Id, DapTaskConfig>,
    pub hpke_receiver_config_list: Vec<HpkeReceiverConfig>,
    /// The credential expected on Leader-to-Helper traffic.
    pub leader_token: BearerToken,
    /// The credential expected on Collector-to-Leader traffic; a Helper
    /// holds none.
    pub collector_token: Option<BearerToken>,
    pub report_store: AssocMap<Id, ReportStore>,
    /// The Leader's collect jobs, in submission order.
    pub collect_jobs: Vec<CollectJobEntry>,
    /// The Leader's current fixed-size batch per task.
    pub current_batch: AssocMap<Id, Id>,
    /// The Helper's per-job intermediate state; a job identifier is used
    /// exactly once.
    pub helper_states: AssocMap<JobKey, HelperState>,
    /// The batch accounting store.
    pub agg_store: AssocMap<TaskBucketKey, AggStore>,
    /// The Collector's encryption configuration.
    pub collector_hpke_config: HpkeConfig,
}

impl InMemoryAggregator {
    /// Every store is well formed, every registered task usable, and the
    /// decryption configurations are usable and uniquely identified.
    pub open spec fn wf(&self) -> bool {
        &&& self.tasks.wf()
        &&& self.report_store.wf()
        &&& self.current_batch.wf()
        &&& self.helper_states.wf()
        &&& self.agg_store.wf()
        &&& forall|k: Seq<u8>| #[trigger] self.tasks@.contains_key(k) ==> self.tasks@[k].wf()
        &&& self.hpke_receiver_config_list@.len() >= 1
        &&& forall|i: int|
            0 <= i < self.hpke_receiver_config_list@.len()
                ==> #[trigger] self.hpke_receiver_config_list@[i].wf()
        &&& forall|i: int, j: int|
            0 <= i < j < self.hpke_receiver_config_list@.len()
                ==> self.hpke_receiver_config_list@[i].config.id
                != self.hpke_receiver_config_list@[j].config.id
        &&& self.collector_hpke_config.public_key@.len() >= 1
    }

    /// The abstract batch accounting store.
    pub open spec fn batch_view(&self) -> BatchMap {
        Map::new(
            |k: (Seq<u8>, BucketKeyView)| self.agg_store@.contains_key(k),
            |k: (Seq<u8>, BucketKeyView)| self.agg_store@[k]@,
        )
    }

    /// Builds a role with empty stores.
    pub fn new(
        now: Time,
        global_config: DapGlobalConfig,
        leader_token: BearerToken,
        collector_token: Option<BearerToken>,
        hpke_receiver_config_list: Vec<HpkeReceiverConfig>,
        collector_hpke_config: HpkeConfig,
    ) -> (r: Self)
        requires
            hpke_receiver_config_list@.len() >= 1,
            forall|i: int|
                0 <= i < hpke_receiver_config_list@.len()
                    ==> #[trigger] hpke_receiver_config_list@[i].wf(),
            forall|i: int, j: int|
                0 <= i < j < hpke_receiver_config_list@.len()
                    ==> hpke_receiver_config_list@[i].config.id
                    != hpke_receiver_config_list@[j].config.id,
            collector_hpke_config.public_key@.len() >= 1,
        ensures
            r.wf(),
            r.now == now,
            r.global_config == global_config,
            r.tasks@ == Map::<Seq<u8>, DapTaskConfig>::empty(),
            r.leader_token == leader_token,
            r.collector_token == collector_token,
            r.hpke_receiver_config_list == hpke_receiver_config_list,
            r.report_store@ == Map::<Seq<u8>, ReportStore>::empty(),
            r.collect_jobs@.len() == 0,
            r.current_batch@ == Map::<Seq<u8>, Id>::empty(),
            r.helper_states@ == Map::<(Seq<u8>, Seq<u8>), HelperState>::empty(),
            r.agg_store@ == Map::<(Seq<u8>, BucketKeyView), AggStore>::empty(),
            r.collector_hpke_config == collector_hpke_config,
    {
        InMemoryAggregator {
            now,
            global_config,
            tasks: AssocMap::new(),
            hpke_receiver_config_list,
            leader_token,
            collector_token,
            report_store: AssocMap::new(),
            collect_jobs: Vec::new(),
            current_batch: AssocMap::new(),
            helper_states: AssocMap::new(),
            agg_store: AssocMap::new(),
            collector_hpke_config,
        }
    }

    /// Registers a task. The caller decides what to do with an already
    /// registered identifier; this overwrites.
    pub fn add_task(&mut self, task_id: &Id, config: DapTaskConfig)
        requires
            old(self).wf(),
            config.wf(),
        ensures
            final(self).wf(),
            final(self).tasks@ == old(self).tasks@.insert(task_id@, config),
            final(self).report_store == old(self).report_store,
            final(self).collect_jobs == old(self).collect_jobs,
            final(self).current_batch == old(self).current_batch,
            final(self).helper_states == old(self).helper_states,
            final(self).agg_store == old(self).agg_store,
            final(self).now == old(self).now,
            final(self).global_config == old(self).global_config,
            final(self).leader_token == old(self).leader_token,
            final(self).collector_token == old(self).collector_token,
            final(self).hpke_receiver_config_list == old(self).hpke_receiver_config_list,
            final(self).collector_hpke_config == old(self).collector_hpke_config,
    {
        self.tasks.set(task_id, config);
    }

    /// Whether the request carries the Leader-to-Helper credential.
    pub open spec fn leader_auth_ok<M>(&self, req: DapRequest<M>) -> bool {
        sender_authorized(&req, self.leader_token@)
    }

    /// Checks the Leader-to-Helper credential.
    pub fn check_leader_auth<M>(&self, req: &DapRequest<M>) -> (r: bool)
        ensures
            r == self.leader_auth_ok(*req),
    {
        match &req.sender_auth {
            Some(t) => t.same_as(&self.leader_token),
            None => false,
        }
    }

    /// Whether the request carries the Collector-to-Leader credential,
    /// on a role configured with one.
    pub open spec fn collector_auth_ok<M>(&self, req: DapRequest<M>) -> bool {
        &&& self.collector_token matches Some(t) && (req.sender_auth matches Some(s) && s@ == t@)
    }

    /// Checks the Collector-to-Leader credential.
    pub fn check_collector_auth<M>(&self, req: &DapRequest<M>) -> (r: bool)
        ensures
            r == self.collector_auth_ok(*req),
    {
        match (&self.collector_token, &req.sender_auth) {
            (Some(t), Some(s)) => s.same_as(t),
            _ => false,
        }
    }

    /// The credential this role attaches to the requests it sends.
    pub fn authorize(&self) -> (r: BearerToken)
        ensures
            r@ == self.leader_token@,
    {
        BearerToken { bytes: crate::bytesutil::bytes_clone(&self.leader_token.bytes) }
    }
}

/// Whether some decryption configuration in `list` carries `id`.
pub open spec fn has_receiver(list: Seq<HpkeReceiverConfig>, id: u8) -> bool {
    exists|i: int| 0 <= i < list.len() && list[i].config.id == id
}

/// The position of the decryption configuration carrying `id`.
pub open spec fn receiver_idx(list: Seq<HpkeReceiverConfig>, id: u8) -> int {
    choose|i: int| 0 <= i < list.len() && list[i].config.id == id
}

impl InMemoryAggregator {
    /// Looks up the decryption configuration for a ciphertext's
    /// identifier.
    pub fn receiver_for(&self, id: u8) -> (r: Option<&HpkeReceiverConfig>)
        requires
            self.wf(),
        ensures
            (r is Some) == has_receiver(self.hpke_receiver_config_list@, id),
            r matches Some(c) ==> *c == self.hpke_receiver_config_list@[receiver_idx(
                self.hpke_receiver_config_list@,
                id,
            )] && c.config.id == id,
    {
        let mut i: usize = 0;
        while i < self.hpke_receiver_config_list.len()
            invariant
                self.wf(),
                i <= self.hpke_receiver_config_list@.len(),
                forall|j: int| 0 <= j < i ==> self.hpke_receiver_config_list@[j].config.id != id,
            decreases self.hpke_receiver_config_list@.len() - i,
        {
            if self.hpke_receiver_config_list[i].config.id == id {
                proof {
                    let w = receiver_idx(self.hpke_receiver_config_list@, id);
                    assert(0 <= w < self.hpke_receiver_config_list@.len()
                        && self.hpke_receiver_config_list@[w].config.id == id);
                    assert(w == i as int);
                }
                return Some(&self.hpke_receiver_config_list[i]);
            }
            i += 1;
        }
        None
    }

    /// The encryption configuration this role advertises: the public
    /// half of its first decryption configuration, used for all tasks.
    pub fn first_hpke_config(&self) -> (r: HpkeConfig)
        requires
            self.wf(),
        ensures
            r.id == self.hpke_receiver_config_list@[0].config.id,
            r.public_key@ == self.hpke_receiver_config_list@[0].config.public_key@,
    {
        let c = &self.hpke_receiver_config_list[0].config;
        HpkeConfig { id: c.id, public_key: crate::bytesutil::bytes_clone(&c.public_key) }
    }

    /// The public encryption configuration this role advertises, for the
    /// task the URL names: missing and unknown task identifiers are
    /// rejected.
    pub fn http_get_hpke_config(&self, req: &DapRequest<()>) -> (r: Result<HpkeConfig, DapAbort>)
        requires
            self.wf(),
        ensures
            req.task_id is None ==> r matches Err(DapAbort::MissingTaskId),
            (req.task_id matches Some(t) && !self.tasks@.contains_key(t@)) ==> r matches Err(
                DapAbort::UnrecognizedTask,
            ),
            (req.task_id matches Some(t) && self.tasks@.contains_key(t@)) ==> (r matches Ok(c)
                && c.id == self.hpke_receiver_config_list@[0].config.id && c.public_key@
                == self.hpke_receiver_config_list@[0].config.public_key@),
    {
        match &req.task_id {
            None => Err(DapAbort::MissingTaskId),
            Some(t) => {
                if self.tasks.contains_key(t) {
                    Ok(self.first_hpke_config())
                } else {
                    Err(DapAbort::UnrecognizedTask)
                }
            },
        }
    }

    /// The public encryption configuration handed to a Client building a
    /// report: one configuration serves all tasks, so only a missing
    /// task identifier is rejected.
    pub fn get_hpke_config_for(&self, task_id: Option<&Id>) -> (r: Result<HpkeConfig, DapAbort>)
        requires
            self.wf(),
        ensures
            task_id is None ==> r matches Err(DapAbort::MissingTaskId),
            task_id is Some ==> (r matches Ok(c) && c.id
                == self.hpke_receiver_config_list@[0].config.id && c.public_key@
                == self.hpke_receiver_config_list@[0].config.public_key@),
    {
        match task_id {
            None => Err(DapAbort::MissingTaskId),
            Some(_) => Ok(self.first_hpke_config()),
        }
    }

    /// The Collector-to-Leader credential this role holds, if any.
    pub fn collector_credential(&self) -> (r: Option<BearerToken>)
        ensures
            (r is Some) == (self.collector_token is Some),
            r matches Some(t) ==> self.collector_token matches Some(u) && t@ == u@,
    {
        match &self.collector_token {
            None => None,
            Some(t) => Some(
                BearerToken { bytes: crate::bytesutil::bytes_clone(&t.bytes) },
            ),
        }
    }

    /// Looks a task up.
    pub fn get_task(&self, task_id: &Id) -> (r: Option<&DapTaskConfig>)
        requires
            self.wf(),
        ensures
            match r {
                Some(t) => self.tasks@.contains_key(task_id@) && *t == self.tasks@[task_id@]
                    && t.wf(),
                None => !self.tasks@.contains_key(task_id@),
            },
    {
        self.tasks.get(task_id)
    }

    /// True when every field but the batch accounting store is unchanged
    /// between two states of a role.
    pub open spec fn same_but_agg_store(self, other: Self) -> bool {
        &&& self.now == other.now
        &&& self.global_config == other.global_config
        &&& self.tasks == other.tasks
        &&& self.hpke_receiver_config_list == other.hpke_receiver_config_list
        &&& self.leader_token == other.leader_token
        &&& self.collector_token == other.collector_token
        &&& self.report_store == other.report_store
        &&& self.collect_jobs == other.collect_jobs
        &&& self.current_batch == other.current_batch
        &&& self.helper_states == other.helper_states
        &&& self.collector_hpke_config == other.collector_hpke_config
    }

    /// True when every field but the collect-job queue is unchanged
    /// between two states of a role.
    pub open spec fn same_but_collect_jobs(self, other: Self) -> bool {
        &&& self.now == other.now
        &&& self.global_config == other.global_config
        &&& self.tasks == other.tasks
        &&& self.hpke_receiver_config_list == other.hpke_receiver_config_list
        &&& self.leader_token == other.leader_token
        &&& self.collector_token == other.collector_token
        &&& self.report_store == other.report_store
        &&& self.agg_store == other.agg_store
        &&& self.current_batch == other.current_batch
        &&& self.helper_states == other.helper_states
        &&& self.collector_hpke_config == other.collector_hpke_config
    }

    /// Merges a sequence of output shares into their buckets, one bucket
    /// per report. A share aimed at a bucket already marked collected is
    /// a protocol ordering bug upstream: the whole call is rejected and
    /// nothing merged.
    pub fn merge_out_shares(
        &mut self,
        task_id: &Id,
        psel: &PartialBatchSelector,
        precision: u64,
        out_shares: &Vec<HelperStateEntry>,
    ) -> (r: Result<(), DapAbort>)
        requires
            old(self).wf(),
            precision >= 1,
        ensures
            final(self).wf(),
            final(self).same_but_agg_store(*old(self)),
            any_bucket_collected(
                old(self).batch_view(),
                task_id@,
                *psel,
                precision,
                entries_view(out_shares@),
            ) ==> is_bad_request(r, reason_bucket_collected()) && final(self).agg_store == old(
                self,
            ).agg_store,
            !any_bucket_collected(
                old(self).batch_view(),
                task_id@,
                *psel,
                precision,
                entries_view(out_shares@),
            ) ==> r is Ok && final(self).batch_view() == merge_fold(
                old(self).batch_view(),
                task_id@,
                *psel,
                precision,
                entries_view(out_shares@),
            ),
    {
        let ghost m0 = self.batch_view();
        let ghost recs = entries_view(out_shares@);
        // First pass: reject the call if any target bucket is collected.
        let mut i: usize = 0;
        while i < out_shares.len()
            invariant
                self.wf(),
                *self == *old(self),
                i <= out_shares@.len(),
                m0 == self.batch_view(),
                recs == entries_view(out_shares@),
                precision >= 1,
                forall|j: int|
                    0 <= j < i ==> !crate::batch::bucket_collected(
                        m0,
                        task_id@,
                        rec_bucket(*psel, precision, #[trigger] recs[j].time),
                    ),
            decreases out_shares@.len() - i,
        {
            let rec = out_shares[i];
            let b = bucket_for(psel, precision, rec.time);
            let key = TaskBucketKey { task_id: *task_id, bucket: b };
            match self.agg_store.get(&key) {
                Some(st) => {
                    if st.collected {
                        proof {
                            assert(recs[i as int].time == rec.time);
                            assert(crate::batch::bucket_collected(
                                m0,
                                task_id@,
                                rec_bucket(*psel, precision, recs[i as int].time),
                            ));
                        }
                        return Err(DapAbort::bad_request(
                            "aggregate share merged into a collected batch bucket",
                        ));
                    }
                },
                None => {},
            }
            proof {
                assert(recs[i as int].time == rec.time);
            }
            i += 1;
        }
        proof {
            assert(!any_bucket_collected(m0, task_id@, *psel, precision, recs));
        }
        // Second pass: merge each share into its bucket.
        let mut i: usize = 0;
        while i < out_shares.len()
            invariant
                self.wf(),
                self.same_but_agg_store(*old(self)),
                i <= out_shares@.len(),
                recs == entries_view(out_shares@),
                precision >= 1,
                self.batch_view() == merge_fold(m0, task_id@, *psel, precision, recs.take(i as int)),
            decreases out_shares@.len() - i,
        {
            let ghost prev = self.batch_view();
            let rec = out_shares[i];
            let b = bucket_for(psel, precision, rec.time);
            let key = TaskBucketKey { task_id: *task_id, bucket: b };
            let cur: AggStore = match self.agg_store.get(&key) {
                Some(s) => *s,
                None => AggStore { agg_share: DapAggregateShare::empty(), collected: false },
            };
            let mut share = cur.agg_share;
            let one = DapAggregateShare::of_report(&rec.report_id, rec.out_share);
            share.merge(&one);
            self.agg_store.set(&key, AggStore { agg_share: share, collected: cur.collected });
            proof {
                assert(recs[i as int] == rec@);
                assert(self.batch_view() =~= merge_one(
                    prev,
                    task_id@,
                    rec_bucket(*psel, precision, rec.time),
                    rec@,
                ));
                assert(recs.take(i + 1).drop_last() =~= recs.take(i as int));
                assert(recs.take(i + 1).last() == rec@);
            }
            i += 1;
        }
        proof {
            assert(recs.take(out_shares@.len() as int) =~= recs);
        }
        Ok(())
    }

    /// Whether the selector covers a bucket already marked collected.
    pub fn is_overlapping(&self, task_id: &Id, sel: &BatchSelector, precision: u64) -> (r: bool)
        requires
            self.wf(),
            precision >= 1,
            sel matches BatchSelector::TimeInterval { batch_interval } ==> interval_aligned(
                *batch_interval,
                precision,
            ),
        ensures
            r == sel_overlaps_collected(self.batch_view(), task_id@, *sel, precision),
    {
        match sel {
            BatchSelector::FixedSizeByBatchId { batch_id } => {
                let key = TaskBucketKey {
                    task_id: *task_id,
                    bucket: BucketKey::FixedSizeByBatchId { batch_id: *batch_id },
                };
                let hit = match self.agg_store.get(&key) {
                    Some(st) => st.collected,
                    None => false,
                };
                proof {
                    let b = BucketKeyView::FixedSizeByBatchId { batch_id: batch_id@ };
                    if hit {
                        assert(bucket_in_sel(*sel, precision, b) && crate::batch::bucket_collected(
                            self.batch_view(),
                            task_id@,
                            b,
                        ));
                    }
                }
                hit
            },
            BatchSelector::TimeInterval { batch_interval } => {
                proof {
                    crate::batch::lemma_aligned_window_count(*batch_interval, precision);
                }
                let n: u64 = batch_interval.duration / precision;
                let mut i: u64 = 0;
                let mut w: u64 = batch_interval.start;
                while i < n
                    invariant
                        self.wf(),
                        precision >= 1,
                        *sel == (BatchSelector::TimeInterval { batch_interval: *batch_interval }),
                        n == window_count(*batch_interval, precision),
                        (n as int) * (precision as int) == batch_interval.duration as int,
                        batch_interval.start + batch_interval.duration <= u64::MAX,
                        i <= n,
                        w == window_at(*batch_interval, precision, i as int),
                        forall|j: int|
                            0 <= j < i ==> !crate::batch::bucket_collected(
                                self.batch_view(),
                                task_id@,
                                BucketKeyView::TimeInterval {
                                    batch_window: window_at(*batch_interval, precision, j),
                                },
                            ),
                    decreases n - i,
                {
                    proof {
                        vstd::arithmetic::mul::lemma_mul_inequality(
                            i as int + 1,
                            n as int,
                            precision as int,
                        );
                        vstd::arithmetic::mul::lemma_mul_is_distributive_add_other_way(
                            precision as int,
                            i as int,
                            1,
                        );
                    }
                    let key = TaskBucketKey {
                        task_id: *task_id,
                        bucket: BucketKey::TimeInterval { batch_window: w },
                    };
                    let hit = match self.agg_store.get(&key) {
                        Some(st) => st.collected,
                        None => false,
                    };
                    if hit {
                        proof {
                            crate::batch::lemma_window_in_sel(*batch_interval, precision, i as int);
                            let bw = BucketKeyView::TimeInterval { batch_window: w as int };
                            assert(bucket_in_sel(*sel, precision, bw));
                            assert(crate::batch::bucket_collected(self.batch_view(), task_id@, bw));
                        }
                        return true;
                    }
                    w = w + precision;
                    i += 1;
                }
                proof {
                    assert(!sel_overlaps_collected(self.batch_view(), task_id@, *sel, precision))
                        by {
                        if sel_overlaps_collected(self.batch_view(), task_id@, *sel, precision) {
                            let b = choose|b: BucketKeyView|
                                bucket_in_sel(*sel, precision, b)
                                    && crate::batch::bucket_collected(
                                    self.batch_view(),
                                    task_id@,
                                    b,
                                );
                            let w = b->TimeInterval_batch_window;
                            crate::batch::lemma_window_index(*batch_interval, precision, w);
                            let q = (w - batch_interval.start as int) / (precision as int);
                            assert(!crate::batch::bucket_collected(
                                self.batch_view(),
                                task_id@,
                                BucketKeyView::TimeInterval {
                                    batch_window: window_at(*batch_interval, precision, q),
                                },
                            ));
                        }
                    }
                }
                false
            },
        }
    }

    /// Marks every bucket the selector covers as collected: no further
    /// merges are accepted there and a later overlapping collect is
    /// rejected.
    pub fn mark_collected(&mut self, task_id: &Id, sel: &BatchSelector, precision: u64)
        requires
            old(self).wf(),
            precision >= 1,
            sel matches BatchSelector::TimeInterval { batch_interval } ==> interval_aligned(
                *batch_interval,
                precision,
            ),
        ensures
            final(self).wf(),
            final(self).same_but_agg_store(*old(self)),
            final(self).batch_view() == mark_view(
                old(self).batch_view(),
                task_id@,
                *sel,
                precision,
            ),
    {
        let ghost m0 = self.batch_view();
        match sel {
            BatchSelector::FixedSizeByBatchId { batch_id } => {
                let key = TaskBucketKey {
                    task_id: *task_id,
                    bucket: BucketKey::FixedSizeByBatchId { batch_id: *batch_id },
                };
                let cur: DapAggregateShare = match self.agg_store.get(&key) {
                    Some(s) => s.agg_share,
                    None => DapAggregateShare::empty(),
                };
                let st = AggStore { agg_share: cur, collected: true };
                proof {
                    crate::batch::lemma_mark_fixed(m0, task_id@, batch_id@, precision, st@);
                }
                self.agg_store.set(&key, st);
                proof {
                    assert(self.batch_view() =~= m0.insert(
                        (task_id@, BucketKeyView::FixedSizeByBatchId { batch_id: batch_id@ }),
                        st@,
                    ));
                }
            },
            BatchSelector::TimeInterval { batch_interval } => {
                proof {
                    crate::batch::lemma_aligned_window_count(*batch_interval, precision);
                }
                let n: u64 = batch_interval.duration / precision;
                let mut i: u64 = 0;
                let mut w: u64 = batch_interval.start;
                while i < n
                    invariant
                        self.wf(),
                        self.same_but_agg_store(*old(self)),
                        precision >= 1,
                        *sel == (BatchSelector::TimeInterval { batch_interval: *batch_interval }),
                        n == window_count(*batch_interval, precision),
                        (n as int) * (precision as int) == batch_interval.duration as int,
                        batch_interval.start + batch_interval.duration <= u64::MAX,
                        i <= n,
                        w == window_at(*batch_interval, precision, i as int),
                        m0 == old(self).batch_view(),
                        self.batch_view() == mark_windows_upto(
                            m0,
                            task_id@,
                            *batch_interval,
                            precision,
                            i as int,
                        ),
                    decreases n - i,
                {
                    proof {
                        vstd::arithmetic::mul::lemma_mul_inequality(
                            i as int + 1,
                            n as int,
                            precision as int,
                        );
                        vstd::arithmetic::mul::lemma_mul_is_distributive_add_other_way(
                            precision as int,
                            i as int,
                            1,
                        );
                    }
                    let ghost prev = self.batch_view();
                    let key = TaskBucketKey {
                        task_id: *task_id,
                        bucket: BucketKey::TimeInterval { batch_window: w },
                    };
                    let cur: DapAggregateShare = match self.agg_store.get(&key) {
                        Some(s) => s.agg_share,
                        None => DapAggregateShare::empty(),
                    };
                    let st = AggStore { agg_share: cur, collected: true };
                    proof {
                        let kv = (task_id@, BucketKeyView::TimeInterval {
                            batch_window: w as int,
                        });
                        assert(!crate::batch::bucket_in_windows_upto(
                            *batch_interval,
                            precision,
                            i as int,
                            kv.1,
                        ));
                        assert(prev.contains_key(kv) == m0.contains_key(kv));
                        assert(m0.contains_key(kv) ==> prev[kv] == m0[kv]);
                        crate::batch::lemma_mark_step(
                            m0,
                            task_id@,
                            *batch_interval,
                            precision,
                            i as int,
                            prev,
                            st@,
                        );
                    }
                    self.agg_store.set(&key, st);
                    proof {
                        assert(self.batch_view() =~= prev.insert(
                            (task_id@, BucketKeyView::TimeInterval { batch_window: w as int }),
                            st@,
                        ));
                    }
                    w = w + precision;
                    i += 1;
                }
                proof {
                    crate::batch::lemma_mark_final(m0, task_id@, *batch_interval, precision);
                }
            },
        }
    }

    /// The accumulated aggregate share of the batch the selector names:
    /// a read without side effects.
    pub fn get_agg_share(&self, task_id: &Id, sel: &BatchSelector, precision: u64) -> (r:
        DapAggregateShare)
        requires
            self.wf(),
            precision >= 1,
            sel matches BatchSelector::TimeInterval { batch_interval } ==> interval_aligned(
                *batch_interval,
                precision,
            ),
        ensures
            r@ == sel_share_view(self.batch_view(), task_id@, *sel, precision),
    {
        match sel {
            BatchSelector::FixedSizeByBatchId { batch_id } => {
                let key = TaskBucketKey {
                    task_id: *task_id,
                    bucket: BucketKey::FixedSizeByBatchId { batch_id: *batch_id },
                };
                match self.agg_store.get(&key) {
                    Some(s) => s.agg_share,
                    None => DapAggregateShare::empty(),
                }
            },
            BatchSelector::TimeInterval { batch_interval } => {
                proof {
                    crate::batch::lemma_aligned_window_count(*batch_interval, precision);
                }
                let n: u64 = batch_interval.duration / precision;
                let mut acc = DapAggregateShare::empty();
                let mut i: u64 = 0;
                let mut w: u64 = batch_interval.start;
                while i < n
                    invariant
                        self.wf(),
                        precision >= 1,
                        *sel == (BatchSelector::TimeInterval { batch_interval: *batch_interval }),
                        n == window_count(*batch_interval, precision),
                        (n as int) * (precision as int) == batch_interval.duration as int,
                        batch_interval.start + batch_interval.duration <= u64::MAX,
                        i <= n,
                        w == window_at(*batch_interval, precision, i as int),
                        acc@ == window_share_fold(
                            self.batch_view(),
                            task_id@,
                            batch_interval.start as int,
                            precision,
                            i as nat,
                        ),
                    decreases n - i,
                {
                    proof {
                        vstd::arithmetic::mul::lemma_mul_inequality(
                            i as int + 1,
                            n as int,
                            precision as int,
                        );
                        vstd::arithmetic::mul::lemma_mul_is_distributive_add_other_way(
                            precision as int,
                            i as int,
                            1,
                        );
                    }
                    let key = TaskBucketKey {
                        task_id: *task_id,
                        bucket: BucketKey::TimeInterval { batch_window: w },
                    };
                    match self.agg_store.get(&key) {
                        Some(s) => {
                            acc.merge(&s.agg_share);
                        },
                        None => {},
                    }
                    w = w + precision;
                    i += 1;
                }
                acc
            },
        }
    }
}

} // verus!
