//! The cross-cutting guarantees of the role engine, stated and proved
//! over the same specifications the endpoint contracts use: anti-replay,
//! non-overlapping collection, single-use job identifiers, and the
//! known-answer recombination of a collect response.

use vstd::prelude::*;
use crate::aggregator::InMemoryAggregator;
use crate::base::{
    is_bad_request, reason_job_already_exists, DapAbort, TransitionFailure,
};
use crate::batch::{bucket_collected, bucket_in_sel, is_window_of, window_count, BatchMap};
use crate::helper::{cont_post, init_fold, init_post, share_outcome, InitAccum};
use crate::hpke::HpkeReceiverConfig;
use crate::messages::{
    AggregateContinueReq, AggregateInitializeReq, AggregateResp, BatchSelector, CollectResp,
    HpkeConfig, Interval, PartialBatchSelector, ReportShare, TransitionVar,
};
use crate::scheme::{add64, encrypted_share_of, open_resp_view};
use crate::task::{interval_aligned, query_matches_psel, BucketKeyView};

verus! {

/// An identifier in the replay set stays in it through any run of
/// initialization.
pub proof fn lemma_fold_keeps_processed(
    precision: u64,
    expiration: u64,
    psel: PartialBatchSelector,
    list: Seq<HpkeReceiverConfig>,
    batch: BatchMap,
    task_id: Seq<u8>,
    processed0: Set<Seq<u8>>,
    shares: Seq<ReportShare>,
    x: Seq<u8>,
)
    requires
        processed0.contains(x),
    ensures
        init_fold(precision, expiration, psel, list, batch, task_id, processed0, shares).processed
            .contains(x),
    decreases shares.len(),
{
    if shares.len() > 0 {
        lemma_fold_keeps_processed(
            precision,
            expiration,
            psel,
            list,
            batch,
            task_id,
            processed0,
            shares.drop_last(),
            x,
        );
    }
}

/// The replay set after a prefix of initialization is kept by the rest
/// of it.
pub proof fn lemma_fold_processed_grows(
    precision: u64,
    expiration: u64,
    psel: PartialBatchSelector,
    list: Seq<HpkeReceiverConfig>,
    batch: BatchMap,
    task_id: Seq<u8>,
    processed0: Set<Seq<u8>>,
    shares: Seq<ReportShare>,
    i: int,
    x: Seq<u8>,
)
    requires
        0 <= i <= shares.len(),
        init_fold(
            precision,
            expiration,
            psel,
            list,
            batch,
            task_id,
            processed0,
            shares.take(i),
        ).processed.contains(x),
    ensures
        init_fold(precision, expiration, psel, list, batch, task_id, processed0, shares).processed
            .contains(x),
    decreases shares.len() - i,
{
    if i == shares.len() {
        assert(shares.take(i) =~= shares);
    } else {
        assert(shares.take(i + 1).drop_last() =~= shares.take(i));
        lemma_fold_processed_grows(
            precision,
            expiration,
            psel,
            list,
            batch,
            task_id,
            processed0,
            shares,
            i + 1,
            x,
        );
    }
}

/// Initialization assigns one outcome per share, and the outcomes of a
/// prefix are a prefix of the outcomes.
pub proof fn lemma_fold_outcomes_prefix(
    precision: u64,
    expiration: u64,
    psel: PartialBatchSelector,
    list: Seq<HpkeReceiverConfig>,
    batch: BatchMap,
    task_id: Seq<u8>,
    processed0: Set<Seq<u8>>,
    shares: Seq<ReportShare>,
    i: int,
)
    requires
        0 <= i <= shares.len(),
    ensures
        init_fold(
            precision,
            expiration,
            psel,
            list,
            batch,
            task_id,
            processed0,
            shares,
        ).outcomes.len() == shares.len(),
        init_fold(precision, expiration, psel, list, batch, task_id, processed0, shares.take(i))
            .outcomes == init_fold(
            precision,
            expiration,
            psel,
            list,
            batch,
            task_id,
            processed0,
            shares,
        ).outcomes.take(i),
    decreases shares.len(),
{
    crate::helper::lemma_init_fold_len(
        precision,
        expiration,
        psel,
        list,
        batch,
        task_id,
        processed0,
        shares,
    );
    if i == shares.len() {
        assert(shares.take(i) =~= shares);
        assert(init_fold(
            precision,
            expiration,
            psel,
            list,
            batch,
            task_id,
            processed0,
            shares,
        ).outcomes.take(i) =~= init_fold(
            precision,
            expiration,
            psel,
            list,
            batch,
            task_id,
            processed0,
            shares,
        ).outcomes);
    } else {
        assert(shares.take(i) =~= shares.drop_last().take(i));
        lemma_fold_outcomes_prefix(
            precision,
            expiration,
            psel,
            list,
            batch,
            task_id,
            processed0,
            shares.drop_last(),
            i,
        );
        crate::helper::lemma_init_fold_len(
            precision,
            expiration,
            psel,
            list,
            batch,
            task_id,
            processed0,
            shares.drop_last(),
        );
        assert(init_fold(
            precision,
            expiration,
            psel,
            list,
            batch,
            task_id,
            processed0,
            shares,
        ).outcomes.take(i) =~= init_fold(
            precision,
            expiration,
            psel,
            list,
            batch,
            task_id,
            processed0,
            shares.drop_last(),
        ).outcomes.take(i));
    }
}

/// A share whose identifier is already in the replay set when its turn
/// comes, and whose task is not expired for it, is rejected as replayed.
pub proof fn lemma_replayed_at(
    precision: u64,
    expiration: u64,
    psel: PartialBatchSelector,
    list: Seq<HpkeReceiverConfig>,
    batch: BatchMap,
    task_id: Seq<u8>,
    processed0: Set<Seq<u8>>,
    shares: Seq<ReportShare>,
    i: int,
)
    requires
        0 <= i < shares.len(),
        init_fold(
            precision,
            expiration,
            psel,
            list,
            batch,
            task_id,
            processed0,
            shares.take(i),
        ).processed.contains(shares[i].metadata.id@),
        shares[i].metadata.time < expiration,
    ensures
        init_fold(precision, expiration, psel, list, batch, task_id, processed0, shares).outcomes[i]
            == Err::<u64, TransitionFailure>(TransitionFailure::ReportReplayed),
    decreases shares.len(),
{
    let prev = init_fold(
        precision,
        expiration,
        psel,
        list,
        batch,
        task_id,
        processed0,
        shares.take(i),
    );
    assert(shares.take(i + 1).drop_last() =~= shares.take(i));
    assert(shares.take(i + 1).last() == shares[i]);
    crate::helper::lemma_init_fold_len(
        precision,
        expiration,
        psel,
        list,
        batch,
        task_id,
        processed0,
        shares.take(i),
    );
    assert(init_fold(
        precision,
        expiration,
        psel,
        list,
        batch,
        task_id,
        processed0,
        shares.take(i + 1),
    ).outcomes[i] == Err::<u64, TransitionFailure>(TransitionFailure::ReportReplayed));
    lemma_fold_outcomes_prefix(
        precision,
        expiration,
        psel,
        list,
        batch,
        task_id,
        processed0,
        shares,
        i + 1,
    );
}

/// A share that succeeded enters the replay set, and its task was not
/// expired for it.
pub proof fn lemma_success_in_processed(
    precision: u64,
    expiration: u64,
    psel: PartialBatchSelector,
    list: Seq<HpkeReceiverConfig>,
    batch: BatchMap,
    task_id: Seq<u8>,
    processed0: Set<Seq<u8>>,
    shares: Seq<ReportShare>,
    i: int,
)
    requires
        0 <= i < shares.len(),
        init_fold(precision, expiration, psel, list, batch, task_id, processed0, shares).outcomes[i]
            is Ok,
    ensures
        init_fold(precision, expiration, psel, list, batch, task_id, processed0, shares).processed
            .contains(shares[i].metadata.id@),
        shares[i].metadata.time < expiration,
{
    lemma_fold_outcomes_prefix(
        precision,
        expiration,
        psel,
        list,
        batch,
        task_id,
        processed0,
        shares,
        i + 1,
    );
    crate::helper::lemma_init_fold_len(
        precision,
        expiration,
        psel,
        list,
        batch,
        task_id,
        processed0,
        shares.take(i + 1),
    );
    assert(shares.take(i + 1).drop_last() =~= shares.take(i));
    assert(shares.take(i + 1).last() == shares[i]);
    crate::helper::lemma_init_fold_len(
        precision,
        expiration,
        psel,
        list,
        batch,
        task_id,
        processed0,
        shares.take(i),
    );
    assert(init_fold(
        precision,
        expiration,
        psel,
        list,
        batch,
        task_id,
        processed0,
        shares.take(i + 1),
    ).outcomes[i] == init_fold(
        precision,
        expiration,
        psel,
        list,
        batch,
        task_id,
        processed0,
        shares,
    ).outcomes[i]);
    assert(init_fold(
        precision,
        expiration,
        psel,
        list,
        batch,
        task_id,
        processed0,
        shares.take(i + 1),
    ).processed.contains(shares[i].metadata.id@));
    lemma_fold_processed_grows(
        precision,
        expiration,
        psel,
        list,
        batch,
        task_id,
        processed0,
        shares,
        i + 1,
        shares[i].metadata.id@,
    );
}

/// An identifier in the replay set never contributes an output share.
pub proof fn lemma_no_entry_for_processed(
    precision: u64,
    expiration: u64,
    psel: PartialBatchSelector,
    list: Seq<HpkeReceiverConfig>,
    batch: BatchMap,
    task_id: Seq<u8>,
    processed0: Set<Seq<u8>>,
    shares: Seq<ReportShare>,
    x: Seq<u8>,
)
    requires
        processed0.contains(x),
    ensures
        forall|k: int|
            0 <= k < init_fold(
                precision,
                expiration,
                psel,
                list,
                batch,
                task_id,
                processed0,
                shares,
            ).entries.len() ==> (#[trigger] init_fold(
                precision,
                expiration,
                psel,
                list,
                batch,
                task_id,
                processed0,
                shares,
            ).entries[k]).report_id != x,
    decreases shares.len(),
{
    if shares.len() > 0 {
        lemma_no_entry_for_processed(
            precision,
            expiration,
            psel,
            list,
            batch,
            task_id,
            processed0,
            shares.drop_last(),
            x,
        );
        lemma_fold_keeps_processed(
            precision,
            expiration,
            psel,
            list,
            batch,
            task_id,
            processed0,
            shares.drop_last(),
            x,
        );
        let share = shares.last();
        let prev = init_fold(
            precision,
            expiration,
            psel,
            list,
            batch,
            task_id,
            processed0,
            shares.drop_last(),
        );
        let whole = init_fold(precision, expiration, psel, list, batch, task_id, processed0, shares);
        assert forall|k: int|
            0 <= k < whole.entries.len() implies (#[trigger] whole.entries[k]).report_id != x by {
            match share_outcome(
                precision,
                expiration,
                psel,
                list,
                batch,
                task_id,
                prev.processed,
                share,
            ) {
                Ok(_) => {
                    assert(share.metadata.id@ != x);
                    if k < prev.entries.len() {
                        assert(whole.entries[k] == prev.entries[k]);
                    } else {
                        assert(whole.entries[k].report_id == share.metadata.id@);
                    }
                },
                Err(_) => {
                    assert(whole.entries[k] == prev.entries[k]);
                },
            }
        }
    }
}

/// A report submitted for aggregation twice under one task is rejected
/// as replayed on the second attempt, whatever batch hint, decryption
/// configurations or accounting state the second attempt runs against,
/// and the second attempt stores no output share for it: the batch
/// accounting reflects only one contribution.
pub proof fn lemma_report_aggregated_once(
    precision1: u64,
    expiration: u64,
    psel1: PartialBatchSelector,
    list1: Seq<HpkeReceiverConfig>,
    batch1: BatchMap,
    task_id: Seq<u8>,
    processed0: Set<Seq<u8>>,
    shares1: Seq<ReportShare>,
    i: int,
    precision2: u64,
    psel2: PartialBatchSelector,
    list2: Seq<HpkeReceiverConfig>,
    batch2: BatchMap,
    shares2: Seq<ReportShare>,
    j: int,
)
    requires
        0 <= i < shares1.len(),
        0 <= j < shares2.len(),
        init_fold(
            precision1,
            expiration,
            psel1,
            list1,
            batch1,
            task_id,
            processed0,
            shares1,
        ).outcomes[i] is Ok,
        shares2[j].metadata.id@ == shares1[i].metadata.id@,
        shares2[j].metadata.time == shares1[i].metadata.time,
    ensures
        ({
            let after_first = init_fold(
                precision1,
                expiration,
                psel1,
                list1,
                batch1,
                task_id,
                processed0,
                shares1,
            ).processed;
            let fold2 = init_fold(
                precision2,
                expiration,
                psel2,
                list2,
                batch2,
                task_id,
                after_first,
                shares2,
            );
            &&& fold2.outcomes[j] == Err::<u64, TransitionFailure>(
                TransitionFailure::ReportReplayed,
            )
            &&& forall|k: int|
                0 <= k < fold2.entries.len() ==> (#[trigger] fold2.entries[k]).report_id
                    != shares2[j].metadata.id@
        }),
{
    let x = shares1[i].metadata.id@;
    lemma_success_in_processed(
        precision1,
        expiration,
        psel1,
        list1,
        batch1,
        task_id,
        processed0,
        shares1,
        i,
    );
    let after_first = init_fold(
        precision1,
        expiration,
        psel1,
        list1,
        batch1,
        task_id,
        processed0,
        shares1,
    ).processed;
    lemma_fold_keeps_processed(
        precision2,
        expiration,
        psel2,
        list2,
        batch2,
        task_id,
        after_first,
        shares2.take(j),
        x,
    );
    lemma_replayed_at(
        precision2,
        expiration,
        psel2,
        list2,
        batch2,
        task_id,
        after_first,
        shares2,
        j,
    );
    lemma_no_entry_for_processed(
        precision2,
        expiration,
        psel2,
        list2,
        batch2,
        task_id,
        after_first,
        shares2,
        x,
    );
}

/// A found record carries the identifier it was found by.
pub proof fn lemma_find_rec_found(entries: Seq<crate::batch::OutRec>, id: Seq<u8>)
    requires
        crate::helper::find_rec(entries, id) is Some,
    ensures
        (crate::helper::find_rec(entries, id)->Some_0).report_id == id,
    decreases entries.len(),
{
    if entries.len() > 0 && entries[0].report_id != id {
        lemma_find_rec_found(entries.drop_first(), id);
    }
}

/// An identifier held by some record is found.
pub proof fn lemma_find_rec_some(entries: Seq<crate::batch::OutRec>, id: Seq<u8>)
    requires
        crate::helper::rec_ids_contain(entries, id),
    ensures
        crate::helper::find_rec(entries, id) is Some,
    decreases entries.len(),
{
    if entries.len() > 0 && entries[0].report_id != id {
        let j = choose|j: int| 0 <= j < entries.len() && #[trigger] entries[j].report_id == id;
        assert(entries.drop_first()[j - 1].report_id == id);
        lemma_find_rec_some(entries.drop_first(), id);
    }
}

/// The Leader's initialization keeps one stored output share per
/// forwarded report share, in the same order, with the same report
/// identifier and timestamp.
pub proof fn lemma_leader_fold_parallel(list: Seq<HpkeReceiverConfig>, reports: Seq<crate::messages::Report>)
    ensures
        ({
            let lacc = crate::leader::leader_fold(list, reports);
            &&& lacc.entries.len() == lacc.rshares.len()
            &&& forall|i: int|
                0 <= i < lacc.entries.len() ==> (#[trigger] lacc.entries[i]).report_id
                    == lacc.rshares[i].metadata.id@ && lacc.entries[i].time
                    == lacc.rshares[i].metadata.time
        }),
    decreases reports.len(),
{
    if reports.len() > 0 {
        lemma_leader_fold_parallel(list, reports.drop_last());
    }
}

/// Whether some share in the run carries the identifier.
pub open spec fn share_ids_contain(shares: Seq<ReportShare>, id: Seq<u8>) -> bool {
    exists|j: int| 0 <= j < shares.len() && (#[trigger] shares[j]).metadata.id@ == id
}

/// The entries initialization stores have pairwise distinct report
/// identifiers, each in the replay set the fold ends with, and each
/// taken from one of the shares.
pub proof fn lemma_init_fold_entries(
    precision: u64,
    expiration: u64,
    psel: PartialBatchSelector,
    list: Seq<HpkeReceiverConfig>,
    batch: BatchMap,
    task_id: Seq<u8>,
    processed0: Set<Seq<u8>>,
    shares: Seq<ReportShare>,
)
    ensures
        ({
            let f = init_fold(precision, expiration, psel, list, batch, task_id, processed0, shares);
            &&& forall|k: int|
                0 <= k < f.entries.len() ==> f.processed.contains(
                    (#[trigger] f.entries[k]).report_id,
                )
            &&& forall|k1: int, k2: int|
                0 <= k1 < k2 < f.entries.len() ==> f.entries[k1].report_id
                    != f.entries[k2].report_id
            &&& forall|k: int|
                0 <= k < f.entries.len() ==> share_ids_contain(
                    shares,
                    (#[trigger] f.entries[k]).report_id,
                )
        }),
    decreases shares.len(),
{
    if shares.len() > 0 {
        lemma_init_fold_entries(
            precision,
            expiration,
            psel,
            list,
            batch,
            task_id,
            processed0,
            shares.drop_last(),
        );
        let prev = init_fold(
            precision,
            expiration,
            psel,
            list,
            batch,
            task_id,
            processed0,
            shares.drop_last(),
        );
        let f = init_fold(precision, expiration, psel, list, batch, task_id, processed0, shares);
        let share = shares.last();
        match share_outcome(
            precision,
            expiration,
            psel,
            list,
            batch,
            task_id,
            prev.processed,
            share,
        ) {
            Ok(_) => {
                assert(!prev.processed.contains(share.metadata.id@));
                assert forall|k: int|
                    0 <= k < f.entries.len() implies share_ids_contain(
                    shares,
                    (#[trigger] f.entries[k]).report_id,
                ) by {
                    if k < prev.entries.len() {
                        let j = choose|j: int|
                            0 <= j < shares.drop_last().len() && (#[trigger] shares.drop_last()[j]).metadata.id@
                                == prev.entries[k].report_id;
                        assert(shares[j].metadata.id@ == f.entries[k].report_id);
                    } else {
                        assert(shares[shares.len() - 1].metadata.id@ == f.entries[k].report_id);
                    }
                }
            },
            Err(_) => {
                assert forall|k: int|
                    0 <= k < f.entries.len() implies share_ids_contain(
                    shares,
                    (#[trigger] f.entries[k]).report_id,
                ) by {
                    let j = choose|j: int|
                        0 <= j < shares.drop_last().len() && (#[trigger] shares.drop_last()[j]).metadata.id@
                            == prev.entries[k].report_id;
                    assert(shares[j].metadata.id@ == f.entries[k].report_id);
                }
            },
        }
    }
}

/// The output shares the Leader keeps for the Helper's stored entries:
/// for each in order, its own stored record for that report.
pub open spec fn kept_recs(
    entries_l: Seq<crate::batch::OutRec>,
    hrecs: Seq<crate::batch::OutRec>,
) -> Seq<crate::batch::OutRec> {
    Seq::new(hrecs.len(), |i: int| crate::helper::find_rec(entries_l, hrecs[i].report_id)->Some_0)
}

/// Fed the transitions of an initialize response, the Leader's continue
/// step keeps exactly its own record of each share the Helper opened, in
/// order.
pub proof fn lemma_cont_fold_reflected(
    entries_l: Seq<crate::batch::OutRec>,
    ts: Seq<crate::messages::Transition>,
    precision: u64,
    expiration: u64,
    psel: PartialBatchSelector,
    list: Seq<HpkeReceiverConfig>,
    batch: BatchMap,
    task_id: Seq<u8>,
    processed0: Set<Seq<u8>>,
    shares: Seq<ReportShare>,
)
    requires
        ts.len() == shares.len(),
        forall|i: int|
            0 <= i < ts.len() ==> crate::helper::transition_reflects(
                #[trigger] ts[i],
                shares[i].metadata.id@,
                init_fold(
                    precision,
                    expiration,
                    psel,
                    list,
                    batch,
                    task_id,
                    processed0,
                    shares,
                ).outcomes[i],
            ),
        forall|j: int|
            0 <= j < shares.len() ==> crate::helper::rec_ids_contain(
                entries_l,
                (#[trigger] shares[j]).metadata.id@,
            ),
    ensures
        crate::helper::cont_fold(entries_l, ts) == Some(
            kept_recs(
                entries_l,
                init_fold(
                    precision,
                    expiration,
                    psel,
                    list,
                    batch,
                    task_id,
                    processed0,
                    shares,
                ).entries,
            ),
        ),
    decreases shares.len(),
{
    let f = init_fold(precision, expiration, psel, list, batch, task_id, processed0, shares);
    crate::helper::lemma_init_fold_len(
        precision,
        expiration,
        psel,
        list,
        batch,
        task_id,
        processed0,
        shares,
    );
    if shares.len() == 0 {
        assert(crate::helper::cont_fold(entries_l, ts) == Some(Seq::<crate::batch::OutRec>::empty()));
        assert(kept_recs(entries_l, f.entries) =~= Seq::<crate::batch::OutRec>::empty());
    } else {
        let prev = init_fold(
            precision,
            expiration,
            psel,
            list,
            batch,
            task_id,
            processed0,
            shares.drop_last(),
        );
        crate::helper::lemma_init_fold_len(
            precision,
            expiration,
            psel,
            list,
            batch,
            task_id,
            processed0,
            shares.drop_last(),
        );
        assert(ts.drop_last().len() == shares.drop_last().len());
        assert forall|i: int| 0 <= i < ts.drop_last().len() implies crate::helper::transition_reflects(
            #[trigger] ts.drop_last()[i],
            shares.drop_last()[i].metadata.id@,
            prev.outcomes[i],
        ) by {
            assert(ts.drop_last()[i] == ts[i]);
            assert(shares.drop_last()[i] == shares[i]);
            assert(f.outcomes[i] == prev.outcomes[i]);
        }
        assert forall|j: int|
            0 <= j < shares.drop_last().len() implies crate::helper::rec_ids_contain(
            entries_l,
            (#[trigger] shares.drop_last()[j]).metadata.id@,
        ) by {
            assert(shares.drop_last()[j] == shares[j]);
        }
        lemma_cont_fold_reflected(
            entries_l,
            ts.drop_last(),
            precision,
            expiration,
            psel,
            list,
            batch,
            task_id,
            processed0,
            shares.drop_last(),
        );
        lemma_init_fold_entries(
            precision,
            expiration,
            psel,
            list,
            batch,
            task_id,
            processed0,
            shares.drop_last(),
        );
        let share = shares.last();
        let id = share.metadata.id@;
        let oc = share_outcome(
            precision,
            expiration,
            psel,
            list,
            batch,
            task_id,
            prev.processed,
            share,
        );
        assert(f.outcomes[shares.len() - 1] == oc);
        assert(crate::helper::transition_reflects(ts[ts.len() - 1], id, oc));
        assert(ts.last() == ts[ts.len() - 1]);
        // Each previously kept record carries its Helper entry's
        // identifier.
        assert forall|i: int|
            0 <= i < prev.entries.len() implies (#[trigger] kept_recs(entries_l, prev.entries)[i]).report_id
            == prev.entries[i].report_id by {
            assert(shares.drop_last()[choose|j: int|
                0 <= j < shares.drop_last().len() && (#[trigger] shares.drop_last()[j]).metadata.id@
                    == prev.entries[i].report_id] == shares[choose|j: int|
                0 <= j < shares.drop_last().len() && (#[trigger] shares.drop_last()[j]).metadata.id@
                    == prev.entries[i].report_id]);
            assert(crate::helper::rec_ids_contain(entries_l, prev.entries[i].report_id));
            lemma_find_rec_some(entries_l, prev.entries[i].report_id);
            lemma_find_rec_found(entries_l, prev.entries[i].report_id);
        }
        match oc {
            Ok(_) => {
                assert(crate::helper::rec_ids_contain(entries_l, id));
                lemma_find_rec_some(entries_l, id);
                assert(!prev.processed.contains(id));
                assert(!crate::helper::rec_ids_contain(kept_recs(entries_l, prev.entries), id))
                    by {
                    if crate::helper::rec_ids_contain(kept_recs(entries_l, prev.entries), id) {
                        let m = choose|m: int|
                            0 <= m < kept_recs(entries_l, prev.entries).len() && (
                            #[trigger] kept_recs(entries_l, prev.entries)[m]).report_id == id;
                        assert(prev.entries[m].report_id == id);
                        assert(prev.processed.contains(id));
                    }
                }
                assert(f.entries == prev.entries.push(
                    crate::batch::OutRec { report_id: id, time: share.metadata.time, value: oc->Ok_0 },
                ));
                assert(kept_recs(entries_l, f.entries) =~= kept_recs(entries_l, prev.entries).push(
                    crate::helper::find_rec(entries_l, id)->Some_0,
                ));
            },
            Err(_) => {
                assert(f.entries == prev.entries);
            },
        }
    }
}

/// A continue request that answers every stored entry with a continued
/// transition, in order, commits exactly the stored entries.
pub proof fn lemma_cont_fold_all_continued(
    entries: Seq<crate::batch::OutRec>,
    ts: Seq<crate::messages::Transition>,
    j: int,
)
    requires
        forall|k1: int, k2: int|
            0 <= k1 < k2 < entries.len() ==> entries[k1].report_id != entries[k2].report_id,
        ts.len() == entries.len(),
        forall|i: int|
            0 <= i < ts.len() ==> (#[trigger] ts[i]).report_id@ == entries[i].report_id && (
            ts[i].var matches TransitionVar::Continued(m)),
        0 <= j <= ts.len(),
    ensures
        crate::helper::cont_fold(entries, ts.take(j)) == Some(entries.take(j)),
    decreases j,
{
    if j == 0 {
        assert(ts.take(0) =~= Seq::<crate::messages::Transition>::empty());
        assert(entries.take(0) =~= Seq::<crate::batch::OutRec>::empty());
    } else {
        lemma_cont_fold_all_continued(entries, ts, j - 1);
        assert(ts.take(j).drop_last() =~= ts.take(j - 1));
        assert(ts.take(j).last() == ts[j - 1]);
        let id = entries[j - 1].report_id;
        crate::helper::lemma_find_rec_at(entries, id, j - 1);
        assert(!crate::helper::rec_ids_contain(entries.take(j - 1), id)) by {
            if crate::helper::rec_ids_contain(entries.take(j - 1), id) {
                let m = choose|m: int|
                    0 <= m < entries.take(j - 1).len() && (#[trigger] entries.take(j - 1)[m]).report_id
                        == id;
                assert(entries[m].report_id == entries[j - 1].report_id);
            }
        }
        assert(entries.take(j - 1).push(entries[j - 1]) =~= entries.take(j));
    }
}

/// A final response that finishes every uncommitted entry, in order,
/// commits exactly the uncommitted entries.
pub proof fn lemma_final_fold_all_finished(
    entries: Seq<crate::batch::OutRec>,
    ts: Seq<crate::messages::Transition>,
    j: int,
)
    requires
        forall|k1: int, k2: int|
            0 <= k1 < k2 < entries.len() ==> entries[k1].report_id != entries[k2].report_id,
        ts.len() == entries.len(),
        forall|i: int|
            0 <= i < ts.len() ==> (#[trigger] ts[i]).report_id@ == entries[i].report_id && (
            ts[i].var matches TransitionVar::Finished),
        0 <= j <= ts.len(),
    ensures
        crate::leader::final_fold(entries, ts.take(j)) == Some(entries.take(j)),
    decreases j,
{
    if j == 0 {
        assert(ts.take(0) =~= Seq::<crate::messages::Transition>::empty());
        assert(entries.take(0) =~= Seq::<crate::batch::OutRec>::empty());
    } else {
        lemma_final_fold_all_finished(entries, ts, j - 1);
        assert(ts.take(j).drop_last() =~= ts.take(j - 1));
        assert(ts.take(j).last() == ts[j - 1]);
        let id = entries[j - 1].report_id;
        crate::helper::lemma_find_rec_at(entries, id, j - 1);
        assert(!crate::helper::rec_ids_contain(entries.take(j - 1), id)) by {
            if crate::helper::rec_ids_contain(entries.take(j - 1), id) {
                let m = choose|m: int|
                    0 <= m < entries.take(j - 1).len() && (#[trigger] entries.take(j - 1)[m]).report_id
                        == id;
                assert(entries[m].report_id == entries[j - 1].report_id);
            }
        }
        assert(entries.take(j - 1).push(entries[j - 1]) =~= entries.take(j));
    }
}

/// Two aligned intervals that overlap even partially share a whole
/// window.
pub proof fn lemma_overlapping_intervals_share_window(i1: Interval, i2: Interval, p: u64)
    requires
        p >= 1,
        interval_aligned(i1, p),
        interval_aligned(i2, p),
        i1.start < i2.start + i2.duration,
        i2.start < i1.start + i1.duration,
    ensures
        exists|b: BucketKeyView|
            #[trigger] bucket_in_sel(BatchSelector::TimeInterval { batch_interval: i1 }, p, b)
                && bucket_in_sel(BatchSelector::TimeInterval { batch_interval: i2 }, p, b),
{
    let w: int = if i1.start >= i2.start {
        i1.start as int
    } else {
        i2.start as int
    };
    crate::batch::lemma_aligned_window_count(i1, p);
    crate::batch::lemma_aligned_window_count(i2, p);
    let q = p as int;
    // Both starts are multiples of the precision, so their difference is.
    vstd::arithmetic::div_mod::lemma_fundamental_div_mod(i1.start as int, q);
    vstd::arithmetic::div_mod::lemma_fundamental_div_mod(i2.start as int, q);
    let a = i1.start as int / q;
    let b2 = i2.start as int / q;
    assert(i1.start as int == q * a + (i1.start as int % q));
    assert(i2.start as int == q * b2 + (i2.start as int % q));
    assert((w - i1.start) % q == 0) by {
        if w == i1.start as int {
            vstd::arithmetic::div_mod::lemma_mod_multiples_basic(0, q);
        } else {
            assert(w - i1.start == q * b2 - q * a);
            vstd::arithmetic::mul::lemma_mul_is_distributive_sub(q, b2, a);
            vstd::arithmetic::mul::lemma_mul_is_commutative(q, b2 - a);
            vstd::arithmetic::div_mod::lemma_mod_multiples_basic(b2 - a, q);
            assert(w - i1.start == (b2 - a) * q);
        }
    }
    assert((w - i2.start) % q == 0) by {
        if w == i2.start as int {
            vstd::arithmetic::div_mod::lemma_mod_multiples_basic(0, q);
        } else {
            assert(w - i2.start == q * a - q * b2);
            vstd::arithmetic::mul::lemma_mul_is_distributive_sub(q, a, b2);
            vstd::arithmetic::mul::lemma_mul_is_commutative(q, a - b2);
            vstd::arithmetic::div_mod::lemma_mod_multiples_basic(a - b2, q);
            assert(w - i2.start == (a - b2) * q);
        }
    }
    let bkt = BucketKeyView::TimeInterval { batch_window: w };
    assert(is_window_of(i1, p, w));
    assert(is_window_of(i2, p, w));
    assert(bucket_in_sel(BatchSelector::TimeInterval { batch_interval: i1 }, p, bkt)
        && bucket_in_sel(BatchSelector::TimeInterval { batch_interval: i2 }, p, bkt));
}

/// Once a collect has marked every bucket of its interval, a second
/// collect whose interval overlaps the first even partially sees a
/// collected bucket: its overlap gate rejects it with `BatchOverlap`.
pub proof fn lemma_collect_after_mark_overlaps(
    m0: BatchMap,
    task_id: Seq<u8>,
    i1: Interval,
    i2: Interval,
    p: u64,
)
    requires
        p >= 1,
        interval_aligned(i1, p),
        interval_aligned(i2, p),
        i1.start < i2.start + i2.duration,
        i2.start < i1.start + i1.duration,
    ensures
        crate::batch::sel_overlaps_collected(
            crate::batch::mark_view(
                m0,
                task_id,
                BatchSelector::TimeInterval { batch_interval: i1 },
                p,
            ),
            task_id,
            BatchSelector::TimeInterval { batch_interval: i2 },
            p,
        ),
{
    lemma_overlapping_intervals_share_window(i1, i2, p);
    let b = choose|b: BucketKeyView|
        #[trigger] bucket_in_sel(BatchSelector::TimeInterval { batch_interval: i1 }, p, b)
            && bucket_in_sel(BatchSelector::TimeInterval { batch_interval: i2 }, p, b);
    let m = crate::batch::mark_view(m0, task_id, BatchSelector::TimeInterval {
        batch_interval: i1,
    }, p);
    assert(m.contains_key((task_id, b)));
    assert(m[(task_id, b)].collected);
    assert(bucket_collected(m, task_id, b));
}

/// A second initialize request reusing an aggregation job identifier
/// against the same Helper state is rejected with the specific
/// job-already-exists diagnostic, and changes nothing, however
/// well-formed its report shares are.
pub proof fn lemma_job_id_single_use(
    pre: InMemoryAggregator,
    post: InMemoryAggregator,
    version: crate::base::DapVersion,
    init: AggregateInitializeReq,
    r: Result<AggregateResp, DapAbort>,
)
    requires
        init_post(pre, post, version, init, r),
        pre.helper_states@.contains_key((init.task_id@, init.agg_job_id@)),
        pre.tasks@.contains_key(init.task_id@),
        pre.tasks@[init.task_id@].version == version,
        query_matches_psel(pre.tasks@[init.task_id@].query, init.part_batch_sel),
    ensures
        is_bad_request(r, reason_job_already_exists()),
        post == pre,
{
}

/// A continue request for a job that was never initialized, or whose
/// state was already consumed by an earlier continue, is rejected with
/// `UnrecognizedAggregationJob` and changes nothing.
pub proof fn lemma_unknown_job_rejected(
    pre: InMemoryAggregator,
    post: InMemoryAggregator,
    version: crate::base::DapVersion,
    cont: AggregateContinueReq,
    r: Result<AggregateResp, DapAbort>,
)
    requires
        cont_post(pre, post, version, cont, r),
        pre.tasks@.contains_key(cont.task_id@),
        pre.tasks@[cont.task_id@].version == version,
        !pre.helper_states@.contains_key((cont.task_id@, cont.agg_job_id@)),
    ensures
        r matches Err(DapAbort::UnrecognizedAggregationJob),
        post == pre,
{
}

/// The most recent entry pushed for a task and collect identifier is the
/// one polling finds: polling right after submission sees the new
/// pending job.
pub proof fn lemma_poll_after_submit(
    jobs: Seq<crate::aggregator::CollectJobEntry>,
    e: crate::aggregator::CollectJobEntry,
)
    ensures
        crate::leader::last_match(jobs.push(e), e.task_id@, e.collect_id@) == Some(
            jobs.len() as int,
        ),
{
    assert(jobs.push(e).last() == e);
}

/// A collect response assembled from the two aggregate shares encrypted
/// to the Collector recombines, under the Collector's key, into the sum
/// of the two share values: with one report of measurement `m`, the
/// shares add back up to `m`.
pub proof fn lemma_collect_response_recombines(
    key: Seq<u8>,
    a: u64,
    b: u64,
    cfg: HpkeConfig,
    resp: CollectResp,
)
    requires
        key.len() >= 1,
        cfg.public_key@ == key,
        resp.encrypted_agg_shares@.len() == 2,
        encrypted_share_of(cfg, a, resp.encrypted_agg_shares@[0]),
        encrypted_share_of(cfg, b, resp.encrypted_agg_shares@[1]),
    ensures
        open_resp_view(key, resp) == Some(add64(a, b)),
{
    crate::hpke::lemma_hpke_round_trip(key, crate::bytesutil::u64_to_le_bytes(a));
    crate::hpke::lemma_hpke_round_trip(key, crate::bytesutil::u64_to_le_bytes(b));
    crate::bytesutil::lemma_u64_le_round_trip(a);
    crate::bytesutil::lemma_u64_le_round_trip(b);
}

} // verus!
