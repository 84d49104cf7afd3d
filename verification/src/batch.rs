//! Batch accounting: bucket keys per report, the abstract content of the
//! accounting store, and the folds describing how output shares merge
//! into it and how a collect marks its buckets.

use vstd::prelude::*;
use crate::bytesutil::xor_bytes;
use crate::digest::sha256_of;
use crate::messages::{BatchSelector, Id, Interval, PartialBatchSelector, Time};
use crate::scheme::{add64, merged_data, DapAggregateShare};
use crate::task::{BucketKey, BucketKeyView};

verus! {

/// One report's committed output share, abstractly: whose report, when,
/// and the share value.
pub ghost struct OutRec {
    pub report_id: Seq<u8>,
    pub time: Time,
    pub value: u64,
}

/// One report's output share as the stores hold it.
#[derive(Clone, Copy, Debug)]
pub struct HelperStateEntry {
    pub report_id: Id,
    pub time: Time,
    pub out_share: u64,
}

impl View for HelperStateEntry {
    type V = OutRec;

    open spec fn view(&self) -> OutRec {
        OutRec { report_id: self.report_id@, time: self.time, value: self.out_share }
    }
}

/// The abstract value of a sequence of stored output shares.
pub open spec fn entries_view(s: Seq<HelperStateEntry>) -> Seq<OutRec> {
    Seq::new(s.len(), |i: int| s[i]@)
}

/// An accumulated aggregate share, abstractly.
pub ghost struct ShareView {
    pub report_count: u64,
    pub checksum: Seq<u8>,
    pub data: Option<u64>,
}

impl View for DapAggregateShare {
    type V = ShareView;

    open spec fn view(&self) -> ShareView {
        ShareView { report_count: self.report_count, checksum: self.checksum@, data: self.data }
    }
}

/// The accumulation holding no reports.
pub open spec fn empty_share_view() -> ShareView {
    ShareView { report_count: 0, checksum: Seq::new(32, |i: int| 0u8), data: None }
}

/// The combination of two accumulations: counts add modulo 2^64,
/// checksums combine by XOR, share values add modulo 2^64.
pub open spec fn merge_share_views(a: ShareView, b: ShareView) -> ShareView {
    ShareView {
        report_count: add64(a.report_count, b.report_count),
        checksum: xor_bytes(a.checksum, b.checksum),
        data: merged_data(a.data, b.data),
    }
}

/// The accumulation of one report's output share.
pub open spec fn share_view_of_rec(rec: OutRec) -> ShareView {
    ShareView { report_count: 1, checksum: sha256_of(rec.report_id), data: Some(rec.value) }
}

/// One bucket's accounting entry: the accumulated share and whether the
/// bucket was collected.
#[derive(Clone, Copy, Debug)]
pub struct AggStore {
    pub agg_share: DapAggregateShare,
    pub collected: bool,
}

/// One bucket's accounting entry, abstractly.
pub ghost struct AggStoreView {
    pub share: ShareView,
    pub collected: bool,
}

impl View for AggStore {
    type V = AggStoreView;

    open spec fn view(&self) -> AggStoreView {
        AggStoreView { share: self.agg_share@, collected: self.collected }
    }
}

/// The abstract batch accounting store: one entry per (task, bucket).
pub type BatchMap = Map<(Seq<u8>, BucketKeyView), AggStoreView>;

/// The bucket a report falls in, under a batch selector hint: its time
/// window in time-interval mode, the named batch in fixed-size mode.
pub open spec fn rec_bucket(psel: PartialBatchSelector, precision: u64, time: Time) -> BucketKeyView
    recommends
        precision >= 1,
{
    match psel {
        PartialBatchSelector::TimeInterval => BucketKeyView::TimeInterval {
            batch_window: time - (time as int % precision as int),
        },
        PartialBatchSelector::FixedSizeByBatchId { batch_id } => BucketKeyView::FixedSizeByBatchId {
            batch_id: batch_id@,
        },
    }
}

/// Computes the bucket a report falls in.
pub fn bucket_for(psel: &PartialBatchSelector, precision: u64, time: Time) -> (r: BucketKey)
    requires
        precision >= 1,
    ensures
        r@ == rec_bucket(*psel, precision, time),
{
    match psel {
        PartialBatchSelector::TimeInterval => {
            proof {
                crate::task::lemma_truncate(time as int, precision as int);
            }
            BucketKey::TimeInterval { batch_window: time - (time % precision) }
        },
        PartialBatchSelector::FixedSizeByBatchId { batch_id } => BucketKey::FixedSizeByBatchId {
            batch_id: *batch_id,
        },
    }
}

/// Whether a bucket is marked collected in the store.
pub open spec fn bucket_collected(m: BatchMap, task_id: Seq<u8>, bucket: BucketKeyView) -> bool {
    m.contains_key((task_id, bucket)) && m[(task_id, bucket)].collected
}

/// One output share merged into its bucket; an absent bucket starts
/// empty and uncollected.
pub open spec fn merge_one(
    m: BatchMap,
    task_id: Seq<u8>,
    bucket: BucketKeyView,
    rec: OutRec,
) -> BatchMap {
    let key = (task_id, bucket);
    let cur = if m.contains_key(key) {
        m[key]
    } else {
        AggStoreView { share: empty_share_view(), collected: false }
    };
    m.insert(
        key,
        AggStoreView {
            share: merge_share_views(cur.share, share_view_of_rec(rec)),
            collected: cur.collected,
        },
    )
}

/// A sequence of output shares merged into the store, in order.
pub open spec fn merge_fold(
    m: BatchMap,
    task_id: Seq<u8>,
    psel: PartialBatchSelector,
    precision: u64,
    recs: Seq<OutRec>,
) -> BatchMap
    decreases recs.len(),
{
    if recs.len() == 0 {
        m
    } else {
        merge_one(
            merge_fold(m, task_id, psel, precision, recs.drop_last()),
            task_id,
            rec_bucket(psel, precision, recs.last().time),
            recs.last(),
        )
    }
}

/// Whether any of the output shares targets a bucket already marked
/// collected: merging then would be a protocol ordering bug.
pub open spec fn any_bucket_collected(
    m: BatchMap,
    task_id: Seq<u8>,
    psel: PartialBatchSelector,
    precision: u64,
    recs: Seq<OutRec>,
) -> bool {
    exists|i: int|
        0 <= i < recs.len() && bucket_collected(m, task_id, rec_bucket(psel, precision, recs[i].time))
}

/// How many whole windows a time interval spans.
pub open spec fn window_count(itv: Interval, precision: u64) -> int
    recommends
        precision >= 1,
{
    itv.duration as int / precision as int
}

/// The start of the interval's window number `i`.
pub open spec fn window_at(itv: Interval, precision: u64, i: int) -> int {
    itv.start + i * precision
}

/// Whether `w` starts one of the interval's whole windows.
pub open spec fn is_window_of(itv: Interval, precision: u64, w: int) -> bool {
    &&& itv.start <= w
    &&& w < itv.start + window_count(itv, precision) * precision
    &&& (w - itv.start) % (precision as int) == 0
}

/// Whether `b` is one of the buckets a batch selector covers.
pub open spec fn bucket_in_sel(sel: BatchSelector, precision: u64, b: BucketKeyView) -> bool {
    match sel {
        BatchSelector::TimeInterval { batch_interval } => b matches BucketKeyView::TimeInterval {
            batch_window,
        } && is_window_of(batch_interval, precision, batch_window),
        BatchSelector::FixedSizeByBatchId { batch_id } => b == (BucketKeyView::FixedSizeByBatchId {
            batch_id: batch_id@,
        }),
    }
}

/// Whether the selector covers a bucket already marked collected: the
/// overlap a second collect must be rejected on.
pub open spec fn sel_overlaps_collected(
    m: BatchMap,
    task_id: Seq<u8>,
    sel: BatchSelector,
    precision: u64,
) -> bool {
    exists|b: BucketKeyView| bucket_in_sel(sel, precision, b) && bucket_collected(m, task_id, b)
}

/// The store after a collect marks every bucket the selector covers:
/// covered buckets keep their share (an absent one starts empty) and
/// become collected; everything else is untouched.
pub open spec fn mark_view(
    m: BatchMap,
    task_id: Seq<u8>,
    sel: BatchSelector,
    precision: u64,
) -> BatchMap {
    Map::new(
        |k: (Seq<u8>, BucketKeyView)|
            m.contains_key(k) || (k.0 == task_id && bucket_in_sel(sel, precision, k.1)),
        |k: (Seq<u8>, BucketKeyView)|
            if k.0 == task_id && bucket_in_sel(sel, precision, k.1) {
                AggStoreView {
                    share: if m.contains_key(k) {
                        m[k].share
                    } else {
                        empty_share_view()
                    },
                    collected: true,
                }
            } else {
                m[k]
            },
    )
}

/// Window number `i` of an interval starts a whole window of it.
pub proof fn lemma_window_in_sel(itv: Interval, precision: u64, i: int)
    requires
        precision >= 1,
        0 <= i < window_count(itv, precision),
    ensures
        is_window_of(itv, precision, window_at(itv, precision, i)),
{
    vstd::arithmetic::mul::lemma_mul_nonnegative(i, precision as int);
    vstd::arithmetic::mul::lemma_mul_strict_inequality(
        i,
        window_count(itv, precision),
        precision as int,
    );
    vstd::arithmetic::div_mod::lemma_mod_multiples_basic(i, precision as int);
}

/// Every whole window of an interval is window number
/// `(w - start) / precision` of it.
pub proof fn lemma_window_index(itv: Interval, precision: u64, w: int)
    requires
        precision >= 1,
        is_window_of(itv, precision, w),
    ensures
        0 <= (w - itv.start) / (precision as int) < window_count(itv, precision),
        window_at(itv, precision, (w - itv.start) / (precision as int)) == w,
{
    let p = precision as int;
    let x = w - itv.start;
    vstd::arithmetic::div_mod::lemma_fundamental_div_mod(x, p);
    let q = x / p;
    vstd::arithmetic::div_mod::lemma_div_pos_is_pos(x, p);
    vstd::arithmetic::mul::lemma_mul_is_commutative(p, q);
    assert(x == q * p);
    if q >= window_count(itv, precision) {
        vstd::arithmetic::mul::lemma_mul_inequality(window_count(itv, precision), q, p);
    }
}

/// A whole window of an interval bounded by window number `j` is one of
/// the first `j` windows; at the boundary it is window number `j`
/// itself.
pub proof fn lemma_window_unique(itv: Interval, precision: u64, j: int, w: int)
    requires
        precision >= 1,
        j >= 0,
        (w - itv.start) % (precision as int) == 0,
        window_at(itv, precision, j) <= w < window_at(itv, precision, j) + precision,
    ensures
        w == window_at(itv, precision, j),
{
    let p = precision as int;
    let x = w - itv.start;
    vstd::arithmetic::div_mod::lemma_fundamental_div_mod(x, p);
    let q = x / p;
    vstd::arithmetic::mul::lemma_mul_is_commutative(p, q);
    assert(x == q * p);
    assert(j * p <= q * p < j * p + p);
    if q < j {
        vstd::arithmetic::mul::lemma_mul_inequality(q + 1, j, p);
        vstd::arithmetic::mul::lemma_mul_is_distributive_add_other_way(p, q, 1);
        assert(q * p + p <= j * p);
    }
    if q > j {
        vstd::arithmetic::mul::lemma_mul_inequality(j + 1, q, p);
        vstd::arithmetic::mul::lemma_mul_is_distributive_add_other_way(p, j, 1);
        assert(j * p + p <= q * p);
    }
    assert(q == j);
}

/// Whether `w` starts one of the first `j` whole windows of an interval.
pub open spec fn is_window_upto(itv: Interval, precision: u64, j: int, w: int) -> bool {
    &&& itv.start <= w
    &&& w < itv.start + j * precision
    &&& (w - itv.start) % (precision as int) == 0
}

/// Whether `b` is one of the first `j` windows of a time interval.
pub open spec fn bucket_in_windows_upto(
    itv: Interval,
    precision: u64,
    j: int,
    b: BucketKeyView,
) -> bool {
    b matches BucketKeyView::TimeInterval { batch_window } && is_window_upto(
        itv,
        precision,
        j,
        batch_window,
    )
}

/// The store after the first `j` windows of a time interval are marked
/// collected.
pub open spec fn mark_windows_upto(
    m: BatchMap,
    task_id: Seq<u8>,
    itv: Interval,
    precision: u64,
    j: int,
) -> BatchMap {
    Map::new(
        |k: (Seq<u8>, BucketKeyView)|
            m.contains_key(k) || (k.0 == task_id && bucket_in_windows_upto(itv, precision, j, k.1)),
        |k: (Seq<u8>, BucketKeyView)|
            if k.0 == task_id && bucket_in_windows_upto(itv, precision, j, k.1) {
                AggStoreView {
                    share: if m.contains_key(k) {
                        m[k].share
                    } else {
                        empty_share_view()
                    },
                    collected: true,
                }
            } else {
                m[k]
            },
    )
}

/// Marking one more window extends the marked store by one bucket.
pub proof fn lemma_mark_step(
    m0: BatchMap,
    task_id: Seq<u8>,
    itv: Interval,
    precision: u64,
    i: int,
    prev: BatchMap,
    st: AggStoreView,
)
    requires
        precision >= 1,
        0 <= i,
        prev == mark_windows_upto(m0, task_id, itv, precision, i),
        st.collected == true,
        st.share == if m0.contains_key(
            (task_id, BucketKeyView::TimeInterval { batch_window: window_at(itv, precision, i) }),
        ) {
            m0[(task_id, BucketKeyView::TimeInterval {
                batch_window: window_at(itv, precision, i),
            })].share
        } else {
            empty_share_view()
        },
    ensures
        mark_windows_upto(m0, task_id, itv, precision, i + 1) == prev.insert(
            (task_id, BucketKeyView::TimeInterval { batch_window: window_at(itv, precision, i) }),
            st,
        ),
{
    let p = precision as int;
    let w = window_at(itv, precision, i);
    let key = (task_id, BucketKeyView::TimeInterval { batch_window: w });
    let lhs = mark_windows_upto(m0, task_id, itv, precision, i + 1);
    let rhs = prev.insert(key, st);
    vstd::arithmetic::mul::lemma_mul_nonnegative(i, p);
    vstd::arithmetic::mul::lemma_mul_is_distributive_add_other_way(p, i, 1);
    vstd::arithmetic::div_mod::lemma_mod_multiples_basic(i, p);
    assert(is_window_upto(itv, precision, i + 1, w));
    assert(!is_window_upto(itv, precision, i, w));
    assert forall|k: (Seq<u8>, BucketKeyView)| #[trigger]
        lhs.dom().contains(k) == rhs.dom().contains(k) by {
        lemma_mark_step_key(m0, task_id, itv, precision, i, prev, st, k);
    }
    assert(lhs.dom() =~= rhs.dom());
    assert forall|k: (Seq<u8>, BucketKeyView)| #[trigger]
        lhs.dom().contains(k) implies lhs[k] == rhs[k] by {
        lemma_mark_step_key(m0, task_id, itv, precision, i, prev, st, k);
    }
    assert(lhs =~= rhs);
}

/// One key's account of `lemma_mark_step`.
proof fn lemma_mark_step_key(
    m0: BatchMap,
    task_id: Seq<u8>,
    itv: Interval,
    precision: u64,
    i: int,
    prev: BatchMap,
    st: AggStoreView,
    k: (Seq<u8>, BucketKeyView),
)
    requires
        precision >= 1,
        0 <= i,
        prev == mark_windows_upto(m0, task_id, itv, precision, i),
        st.collected == true,
        st.share == if m0.contains_key(
            (task_id, BucketKeyView::TimeInterval { batch_window: window_at(itv, precision, i) }),
        ) {
            m0[(task_id, BucketKeyView::TimeInterval {
                batch_window: window_at(itv, precision, i),
            })].share
        } else {
            empty_share_view()
        },
    ensures
        ({
            let key = (task_id, BucketKeyView::TimeInterval {
                batch_window: window_at(itv, precision, i),
            });
            let lhs = mark_windows_upto(m0, task_id, itv, precision, i + 1);
            let rhs = prev.insert(key, st);
            lhs.contains_key(k) == rhs.contains_key(k) && (lhs.contains_key(k) ==> lhs[k] == rhs[k])
        }),
{
    let p = precision as int;
    let w = window_at(itv, precision, i);
    let key = (task_id, BucketKeyView::TimeInterval { batch_window: w });
    let lhs = mark_windows_upto(m0, task_id, itv, precision, i + 1);
    let rhs = prev.insert(key, st);
    vstd::arithmetic::mul::lemma_mul_nonnegative(i, p);
    vstd::arithmetic::mul::lemma_mul_is_distributive_add_other_way(p, i, 1);
    vstd::arithmetic::div_mod::lemma_mod_multiples_basic(i, p);
    assert(is_window_upto(itv, precision, i + 1, w));
    assert(!is_window_upto(itv, precision, i, w));
    if k == key {
        assert(lhs.contains_key(k) && lhs[k] == st);
        assert(rhs.contains_key(k) && rhs[k] == st);
    } else if k.0 == task_id && bucket_in_windows_upto(itv, precision, i + 1, k.1) {
        let w2 = k.1->TimeInterval_batch_window;
        if !(w2 < itv.start + i * p) {
            lemma_window_unique(itv, precision, i, w2);
            assert(k == key);
        }
        assert(bucket_in_windows_upto(itv, precision, i, k.1));
        assert(lhs.contains_key(k) && rhs.contains_key(k));
        assert(lhs[k] == rhs[k]);
    } else {
        if k.0 == task_id && bucket_in_windows_upto(itv, precision, i, k.1) {
            let w2 = k.1->TimeInterval_batch_window;
            assert(w2 < itv.start + (i + 1) * p);
            assert(bucket_in_windows_upto(itv, precision, i + 1, k.1));
        }
        assert(lhs.contains_key(k) == m0.contains_key(k));
        assert(rhs.contains_key(k) == m0.contains_key(k));
        if m0.contains_key(k) {
            assert(lhs[k] == m0[k]);
            assert(rhs[k] == m0[k]);
        }
    }
}

/// Once every window is marked, the store is the marked store of the
/// whole selector.
pub proof fn lemma_mark_final(m0: BatchMap, task_id: Seq<u8>, itv: Interval, precision: u64)
    requires
        precision >= 1,
    ensures
        mark_windows_upto(m0, task_id, itv, precision, window_count(itv, precision)) == mark_view(
            m0,
            task_id,
            BatchSelector::TimeInterval { batch_interval: itv },
            precision,
        ),
{
    let lhs = mark_windows_upto(m0, task_id, itv, precision, window_count(itv, precision));
    let rhs = mark_view(m0, task_id, BatchSelector::TimeInterval { batch_interval: itv }, precision);
    assert(lhs =~= rhs);
}

/// Marking a fixed-size batch marks exactly its bucket.
pub proof fn lemma_mark_fixed(
    m0: BatchMap,
    task_id: Seq<u8>,
    batch_id: Seq<u8>,
    precision: u64,
    st: AggStoreView,
)
    requires
        st.collected == true,
        st.share == if m0.contains_key(
            (task_id, BucketKeyView::FixedSizeByBatchId { batch_id }),
        ) {
            m0[(task_id, BucketKeyView::FixedSizeByBatchId { batch_id })].share
        } else {
            empty_share_view()
        },
    ensures
        forall|sel: BatchSelector|
            (sel matches BatchSelector::FixedSizeByBatchId { batch_id: b } && b@ == batch_id)
                ==> mark_view(m0, task_id, sel, precision) == m0.insert(
                (task_id, BucketKeyView::FixedSizeByBatchId { batch_id }),
                st,
            ),
{
    assert forall|sel: BatchSelector|
        (sel matches BatchSelector::FixedSizeByBatchId { batch_id: b } && b@
            == batch_id) implies mark_view(m0, task_id, sel, precision) == m0.insert(
        (task_id, BucketKeyView::FixedSizeByBatchId { batch_id }),
        st,
    ) by {
        assert(mark_view(m0, task_id, sel, precision) =~= m0.insert(
            (task_id, BucketKeyView::FixedSizeByBatchId { batch_id }),
            st,
        ));
    }
}

/// The accumulated share the selector's buckets hold, folded over the
/// windows of a time interval in increasing order, or read from the one
/// fixed-size bucket.
pub open spec fn window_share_fold(
    m: BatchMap,
    task_id: Seq<u8>,
    start: int,
    precision: u64,
    n: nat,
) -> ShareView
    decreases n,
{
    if n == 0 {
        empty_share_view()
    } else {
        let prev = window_share_fold(m, task_id, start, precision, (n - 1) as nat);
        let b = BucketKeyView::TimeInterval { batch_window: start + (n - 1) * precision };
        if m.contains_key((task_id, b)) {
            merge_share_views(prev, m[(task_id, b)].share)
        } else {
            prev
        }
    }
}

/// The accumulated share a batch selector resolves to.
pub open spec fn sel_share_view(
    m: BatchMap,
    task_id: Seq<u8>,
    sel: BatchSelector,
    precision: u64,
) -> ShareView
    recommends
        precision >= 1,
{
    match sel {
        BatchSelector::TimeInterval { batch_interval } => window_share_fold(
            m,
            task_id,
            batch_interval.start as int,
            precision,
            (batch_interval.duration as int / precision as int) as nat,
        ),
        BatchSelector::FixedSizeByBatchId { batch_id } => {
            let b = BucketKeyView::FixedSizeByBatchId { batch_id: batch_id@ };
            if m.contains_key((task_id, b)) {
                m[(task_id, b)].share
            } else {
                empty_share_view()
            }
        },
    }
}

/// An aligned interval spans a whole number of windows.
pub proof fn lemma_aligned_window_count(itv: Interval, p: u64)
    requires
        crate::task::interval_aligned(itv, p),
    ensures
        1 <= itv.duration as int / p as int,
        (itv.duration as int / p as int) * p == itv.duration,
{
    let d = itv.duration as int;
    let q = p as int;
    vstd::arithmetic::div_mod::lemma_fundamental_div_mod(d, q);
    assert(d == q * (d / q));
    vstd::arithmetic::mul::lemma_mul_is_commutative(q, d / q);
    if d / q < 1 {
        vstd::arithmetic::mul::lemma_mul_inequality(d / q, 0, q);
        assert(d <= 0);
    }
}

} // verus!
