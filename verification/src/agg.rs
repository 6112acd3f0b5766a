//! The aggregation-condition evaluator: partition a rule's matched records
//! into buckets keyed by (grouping key, time window) and emit one result per
//! bucket whose record count satisfies the configured comparison.
//!
//! Window boundaries are derived from each record's timestamp truncated to
//! the window length, anchored at the first record seen for the record's
//! grouping key. A record whose timestamp precedes its key's anchor (records
//! need not arrive in timestamp order) falls into the anchor's own window.
//! Only buckets anchored by at least one observed record exist, so a strict
//! `count == 0` clause is never satisfiable by this pass: a known limitation,
//! not silently corrected.

use vstd::prelude::*;
use crate::strutil::{str_eq, u64_to_dec, dec_str};

verus! {

/// The comparison operator of an aggregation clause.
#[derive(Clone, Copy, Debug, PartialEq, Eq, Structural)]
pub enum AggCompareOp {
    Gt,
    Ge,
    EqOp,
    Lt,
    Le,
}

/// Whether `count op threshold` holds.
pub open spec fn cmp_holds(op: AggCompareOp, count: nat, threshold: u64) -> bool {
    match op {
        AggCompareOp::Gt => count > threshold,
        AggCompareOp::Ge => count >= threshold,
        AggCompareOp::EqOp => count == threshold,
        AggCompareOp::Lt => count < threshold,
        AggCompareOp::Le => count <= threshold,
    }
}

/// The textual label of a comparison operator.
pub open spec fn op_label_spec(op: AggCompareOp) -> Seq<char> {
    match op {
        AggCompareOp::Gt => ">"@,
        AggCompareOp::Ge => ">="@,
        AggCompareOp::EqOp => "=="@,
        AggCompareOp::Lt => "<"@,
        AggCompareOp::Le => "<="@,
    }
}

/// The count-condition label of an aggregation clause, e.g. `">= 5"`.
pub open spec fn cond_label_spec(op: AggCompareOp, threshold: u64) -> Seq<char> {
    op_label_spec(op) + " "@ + dec_str(threshold as nat)
}

/// An aggregation clause: a count threshold with its comparison operator,
/// an optional grouping field, and a time window.
pub struct AggregationSpec {
    /// The field named inside `count(...)` in the synthesized message.
    pub count_field: String,
    /// The optional grouping field (the `by` clause).
    pub by_field: Option<String>,
    /// The comparison operator applied to each bucket's count.
    pub op: AggCompareOp,
    /// The count threshold.
    pub threshold: u64,
    /// The window length label as written in the rule, e.g. "5m".
    pub timeframe: String,
    /// The window length in seconds.
    pub window_seconds: u64,
}

impl AggregationSpec {
    /// A window must have positive length.
    pub open spec fn wf(&self) -> bool {
        self.window_seconds >= 1
    }
}

/// One record registered into a rule's grouped match state.
pub struct AggRecordEntry {
    /// The grouping key derived from the record.
    pub key: String,
    /// The record's timestamp in seconds.
    pub timestamp: u64,
    /// The record's source file path.
    pub filepath: String,
}

/// One emitted aggregation decision.
#[derive(Debug)]
pub struct AggResult {
    /// The grouping key of the satisfied bucket.
    pub key: String,
    /// The start timestamp of the satisfied window.
    pub start_timedate: u64,
    /// The count-condition operator label, e.g. `">= 5"`.
    pub condition_op_num: String,
    /// Source path of the record that opened the bucket.
    pub filepath: String,
}

/// The entries as plain values: (key, timestamp, source path).
pub open spec fn entry_views(entries: Seq<AggRecordEntry>) -> Seq<(Seq<char>, u64, Seq<char>)> {
    entries.map_values(|e: AggRecordEntry| (e.key@, e.timestamp, e.filepath@))
}

/// The timestamp of the first entry carrying `key`: the anchor of that key's
/// series of windows.
pub open spec fn key_anchor(entries: Seq<AggRecordEntry>, key: Seq<char>) -> Option<u64>
    decreases entries.len(),
{
    if entries.len() == 0 {
        None
    } else if entries[0].key@ == key {
        Some(entries[0].timestamp)
    } else {
        key_anchor(entries.drop_first(), key)
    }
}

/// The window index of a record with timestamp `ts` in the series anchored at
/// `anchor`: elapsed time truncated to whole windows; timestamps before the
/// anchor fall into window 0.
pub open spec fn window_index(ts: u64, anchor: u64, window_seconds: u64) -> int {
    if ts <= anchor {
        0
    } else {
        (ts - anchor) / (window_seconds as int)
    }
}

/// The window index of entry `i` within its own key's series.
pub open spec fn entry_window(entries: Seq<AggRecordEntry>, w: u64, i: int) -> int {
    window_index(entries[i].timestamp, key_anchor(entries, entries[i].key@).unwrap(), w)
}

/// Entry `i` belongs to the bucket (key, widx).
pub open spec fn in_bucket(
    entries: Seq<AggRecordEntry>,
    w: u64,
    key: Seq<char>,
    widx: int,
    i: int,
) -> bool {
    entries[i].key@ == key && entry_window(entries, w, i) == widx
}

/// How many of the first `n` entries belong to the bucket (key, widx).
pub open spec fn bucket_count_upto(
    entries: Seq<AggRecordEntry>,
    w: u64,
    key: Seq<char>,
    widx: int,
    n: int,
) -> nat
    decreases n,
{
    if n <= 0 {
        0
    } else {
        bucket_count_upto(entries, w, key, widx, n - 1) + if in_bucket(
            entries,
            w,
            key,
            widx,
            n - 1,
        ) {
            1nat
        } else {
            0nat
        }
    }
}

/// How many entries belong to the bucket (key, widx).
pub open spec fn bucket_count(entries: Seq<AggRecordEntry>, w: u64, key: Seq<char>, widx: int)
    -> nat {
    bucket_count_upto(entries, w, key, widx, entries.len() as int)
}

/// Entry `i` is the first entry of its bucket.
pub open spec fn is_bucket_leader(entries: Seq<AggRecordEntry>, w: u64, i: int) -> bool {
    &&& 0 <= i < entries.len()
    &&& forall|j: int|
        0 <= j < i ==> !in_bucket(entries, w, entries[i].key@, entry_window(entries, w, i), j)
}

/// The window start of entry `i`: its key's anchor advanced by whole windows.
pub open spec fn entry_window_start(entries: Seq<AggRecordEntry>, w: u64, i: int) -> int {
    key_anchor(entries, entries[i].key@).unwrap() + entry_window(entries, w, i) * w
}

/// The satisfied buckets among those opened by the first `n` entries, in the
/// order their first entries appear: (key, window start, source path).
pub open spec fn satisfied_buckets_upto(
    entries: Seq<AggRecordEntry>,
    w: u64,
    op: AggCompareOp,
    threshold: u64,
    n: int,
) -> Seq<(Seq<char>, int, Seq<char>)>
    decreases n,
{
    if n <= 0 {
        Seq::empty()
    } else {
        satisfied_buckets_upto(entries, w, op, threshold, n - 1) + if is_bucket_leader(
            entries,
            w,
            n - 1,
        ) && cmp_holds(
            op,
            bucket_count(entries, w, entries[n - 1].key@, entry_window(entries, w, n - 1)),
            threshold,
        ) {
            seq![(entries[n - 1].key@, entry_window_start(entries, w, n - 1), entries[n - 1].filepath@)]
        } else {
            Seq::empty()
        }
    }
}

/// The satisfied buckets of the whole entry sequence.
pub open spec fn satisfied_buckets(
    entries: Seq<AggRecordEntry>,
    w: u64,
    op: AggCompareOp,
    threshold: u64,
) -> Seq<(Seq<char>, int, Seq<char>)> {
    satisfied_buckets_upto(entries, w, op, threshold, entries.len() as int)
}

/// How many of the results carry the given key and window start.
pub open spec fn results_for_bucket(
    results: Seq<(Seq<char>, int, Seq<char>)>,
    key: Seq<char>,
    start: int,
) -> nat
    decreases results.len(),
{
    if results.len() == 0 {
        0
    } else {
        results_for_bucket(results.drop_last(), key, start) + if results.last().0 == key
            && results.last().1 == start {
            1nat
        } else {
            0nat
        }
    }
}

/// Every bucket that holds an entry has a leader: a first entry.
proof fn lemma_bucket_has_leader(entries: Seq<AggRecordEntry>, w: u64, i: int)
    requires
        0 <= i < entries.len(),
    ensures
        exists|l: int|
            0 <= l <= i && #[trigger] is_bucket_leader(entries, w, l) && entries[l].key@
                == entries[i].key@ && entry_window(entries, w, l) == entry_window(entries, w, i),
    decreases i,
{
    if is_bucket_leader(entries, w, i) {
        assert(is_bucket_leader(entries, w, i));
    } else {
        let j = choose|j: int|
            0 <= j < i && in_bucket(entries, w, entries[i].key@, entry_window(entries, w, i), j);
        lemma_bucket_has_leader(entries, w, j);
    }
}

/// Two leaders of the same bucket are the same entry.
proof fn lemma_leader_unique(entries: Seq<AggRecordEntry>, w: u64, l1: int, l2: int)
    requires
        is_bucket_leader(entries, w, l1),
        is_bucket_leader(entries, w, l2),
        entries[l1].key@ == entries[l2].key@,
        entry_window(entries, w, l1) == entry_window(entries, w, l2),
    ensures
        l1 == l2,
{
    if l1 < l2 {
        assert(in_bucket(entries, w, entries[l2].key@, entry_window(entries, w, l2), l1));
    } else if l2 < l1 {
        assert(in_bucket(entries, w, entries[l1].key@, entry_window(entries, w, l1), l2));
    }
}

/// Among the buckets opened by the first `n` entries, the bucket
/// (key, widx) has one result exactly when one of those entries leads it
/// and its count satisfies the comparison.
proof fn lemma_threshold_upto(
    entries: Seq<AggRecordEntry>,
    w: u64,
    op: AggCompareOp,
    threshold: u64,
    key: Seq<char>,
    widx: int,
    n: int,
)
    requires
        w >= 1,
        0 <= n <= entries.len(),
        key_anchor(entries, key) is Some,
        widx >= 0,
    ensures
        results_for_bucket(
            satisfied_buckets_upto(entries, w, op, threshold, n),
            key,
            key_anchor(entries, key).unwrap() + widx * w,
        ) == if (exists|l: int|
            0 <= l < n && #[trigger] is_bucket_leader(entries, w, l) && entries[l].key@ == key
                && entry_window(entries, w, l) == widx) && cmp_holds(
            op,
            bucket_count(entries, w, key, widx),
            threshold,
        ) {
            1nat
        } else {
            0nat
        },
    decreases n,
{
    let anchor = key_anchor(entries, key).unwrap();
    let start = anchor + widx * w;
    if n > 0 {
        lemma_threshold_upto(entries, w, op, threshold, key, widx, n - 1);
        let m = n - 1;
        let prev = satisfied_buckets_upto(entries, w, op, threshold, n - 1);
        if is_bucket_leader(entries, w, m) && cmp_holds(
            op,
            bucket_count(entries, w, entries[m].key@, entry_window(entries, w, m)),
            threshold,
        ) {
            // one tuple is appended; it belongs to our bucket or to another
            let t = (entries[m].key@, entry_window_start(entries, w, m), entries[m].filepath@);
            assert(satisfied_buckets_upto(entries, w, op, threshold, n) == prev + seq![t]);
            assert((prev + seq![t]).drop_last() =~= prev);
            assert((prev + seq![t]).last() == t);
            if entries[m].key@ == key && entry_window(entries, w, m) == widx {
                assert(t.1 == start);
                assert forall|l: int|
                    0 <= l < m && #[trigger] is_bucket_leader(entries, w, l) && entries[l].key@
                        == key && entry_window(entries, w, l) == widx implies false by {
                    lemma_leader_unique(entries, w, l, m);
                }
            } else {
                // a tuple of another bucket never counts for ours
                if entries[m].key@ == key {
                    let wm = entry_window(entries, w, m);
                    assert(wm >= 0);
                    assert(wm != widx);
                    assert(wm * w != widx * w) by (nonlinear_arith)
                        requires
                            w >= 1,
                            wm != widx,
                    ;
                    assert(t.1 != start);
                } else {
                    assert(t.0 != key);
                }
            }
        } else {
            assert(satisfied_buckets_upto(entries, w, op, threshold, n) == prev
                + Seq::<(Seq<char>, int, Seq<char>)>::empty());
            assert(prev + Seq::<(Seq<char>, int, Seq<char>)>::empty() =~= prev);
        }
    }
}

/// The aggregation threshold boundary: a bucket that at least one record
/// opened yields exactly one result when its record count satisfies the
/// comparison, and none when it does not. In particular, with a `>= 3`
/// threshold a bucket of two matches emits nothing and a bucket of three
/// emits exactly one result.
pub proof fn lemma_threshold_boundary(
    entries: Seq<AggRecordEntry>,
    w: u64,
    op: AggCompareOp,
    threshold: u64,
    i: int,
)
    requires
        w >= 1,
        0 <= i < entries.len(),
    ensures
        results_for_bucket(
            satisfied_buckets(entries, w, op, threshold),
            entries[i].key@,
            key_anchor(entries, entries[i].key@).unwrap() + entry_window(entries, w, i) * w,
        ) == if cmp_holds(
            op,
            bucket_count(entries, w, entries[i].key@, entry_window(entries, w, i)),
            threshold,
        ) {
            1nat
        } else {
            0nat
        },
{
    let key = entries[i].key@;
    let widx = entry_window(entries, w, i);
    lemma_key_anchor_some(entries, key, i);
    lemma_bucket_has_leader(entries, w, i);
    lemma_threshold_upto(entries, w, op, threshold, key, widx, entries.len() as int);
}

/// An anchor lookup reads the entries only as plain values.
proof fn lemma_anchor_view_congruence(
    e1: Seq<AggRecordEntry>,
    e2: Seq<AggRecordEntry>,
    key: Seq<char>,
)
    requires
        entry_views(e1) == entry_views(e2),
    ensures
        key_anchor(e1, key) == key_anchor(e2, key),
    decreases e1.len(),
{
    assert(entry_views(e1).len() == e1.len());
    assert(entry_views(e2).len() == e2.len());
    if e1.len() > 0 {
        assert(entry_views(e1)[0] == entry_views(e2)[0]);
        assert(entry_views(e1.drop_first()) =~= entry_views(e2.drop_first())) by {
            assert forall|i: int| 0 <= i < e1.len() - 1 implies entry_views(e1.drop_first())[i]
                == entry_views(e2.drop_first())[i] by {
                assert(entry_views(e1)[i + 1] == entry_views(e2)[i + 1]);
            }
        }
        lemma_anchor_view_congruence(e1.drop_first(), e2.drop_first(), key);
    }
}

/// An entry's window index reads the entries only as plain values.
proof fn lemma_window_view_congruence(
    e1: Seq<AggRecordEntry>,
    e2: Seq<AggRecordEntry>,
    w: u64,
    i: int,
)
    requires
        entry_views(e1) == entry_views(e2),
        0 <= i < e1.len(),
    ensures
        entry_window(e1, w, i) == entry_window(e2, w, i),
        e1[i].key@ == e2[i].key@,
        e1[i].timestamp == e2[i].timestamp,
        e1[i].filepath@ == e2[i].filepath@,
    decreases e1.len(),
{
    assert(entry_views(e1).len() == e1.len());
    assert(entry_views(e2).len() == e2.len());
    assert(entry_views(e1)[i] == (e1[i].key@, e1[i].timestamp, e1[i].filepath@));
    assert(entry_views(e2)[i] == (e2[i].key@, e2[i].timestamp, e2[i].filepath@));
    assert(entry_views(e1)[i] == entry_views(e2)[i]);
    lemma_anchor_view_congruence(e1, e2, e1[i].key@);
}

/// A bucket's count reads the entries only as plain values.
proof fn lemma_count_view_congruence(
    e1: Seq<AggRecordEntry>,
    e2: Seq<AggRecordEntry>,
    w: u64,
    key: Seq<char>,
    widx: int,
    n: int,
)
    requires
        entry_views(e1) == entry_views(e2),
        0 <= n <= e1.len(),
    ensures
        bucket_count_upto(e1, w, key, widx, n) == bucket_count_upto(e2, w, key, widx, n),
    decreases n,
{
    assert(entry_views(e1).len() == e1.len());
    assert(entry_views(e2).len() == e2.len());
    if n > 0 {
        lemma_count_view_congruence(e1, e2, w, key, widx, n - 1);
        lemma_window_view_congruence(e1, e2, w, n - 1);
    }
}

/// The satisfied buckets depend on the entries only as plain values: the
/// keys, timestamps and source paths determine every aggregation decision.
pub proof fn lemma_buckets_depend_on_views(
    e1: Seq<AggRecordEntry>,
    e2: Seq<AggRecordEntry>,
    w: u64,
    op: AggCompareOp,
    threshold: u64,
)
    requires
        entry_views(e1) == entry_views(e2),
    ensures
        satisfied_buckets(e1, w, op, threshold) == satisfied_buckets(e2, w, op, threshold),
{
    assert(entry_views(e1).len() == e1.len());
    assert(entry_views(e2).len() == e2.len());
    lemma_buckets_upto_view_congruence(e1, e2, w, op, threshold, e1.len() as int);
}

/// As `lemma_buckets_depend_on_views`, over a prefix of the entries.
proof fn lemma_buckets_upto_view_congruence(
    e1: Seq<AggRecordEntry>,
    e2: Seq<AggRecordEntry>,
    w: u64,
    op: AggCompareOp,
    threshold: u64,
    n: int,
)
    requires
        entry_views(e1) == entry_views(e2),
        0 <= n <= e1.len(),
    ensures
        satisfied_buckets_upto(e1, w, op, threshold, n) == satisfied_buckets_upto(
            e2,
            w,
            op,
            threshold,
            n,
        ),
    decreases n,
{
    assert(entry_views(e1).len() == e1.len());
    assert(entry_views(e2).len() == e2.len());
    if n > 0 {
        let m = n - 1;
        lemma_buckets_upto_view_congruence(e1, e2, w, op, threshold, m);
        lemma_window_view_congruence(e1, e2, w, m);
        lemma_anchor_view_congruence(e1, e2, e1[m].key@);
        lemma_count_view_congruence(
            e1,
            e2,
            w,
            e1[m].key@,
            entry_window(e1, w, m),
            e1.len() as int,
        );
        assert(is_bucket_leader(e1, w, m) == is_bucket_leader(e2, w, m)) by {
            assert forall|j: int| 0 <= j < m implies (in_bucket(
                e1,
                w,
                e1[m].key@,
                entry_window(e1, w, m),
                j,
            ) == in_bucket(e2, w, e2[m].key@, entry_window(e2, w, m), j)) by {
                lemma_window_view_congruence(e1, e2, w, j);
            }
        }
    }
}

/// An anchor lookup skips any prefix in which the key does not occur.
proof fn lemma_key_anchor_skip(entries: Seq<AggRecordEntry>, key: Seq<char>, i: int)
    requires
        0 <= i <= entries.len(),
        forall|j: int| 0 <= j < i ==> entries[j].key@ != key,
    ensures
        key_anchor(entries, key) == key_anchor(entries.skip(i), key),
    decreases i,
{
    if i > 0 {
        lemma_key_anchor_skip(entries.drop_first(), key, i - 1);
        assert(entries.drop_first().skip(i - 1) =~= entries.skip(i));
    } else {
        assert(entries.skip(0) =~= entries);
    }
}

/// A key that occurs among the entries has an anchor.
pub proof fn lemma_key_anchor_some(entries: Seq<AggRecordEntry>, key: Seq<char>, i: int)
    requires
        0 <= i < entries.len(),
        entries[i].key@ == key,
    ensures
        key_anchor(entries, key) is Some,
    decreases i,
{
    if entries[0].key@ != key {
        lemma_key_anchor_some(entries.drop_first(), key, i - 1);
    }
}

/// Find the anchor of `key`: the timestamp of the first entry carrying it.
fn find_anchor(entries: &Vec<AggRecordEntry>, key: &String) -> (r: Option<u64>)
    ensures
        r == key_anchor(entries@, key@),
{
    let n = entries.len();
    let mut i: usize = 0;
    while i < n
        invariant
            i <= n,
            n == entries@.len(),
            forall|j: int| 0 <= j < i ==> entries@[j].key@ != key@,
        decreases n - i,
    {
        if str_eq(entries[i].key.as_str(), key.as_str()) {
            proof {
                lemma_key_anchor_skip(entries@, key@, i as int);
                assert(entries@.skip(i as int)[0] == entries@[i as int]);
            }
            return Some(entries[i].timestamp);
        }
        i = i + 1;
    }
    proof {
        lemma_key_anchor_skip(entries@, key@, n as int);
        assert(entries@.skip(n as int).len() == 0);
    }
    None
}

/// The window index of entry `i` within its key's series.
fn window_index_of(entries: &Vec<AggRecordEntry>, w: u64, i: usize) -> (widx: u64)
    requires
        w >= 1,
        i < entries@.len(),
    ensures
        widx as int == entry_window(entries@, w, i as int),
        entry_window(entries@, w, i as int) * w <= u64::MAX - key_anchor(
            entries@,
            entries@[i as int].key@,
        ).unwrap(),
{
    let anchor = match find_anchor(entries, &entries[i].key) {
        Some(a) => a,
        None => {
            proof {
                lemma_key_anchor_some(entries@, entries@[i as int].key@, i as int);
            }
            assert(false);
            0
        },
    };
    let ts = entries[i].timestamp;
    if ts <= anchor {
        0
    } else {
        let widx = (ts - anchor) / w;
        proof {
            assert(widx * w <= ts - anchor) by (nonlinear_arith)
                requires
                    w >= 1,
                    widx == (ts - anchor) as int / w as int,
                    ts > anchor,
            ;
        }
        widx
    }
}

/// The comparison of a bucket count against the threshold.
fn cmp_count(op: AggCompareOp, count: u64, threshold: u64) -> (r: bool)
    ensures
        r == cmp_holds(op, count as nat, threshold),
{
    match op {
        AggCompareOp::Gt => count > threshold,
        AggCompareOp::Ge => count >= threshold,
        AggCompareOp::EqOp => count == threshold,
        AggCompareOp::Lt => count < threshold,
        AggCompareOp::Le => count <= threshold,
    }
}

/// The textual label of a comparison operator.
fn op_label(op: AggCompareOp) -> (r: &'static str)
    ensures
        r@ == op_label_spec(op),
{
    proof {
        reveal_strlit(">");
        reveal_strlit(">=");
        reveal_strlit("==");
        reveal_strlit("<");
        reveal_strlit("<=");
    }
    match op {
        AggCompareOp::Gt => ">",
        AggCompareOp::Ge => ">=",
        AggCompareOp::EqOp => "==",
        AggCompareOp::Lt => "<",
        AggCompareOp::Le => "<=",
    }
}

/// The count-condition label, e.g. `">= 5"`.
pub fn cond_label(op: AggCompareOp, threshold: u64) -> (r: String)
    ensures
        r@ == cond_label_spec(op, threshold),
{
    proof {
        reveal_strlit(" ");
    }
    let mut s = String::from_str(op_label(op));
    s.append(" ");
    let digits = u64_to_dec(threshold);
    s.concat(digits.as_str())
}

/// Is entry `i` the first entry of its bucket?
fn check_leader(entries: &Vec<AggRecordEntry>, w: u64, i: usize, widx: u64) -> (r: bool)
    requires
        w >= 1,
        i < entries@.len(),
        widx as int == entry_window(entries@, w, i as int),
    ensures
        r == is_bucket_leader(entries@, w, i as int),
{
    let mut j: usize = 0;
    while j < i
        invariant
            w >= 1,
            i < entries@.len(),
            j <= i,
            widx as int == entry_window(entries@, w, i as int),
            forall|l: int|
                0 <= l < j ==> !in_bucket(entries@, w, entries@[i as int].key@, widx as int, l),
        decreases i - j,
    {
        if str_eq(entries[j].key.as_str(), entries[i].key.as_str()) {
            let wj = window_index_of(entries, w, j);
            if wj == widx {
                proof {
                    assert(in_bucket(entries@, w, entries@[i as int].key@, widx as int, j as int));
                }
                return false;
            }
        }
        j = j + 1;
    }
    true
}

/// The judged results are exactly the satisfied buckets of `entries` under
/// `sp`, in order, each labelled with the clause's count condition.
pub open spec fn judge_post(
    entries: Seq<AggRecordEntry>,
    sp: AggregationSpec,
    results: Seq<AggResult>,
) -> bool {
    let expected = satisfied_buckets(entries, sp.window_seconds, sp.op, sp.threshold);
    &&& results.len() == expected.len()
    &&& forall|k: int|
        0 <= k < results.len() ==> {
            &&& (#[trigger] results[k]).key@ == expected[k].0
            &&& results[k].start_timedate as int == expected[k].1
            &&& results[k].filepath@ == expected[k].2
            &&& results[k].condition_op_num@ == cond_label_spec(sp.op, sp.threshold)
        }
}

/// Decide every bucket of the accumulated entries: one result per (key,
/// window) bucket whose count satisfies `op threshold`; buckets that fail
/// produce nothing. Results appear in the order the buckets were opened.
pub fn judge_entries(entries: &Vec<AggRecordEntry>, sp: &AggregationSpec) -> (results: Vec<
    AggResult,
>)
    requires
        sp.wf(),
    ensures
        judge_post(entries@, *sp, results@),
{
    let w = sp.window_seconds;
    let n = entries.len();
    let mut results: Vec<AggResult> = Vec::new();
    let mut i: usize = 0;
    while i < n
        invariant
            sp.wf(),
            w == sp.window_seconds,
            i <= n,
            n == entries@.len(),
            ({
                let sofar = satisfied_buckets_upto(entries@, w, sp.op, sp.threshold, i as int);
                &&& results@.len() == sofar.len()
                &&& forall|k: int|
                    0 <= k < results@.len() ==> {
                        &&& (#[trigger] results@[k]).key@ == sofar[k].0
                        &&& results@[k].start_timedate as int == sofar[k].1
                        &&& results@[k].filepath@ == sofar[k].2
                        &&& results@[k].condition_op_num@ == cond_label_spec(sp.op, sp.threshold)
                    }
            }),
        decreases n - i,
    {
        let widx = window_index_of(entries, w, i);
        if check_leader(entries, w, i, widx) {
            // Count the bucket's entries over the whole sequence.
            let mut cnt: u64 = 0;
            let mut k: usize = 0;
            while k < n
                invariant
                    i < n,
                    n == entries@.len(),
                    w >= 1,
                    k <= n,
                    cnt as int <= k as int,
                    widx as int == entry_window(entries@, w, i as int),
                    cnt as nat == bucket_count_upto(
                        entries@,
                        w,
                        entries@[i as int].key@,
                        widx as int,
                        k as int,
                    ),
                decreases n - k,
            {
                if str_eq(entries[k].key.as_str(), entries[i].key.as_str()) {
                    let wk = window_index_of(entries, w, k);
                    if wk == widx {
                        cnt = cnt + 1;
                    }
                }
                k = k + 1;
            }
            if cmp_count(sp.op, cnt, sp.threshold) {
                let anchor = match find_anchor(entries, &entries[i].key) {
                    Some(a) => a,
                    None => {
                        proof {
                            lemma_key_anchor_some(entries@, entries@[i as int].key@, i as int);
                        }
                        assert(false);
                        0
                    },
                };
                let start = anchor + widx * w;
                results.push(AggResult {
                    key: entries[i].key.clone(),
                    start_timedate: start,
                    condition_op_num: cond_label(sp.op, sp.threshold),
                    filepath: entries[i].filepath.clone(),
                });
            }
        }
        i = i + 1;
    }
    results
}

} // verus!
