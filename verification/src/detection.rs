//! The rule-execution scheduler and alert formatting. `execute_rule` runs one
//! rule's unit of work over the whole record batch; `execute_rules` runs every
//! rule's unit and reassembles the rule collection in its original order, so
//! callers that fan the units out concurrently get the same result content.
//! Aggregation alerts are added in a post pass, and `count_unique_results`
//! reduces the final rule states to per-severity unique counts.

use vstd::prelude::*;
use crate::record::{EvtxRecordInfo, field_value, get_field_value};
use crate::rule::{RuleNode, derive_key_spec, has_detection};
use crate::selection::eval_node;
use crate::message::{MessageSink, AlertView, alert_views};
use crate::agg::{AggResult, entry_views, cond_label_spec};
use crate::severity::{Severity, severity_of};

verus! {

/// The alert a direct match of `rule` on `rec` emits: host and event
/// identifier populated from the record (or "-" when absent), severity from
/// the rule's level (or "-" when empty).
pub open spec fn direct_alert_view(rule: RuleNode, rec: EvtxRecordInfo) -> AlertView {
    AlertView {
        evtx_filepath: rec.evtx_filepath@,
        rulepath: rule.rulepath@,
        detected_time: rec.record.timestamp,
        level: if rule.level@.len() == 0 {
            "-"@
        } else {
            rule.level@
        },
        computer: match field_value(rec.record.fields@, "Event.System.Computer"@) {
            Some(v) => v,
            None => "-"@,
        },
        eventid: match field_value(rec.record.fields@, "Event.System.EventID"@) {
            Some(v) => v,
            None => "-"@,
        },
        title: rule.title@,
        detail: rule.output@,
    }
}

/// The alerts a non-aggregating rule emits over a record batch, in batch
/// order: one per matching record.
pub open spec fn direct_alert_views(rule: RuleNode, records: Seq<EvtxRecordInfo>) -> Seq<
    AlertView,
>
    decreases records.len(),
{
    if records.len() == 0 {
        Seq::empty()
    } else {
        direct_alert_views(rule, records.drop_last()) + if eval_node(
            rule.selection,
            records.last().record.fields@,
        ) {
            seq![direct_alert_view(rule, records.last())]
        } else {
            Seq::empty()
        }
    }
}

/// The records of the batch that match the rule's selection tree, in batch
/// order.
pub open spec fn matched_records(rule: RuleNode, records: Seq<EvtxRecordInfo>) -> Seq<
    EvtxRecordInfo,
>
    decreases records.len(),
{
    if records.len() == 0 {
        Seq::empty()
    } else {
        matched_records(rule, records.drop_last()) + if eval_node(
            rule.selection,
            records.last().record.fields@,
        ) {
            seq![records.last()]
        } else {
            Seq::empty()
        }
    }
}

/// How many records of the batch match the rule's selection tree.
pub open spec fn matched_count(rule: RuleNode, records: Seq<EvtxRecordInfo>) -> nat
    decreases records.len(),
{
    if records.len() == 0 {
        0
    } else {
        matched_count(rule, records.drop_last()) + if eval_node(
            rule.selection,
            records.last().record.fields@,
        ) {
            1nat
        } else {
            0nat
        }
    }
}

/// The grouped entries (key, timestamp, source path) an aggregating rule
/// registers over a record batch, in batch order: one per matching record.
pub open spec fn matched_entry_views(rule: RuleNode, records: Seq<EvtxRecordInfo>) -> Seq<
    (Seq<char>, u64, Seq<char>),
>
    decreases records.len(),
{
    if records.len() == 0 {
        Seq::empty()
    } else {
        matched_entry_views(rule, records.drop_last()) + if eval_node(
            rule.selection,
            records.last().record.fields@,
        ) {
            seq![
                (
                    derive_key_spec(rule.aggregation.unwrap(), records.last().record.fields@),
                    records.last().record.timestamp,
                    records.last().evtx_filepath@,
                ),
            ]
        } else {
            Seq::empty()
        }
    }
}

/// How one rule's unit of work transforms that rule's state: everything but
/// the accumulated match state is kept; a non-aggregating rule adds one
/// direct alert per match to its tally, an aggregating rule registers one
/// grouped entry per match. The relation mentions only this rule and the
/// record batch: no other rule's state occurs in it.
pub open spec fn executed_rule_ok(
    pre: RuleNode,
    post: RuleNode,
    records: Seq<EvtxRecordInfo>,
) -> bool {
    &&& post.rulepath == pre.rulepath
    &&& post.level == pre.level
    &&& post.title == pre.title
    &&& post.output == pre.output
    &&& post.selection == pre.selection
    &&& post.aggregation == pre.aggregation
    &&& post.duration_ms == pre.duration_ms
    &&& if pre.aggregation is Some {
        &&& entry_views(post.countdata@) == entry_views(pre.countdata@) + matched_entry_views(
            pre,
            records,
        )
        &&& post.detect_count == pre.detect_count
    } else {
        &&& post.countdata == pre.countdata
        &&& post.detect_count == pre.detect_count + matched_count(pre, records)
    }
}

/// The alerts one rule's unit of work sends to the sink: a non-aggregating
/// rule emits its direct alerts, an aggregating rule emits nothing yet.
pub open spec fn rule_alert_views(rule: RuleNode, records: Seq<EvtxRecordInfo>) -> Seq<
    AlertView,
> {
    if rule.aggregation is Some {
        Seq::empty()
    } else {
        direct_alert_views(rule, records)
    }
}

/// The alert stream of a whole run, rules processed in their given order.
pub open spec fn run_alert_views(rules: Seq<RuleNode>, records: Seq<EvtxRecordInfo>) -> Seq<
    AlertView,
>
    decreases rules.len(),
{
    if rules.len() == 0 {
        Seq::empty()
    } else {
        run_alert_views(rules.drop_last(), records) + rule_alert_views(rules.last(), records)
    }
}

/// The synthesized message body of an aggregation alert:
/// `count(<field>) [by <field> ]<operator> <threshold> in <timeframe>.`
pub open spec fn count_output_spec(
    count_field: Seq<char>,
    by_field: Option<Seq<char>>,
    cond: Seq<char>,
    timeframe: Seq<char>,
) -> Seq<char> {
    "count("@ + count_field + ") "@ + (match by_field {
        Some(b) => "by "@ + b + " "@,
        None => Seq::empty(),
    }) + cond + " in "@ + timeframe + "."@
}

/// The alert an aggregating rule emits for one satisfied bucket
/// `t = (key, window start, source path)`: a window summary, so host and
/// event identifier carry the sentinel "-".
pub open spec fn agg_alert_view(rule: RuleNode, t: (Seq<char>, int, Seq<char>)) -> AlertView {
    AlertView {
        evtx_filepath: t.2,
        rulepath: rule.rulepath@,
        detected_time: t.1 as u64,
        level: if rule.level@.len() == 0 {
            "-"@
        } else {
            rule.level@
        },
        computer: "-"@,
        eventid: "-"@,
        title: rule.title@,
        detail: count_output_spec(
            rule.aggregation.unwrap().count_field@,
            match rule.aggregation.unwrap().by_field {
                Some(b) => Some(b@),
                None => None,
            },
            cond_label_spec(rule.aggregation.unwrap().op, rule.aggregation.unwrap().threshold),
            rule.aggregation.unwrap().timeframe@,
        ),
    }
}

/// The aggregation alerts one rule emits in the post pass: one per satisfied
/// bucket of its accumulated match state.
pub open spec fn agg_rule_alert_views(rule: RuleNode) -> Seq<AlertView> {
    match rule.aggregation {
        Some(sp) => crate::agg::satisfied_buckets(
            rule.countdata@,
            sp.window_seconds,
            sp.op,
            sp.threshold,
        ).map_values(|t: (Seq<char>, int, Seq<char>)| agg_alert_view(rule, t)),
        None => Seq::empty(),
    }
}

/// The aggregation alerts of the whole rule collection, in rule order.
pub open spec fn agg_alert_views_all(rules: Seq<RuleNode>) -> Seq<AlertView>
    decreases rules.len(),
{
    if rules.len() == 0 {
        Seq::empty()
    } else {
        agg_alert_views_all(rules.drop_last()) + agg_rule_alert_views(rules.last())
    }
}

/// How many of the first `n` rules produced at least one alert and carry the
/// given severity.
pub open spec fn unique_count_upto(rules: Seq<RuleNode>, sev: Severity, n: int) -> nat
    decreases n,
{
    if n <= 0 {
        0
    } else {
        unique_count_upto(rules, sev, n - 1) + if has_detection(rules[n - 1]) && severity_of(
            rules[n - 1].level@,
        ) == sev {
            1nat
        } else {
            0nat
        }
    }
}

/// How many rules produced at least one alert and carry the given severity:
/// each rule counts at most once, however many alerts it produced.
pub open spec fn unique_count(rules: Seq<RuleNode>, sev: Severity) -> nat {
    unique_count_upto(rules, sev, rules.len() as int)
}

/// A rule without an aggregation clause emits exactly one alert per matching
/// record, in batch order: its alert stream is the matching records mapped
/// each to its direct alert, whose host and event identifier come from the
/// record itself.
pub proof fn lemma_one_alert_per_match(rule: RuleNode, records: Seq<EvtxRecordInfo>)
    ensures
        direct_alert_views(rule, records) == matched_records(rule, records).map_values(
            |rec: EvtxRecordInfo| direct_alert_view(rule, rec),
        ),
        direct_alert_views(rule, records).len() == matched_count(rule, records),
    decreases records.len(),
{
    if records.len() > 0 {
        lemma_one_alert_per_match(rule, records.drop_last());
        assert(direct_alert_views(rule, records) =~= matched_records(rule, records).map_values(
            |rec: EvtxRecordInfo| direct_alert_view(rule, rec),
        ));
    } else {
        assert(direct_alert_views(rule, records) =~= matched_records(rule, records).map_values(
            |rec: EvtxRecordInfo| direct_alert_view(rule, rec),
        ));
    }
}

/// No cross-rule leakage: in one batch run, each rule's resulting match
/// state is determined by that rule's own prior state and the shared record
/// batch alone. Two slots of the collection holding the same rule end with
/// the same direct-match tally, the same grouped entries (keys, timestamps
/// and source paths) and the same aggregation alerts, however every other
/// rule matched.
pub proof fn lemma_no_cross_rule_leakage(
    pre: Seq<RuleNode>,
    post: Seq<RuleNode>,
    records: Seq<EvtxRecordInfo>,
    i: int,
    j: int,
)
    requires
        pre.len() == post.len(),
        forall|k: int| 0 <= k < pre.len() ==> executed_rule_ok(pre[k], #[trigger] post[k], records),
        0 <= i < pre.len(),
        0 <= j < pre.len(),
        pre[i] == pre[j],
    ensures
        post[i].detect_count == post[j].detect_count,
        entry_views(post[i].countdata@) == entry_views(post[j].countdata@),
        agg_rule_alert_views(post[i]) == agg_rule_alert_views(post[j]),
{
    assert(executed_rule_ok(pre[i], post[i], records));
    assert(executed_rule_ok(pre[j], post[j], records));
    match pre[i].aggregation {
        Some(sp) => {
            crate::agg::lemma_buckets_depend_on_views(
                post[i].countdata@,
                post[j].countdata@,
                sp.window_seconds,
                sp.op,
                sp.threshold,
            );
            let buckets = crate::agg::satisfied_buckets(
                post[i].countdata@,
                sp.window_seconds,
                sp.op,
                sp.threshold,
            );
            assert(agg_rule_alert_views(post[i]) =~= agg_rule_alert_views(post[j])) by {
                assert forall|k: int| 0 <= k < buckets.len() implies agg_alert_view(
                    post[i],
                    buckets[k],
                ) == agg_alert_view(post[j], buckets[k]) by {}
            }
        },
        None => {},
    }
}

/// Removing one rule from the collection removes exactly that rule's alert
/// block from the run's stream, up to multiset equality.
proof fn lemma_run_alert_views_remove(
    rules: Seq<RuleNode>,
    records: Seq<EvtxRecordInfo>,
    i: int,
)
    requires
        0 <= i < rules.len(),
    ensures
        run_alert_views(rules, records).to_multiset() == run_alert_views(
            rules.remove(i),
            records,
        ).to_multiset().add(rule_alert_views(rules[i], records).to_multiset()),
    decreases rules.len(),
{
    broadcast use vstd::seq_lib::group_to_multiset_ensures;

    let last = rules.len() - 1;
    vstd::seq_lib::lemma_multiset_commutative(
        run_alert_views(rules.drop_last(), records),
        rule_alert_views(rules.last(), records),
    );
    if i == last {
        assert(rules.remove(i) =~= rules.drop_last());
    } else {
        let r2 = rules.remove(i);
        assert(r2.drop_last() =~= rules.drop_last().remove(i));
        assert(r2.last() == rules.last());
        lemma_run_alert_views_remove(rules.drop_last(), records, i);
        vstd::seq_lib::lemma_multiset_commutative(
            run_alert_views(r2.drop_last(), records),
            rule_alert_views(r2.last(), records),
        );
        assert(run_alert_views(rules.drop_last(), records).to_multiset().add(
            rule_alert_views(rules.last(), records).to_multiset(),
        ) =~= run_alert_views(r2, records).to_multiset().add(
            rule_alert_views(rules[i], records).to_multiset(),
        ));
    }
}

/// Determinism of alert content: the run's alert stream is a function of the
/// rule collection and the record batch; processing the rules in any other
/// order permutes the stream but keeps the same multiset of alerts, so the
/// interleaving of the per-rule units never changes what is detected.
pub proof fn lemma_deterministic_alert_content(
    rules1: Seq<RuleNode>,
    rules2: Seq<RuleNode>,
    records: Seq<EvtxRecordInfo>,
)
    requires
        rules1.to_multiset() == rules2.to_multiset(),
    ensures
        run_alert_views(rules1, records).to_multiset() == run_alert_views(
            rules2,
            records,
        ).to_multiset(),
    decreases rules1.len(),
{
    broadcast use vstd::seq_lib::group_to_multiset_ensures;

    assert(rules1.to_multiset().len() == rules1.len());
    assert(rules2.to_multiset().len() == rules2.len());
    if rules1.len() == 0 {
        assert(rules2.len() == 0);
    } else {
        let x = rules1.last();
        let last = rules1.len() - 1;
        assert(rules1.to_multiset().count(x) > 0) by {
            assert(rules1.contains(x));
        }
        assert(rules2.contains(x));
        let j = choose|j: int| 0 <= j < rules2.len() && rules2[j] == x;
        assert(rules1.drop_last() =~= rules1.remove(last));
        assert(rules1.remove(last).to_multiset() == rules1.to_multiset().remove(x));
        assert(rules2.remove(j).to_multiset() == rules2.to_multiset().remove(x));
        lemma_deterministic_alert_content(rules1.drop_last(), rules2.remove(j), records);
        lemma_run_alert_views_remove(rules2, records, j);
        vstd::seq_lib::lemma_multiset_commutative(
            run_alert_views(rules1.drop_last(), records),
            rule_alert_views(x, records),
        );
    }
}

/// Rule-level uniqueness: a rule contributes to its severity's unique count
/// only through whether it produced any alert at all, never through how many
/// alerts it produced. Two rule collections that agree pointwise on severity
/// and on having a detection have equal unique counts.
pub proof fn lemma_rule_level_uniqueness(
    rules1: Seq<RuleNode>,
    rules2: Seq<RuleNode>,
    sev: Severity,
    n: int,
)
    requires
        rules1.len() == rules2.len(),
        forall|i: int|
            0 <= i < rules1.len() ==> (has_detection(#[trigger] rules1[i]) == has_detection(
                rules2[i],
            ) && severity_of(rules1[i].level@) == severity_of(rules2[i].level@)),
        0 <= n <= rules1.len(),
    ensures
        unique_count_upto(rules1, sev, n) == unique_count_upto(rules2, sev, n),
    decreases n,
{
    if n > 0 {
        lemma_rule_level_uniqueness(rules1, rules2, sev, n - 1);
    }
}

/// Addition on the load tally, saturating at the counter's maximum.
pub open spec fn sat_add_u128(a: int, b: int) -> int {
    if a + b > u128::MAX {
        u128::MAX as int
    } else {
        a + b
    }
}

/// The grand total of the rule-load report over the first `n` per-level
/// counts, starting from the error and ignore tallies.
pub open spec fn load_total_upto(
    rc: Seq<(String, u128)>,
    parseerror_count: u128,
    ignore_count: u128,
    n: int,
) -> int
    decreases n,
{
    if n <= 0 {
        sat_add_u128(parseerror_count as int, ignore_count as int)
    } else {
        sat_add_u128(
            load_total_upto(rc, parseerror_count, ignore_count, n - 1),
            rc[n - 1].1 as int,
        )
    }
}

/// The engine over one loaded rule collection.
pub struct Detection {
    pub rules: Vec<RuleNode>,
}

impl Detection {
    pub fn new(rules: Vec<RuleNode>) -> (r: Detection)
        ensures
            r.rules == rules,
    {
        Detection { rules }
    }

    /// Run one rule's unit of work: evaluate every record of the batch in
    /// order; each match of a non-aggregating rule immediately formats and
    /// enqueues an alert, each match of an aggregating rule is registered
    /// into the rule's grouped state instead.
    pub fn execute_rule(rule: RuleNode, records: &Vec<EvtxRecordInfo>, sink: &mut MessageSink)
        -> (r: RuleNode)
        requires
            rule.wf(),
            old(sink).wf(),
            rule.detect_count + records@.len() <= u64::MAX,
        ensures
            r.wf(),
            final(sink).wf(),
            executed_rule_ok(rule, r, records@),
            alert_views(final(sink).alerts@) == alert_views(old(sink).alerts@)
                + rule_alert_views(rule, records@),
    {
        let ghost rule0 = rule;
        let mut rule = rule;
        let agg_condition = rule.has_agg_condition();
        let n = records.len();
        let mut i: usize = 0;
        while i < n
            invariant
                rule.wf(),
                sink.wf(),
                n == records@.len(),
                i <= n,
                rule0.detect_count + n <= u64::MAX,
                agg_condition == (rule0.aggregation is Some),
                rule.rulepath == rule0.rulepath,
                rule.level == rule0.level,
                rule.title == rule0.title,
                rule.output == rule0.output,
                rule.selection == rule0.selection,
                rule.aggregation == rule0.aggregation,
                rule.duration_ms == rule0.duration_ms,
                rule.detect_count as int <= rule0.detect_count + i,
                agg_condition ==> {
                    &&& entry_views(rule.countdata@) == entry_views(rule0.countdata@)
                        + matched_entry_views(rule0, records@.take(i as int))
                    &&& rule.detect_count == rule0.detect_count
                    &&& alert_views(sink.alerts@) == alert_views(old(sink).alerts@)
                },
                !agg_condition ==> {
                    &&& rule.countdata == rule0.countdata
                    &&& rule.detect_count == rule0.detect_count + matched_count(
                        rule0,
                        records@.take(i as int),
                    )
                    &&& alert_views(sink.alerts@) == alert_views(old(sink).alerts@)
                        + direct_alert_views(rule0, records@.take(i as int))
                },
            decreases n - i,
        {
            let record_info = &records[i];
            let matched = rule.select(&record_info.evtx_filepath, record_info);
            if matched && !agg_condition {
                Detection::insert_message(&rule, record_info, sink);
                rule.detect_count = rule.detect_count + 1;
            }
            proof {
                assert(records@.take(i + 1).drop_last() =~= records@.take(i as int));
                assert(records@.take(i + 1).last() == records@[i as int]);
                if matched && agg_condition {
                    assert(entry_views(rule.countdata@) =~= entry_views(rule0.countdata@)
                        + matched_entry_views(rule0, records@.take(i + 1)));
                }
                if matched && !agg_condition {
                    assert(direct_alert_view(rule0, records@[i as int]) == direct_alert_view(
                        rule,
                        records@[i as int],
                    ));
                    assert(alert_views(sink.alerts@) =~= alert_views(old(sink).alerts@)
                        + direct_alert_views(rule0, records@.take(i + 1)));
                }
                if !matched {
                    if agg_condition {
                        assert(entry_views(rule.countdata@) =~= entry_views(rule0.countdata@)
                            + matched_entry_views(rule0, records@.take(i + 1)));
                    } else {
                        assert(alert_views(sink.alerts@) =~= alert_views(old(sink).alerts@)
                            + direct_alert_views(rule0, records@.take(i + 1)));
                    }
                }
            }
            i = i + 1;
        }
        proof {
            assert(records@.take(n as int) =~= records@);
        }
        rule
    }

    /// Run every rule's unit of work over the shared read-only record batch
    /// and reassemble the rule collection in its original order. The alert
    /// stream is the concatenation of the rules' own streams in that order;
    /// each rule's final state depends on that rule and the batch alone.
    pub fn execute_rules(self, records: &Vec<EvtxRecordInfo>, sink: &mut MessageSink) -> (r:
        Detection)
        requires
            old(sink).wf(),
            forall|i: int| 0 <= i < self.rules@.len() ==> (#[trigger] self.rules@[i]).wf(),
            forall|i: int|
                0 <= i < self.rules@.len() ==> (#[trigger] self.rules@[i]).detect_count
                    + records@.len() <= u64::MAX,
        ensures
            final(sink).wf(),
            r.rules@.len() == self.rules@.len(),
            forall|i: int|
                0 <= i < r.rules@.len() ==> executed_rule_ok(
                    self.rules@[i],
                    #[trigger] r.rules@[i],
                    records@,
                ) && r.rules@[i].wf(),
            alert_views(final(sink).alerts@) == alert_views(old(sink).alerts@) + run_alert_views(
                self.rules@,
                records@,
            ),
    {
        let ghost rules0 = self.rules@;
        let mut rules = self.rules;
        let mut done: Vec<RuleNode> = Vec::new();
        while rules.len() > 0
            invariant
                sink.wf(),
                done@.len() + rules@.len() == rules0.len(),
                rules@ =~= rules0.skip(done@.len() as int),
                forall|i: int| 0 <= i < rules0.len() ==> (#[trigger] rules0[i]).wf(),
                forall|i: int|
                    0 <= i < rules0.len() ==> (#[trigger] rules0[i]).detect_count + records@.len()
                        <= u64::MAX,
                forall|i: int|
                    0 <= i < done@.len() ==> executed_rule_ok(
                        rules0[i],
                        #[trigger] done@[i],
                        records@,
                    ) && done@[i].wf(),
                alert_views(sink.alerts@) == alert_views(old(sink).alerts@) + run_alert_views(
                    rules0.take(done@.len() as int),
                    records@,
                ),
            decreases rules@.len(),
        {
            let ghost k = done@.len() as int;
            let rule = rules.remove(0);
            proof {
                assert(rule == rules0[k]);
                assert(rules@ =~= rules0.skip(k + 1));
            }
            let finished = Detection::execute_rule(rule, records, sink);
            done.push(finished);
            proof {
                assert(rules0.take(k + 1).drop_last() =~= rules0.take(k));
                assert(rules0.take(k + 1).last() == rules0[k]);
                assert(alert_views(sink.alerts@) =~= alert_views(old(sink).alerts@)
                    + run_alert_views(rules0.take(k + 1), records@));
            }
        }
        proof {
            assert(rules0.take(done@.len() as int) =~= rules0);
        }
        Detection { rules: done }
    }

    /// Format and enqueue the alert of one direct match: severity from the
    /// rule (or "-" when its level text is empty), host and event identifier
    /// from the record (or "-" when absent).
    pub fn insert_message(rule: &RuleNode, record_info: &EvtxRecordInfo, sink: &mut MessageSink)
        requires
            rule.rulepath@.len() > 0,
            old(sink).wf(),
        ensures
            final(sink).wf(),
            alert_views(final(sink).alerts@) == alert_views(old(sink).alerts@).push(
                direct_alert_view(*rule, *record_info),
            ),
    {
        proof {
            reveal_strlit("-");
        }
        let level = if rule.level.unicode_len() == 0 {
            String::from_str("-")
        } else {
            rule.level.clone()
        };
        let computer = match get_field_value(&record_info.record.fields, "Event.System.Computer") {
            Some(v) => v,
            None => String::from_str("-"),
        };
        let eventid = match get_field_value(&record_info.record.fields, "Event.System.EventID") {
            Some(v) => v,
            None => String::from_str("-"),
        };
        sink.insert_message(
            record_info.evtx_filepath.clone(),
            rule.rulepath.clone(),
            record_info.record.timestamp,
            level,
            computer,
            eventid,
            rule.title.clone(),
            rule.output.clone(),
        );
        proof {
            assert(alert_views(final(sink).alerts@) =~= alert_views(old(sink).alerts@).push(
                direct_alert_view(*rule, *record_info),
            ));
        }
    }

    /// Synthesize the message body of an aggregation alert from the rule's
    /// aggregation clause and the result's count-condition label.
    pub fn create_count_output(rule: &RuleNode, agg_result: &AggResult) -> (r: String)
        requires
            rule.aggregation is Some,
        ensures
            r@ == count_output_spec(
                rule.aggregation.unwrap().count_field@,
                match rule.aggregation.unwrap().by_field {
                    Some(b) => Some(b@),
                    None => None,
                },
                agg_result.condition_op_num@,
                rule.aggregation.unwrap().timeframe@,
            ),
    {
        proof {
            reveal_strlit("count(");
            reveal_strlit(") ");
            reveal_strlit("by ");
            reveal_strlit(" ");
            reveal_strlit(" in ");
            reveal_strlit(".");
        }
        let sp = match rule.aggregation.as_ref() {
            Some(sp) => sp,
            None => {
                assert(false);
                unreached()
            },
        };
        let mut ret = String::from_str("count(");
        ret.append(sp.count_field.as_str());
        ret.append(") ");
        match &sp.by_field {
            Some(b) => {
                ret.append("by ");
                ret.append(b.as_str());
                ret.append(" ");
            },
            None => {},
        }
        ret.append(agg_result.condition_op_num.as_str());
        ret.append(" in ");
        ret.append(sp.timeframe.as_str());
        ret.append(".");
        proof {
            assert(ret@ =~= count_output_spec(
                rule.aggregation.unwrap().count_field@,
                match rule.aggregation.unwrap().by_field {
                    Some(b) => Some(b@),
                    None => None,
                },
                agg_result.condition_op_num@,
                rule.aggregation.unwrap().timeframe@,
            ));
        }
        ret
    }

    /// Enqueue the alert of one satisfied aggregation bucket: a window
    /// summary, so host and event identifier carry the sentinel "-".
    pub fn insert_agg_message(rule: &RuleNode, agg_result: AggResult, sink: &mut MessageSink)
        requires
            rule.rulepath@.len() > 0,
            rule.aggregation is Some,
            old(sink).wf(),
        ensures
            final(sink).wf(),
            alert_views(final(sink).alerts@) == alert_views(old(sink).alerts@).push(
                (AlertView {
                    evtx_filepath: agg_result.filepath@,
                    rulepath: rule.rulepath@,
                    detected_time: agg_result.start_timedate,
                    level: if rule.level@.len() == 0 {
                        "-"@
                    } else {
                        rule.level@
                    },
                    computer: "-"@,
                    eventid: "-"@,
                    title: rule.title@,
                    detail: count_output_spec(
                        rule.aggregation.unwrap().count_field@,
                        match rule.aggregation.unwrap().by_field {
                            Some(b) => Some(b@),
                            None => None,
                        },
                        agg_result.condition_op_num@,
                        rule.aggregation.unwrap().timeframe@,
                    ),
                }),
            ),
    {
        proof {
            reveal_strlit("-");
        }
        let output = Detection::create_count_output(rule, &agg_result);
        let level = if rule.level.unicode_len() == 0 {
            String::from_str("-")
        } else {
            rule.level.clone()
        };
        sink.insert_message(
            agg_result.filepath,
            rule.rulepath.clone(),
            agg_result.start_timedate,
            level,
            String::from_str("-"),
            String::from_str("-"),
            rule.title.clone(),
            output,
        );
        proof {
            assert(alert_views(final(sink).alerts@) =~= alert_views(old(sink).alerts@).push(
                (AlertView {
                    evtx_filepath: agg_result.filepath@,
                    rulepath: rule.rulepath@,
                    detected_time: agg_result.start_timedate,
                    level: if rule.level@.len() == 0 {
                        "-"@
                    } else {
                        rule.level@
                    },
                    computer: "-"@,
                    eventid: "-"@,
                    title: rule.title@,
                    detail: count_output_spec(
                        rule.aggregation.unwrap().count_field@,
                        match rule.aggregation.unwrap().by_field {
                            Some(b) => Some(b@),
                            None => None,
                        },
                        agg_result.condition_op_num@,
                        rule.aggregation.unwrap().timeframe@,
                    ),
                }),
            ));
        }
    }

    /// Decide one aggregating rule's buckets and enqueue one alert per
    /// satisfied bucket, in the order the buckets were opened.
    fn emit_agg_alerts(rule: &RuleNode, sink: &mut MessageSink)
        requires
            rule.wf(),
            rule.aggregation is Some,
            old(sink).wf(),
        ensures
            final(sink).wf(),
            alert_views(final(sink).alerts@) == alert_views(old(sink).alerts@)
                + agg_rule_alert_views(*rule),
    {
        let mut agg_results = rule.judge_satisfy_aggcondition();
        let ghost all = agg_results@;
        let ghost sp = rule.aggregation.unwrap();
        let total = agg_results.len();
        let mut k: usize = 0;
        while k < total
            invariant
                sink.wf(),
                rule.wf(),
                rule.aggregation is Some,
                k <= total,
                total == all.len(),
                agg_results@ =~= all.skip(k as int),
                sp == rule.aggregation.unwrap(),
                crate::agg::judge_post(rule.countdata@, sp, all),
                alert_views(sink.alerts@) == alert_views(old(sink).alerts@)
                    + agg_rule_alert_views(*rule).take(k as int),
            decreases total - k,
        {
            let value = agg_results.remove(0);
            proof {
                assert(value == all[k as int]);
                assert(agg_results@ =~= all.skip(k + 1));
            }
            Detection::insert_agg_message(rule, value, sink);
            proof {
                let views = agg_rule_alert_views(*rule);
                let buckets = crate::agg::satisfied_buckets(
                    rule.countdata@,
                    sp.window_seconds,
                    sp.op,
                    sp.threshold,
                );
                assert(views[k as int] == agg_alert_view(*rule, buckets[k as int]));
                assert(views.take(k + 1) =~= views.take(k as int).push(views[k as int]));
                assert(alert_views(sink.alerts@) =~= (alert_views(old(sink).alerts@)
                    + views.take(k as int)).push(views[k as int]));
                assert((alert_views(old(sink).alerts@) + views.take(k as int)).push(
                    views[k as int],
                ) =~= alert_views(old(sink).alerts@) + views.take(k + 1));
            }
            k = k + 1;
        }
        proof {
            assert(agg_rule_alert_views(*rule).take(total as int) =~= agg_rule_alert_views(*rule));
        }
    }

    /// The post pass over aggregating rules: decide every rule's buckets and
    /// enqueue one alert per satisfied bucket, rules in their given order.
    pub fn add_aggcondtion_msg(&self, sink: &mut MessageSink)
        requires
            old(sink).wf(),
            forall|i: int| 0 <= i < self.rules@.len() ==> (#[trigger] self.rules@[i]).wf(),
        ensures
            final(sink).wf(),
            alert_views(final(sink).alerts@) == alert_views(old(sink).alerts@)
                + agg_alert_views_all(self.rules@),
    {
        let n = self.rules.len();
        let mut i: usize = 0;
        while i < n
            invariant
                sink.wf(),
                n == self.rules@.len(),
                i <= n,
                forall|l: int| 0 <= l < self.rules@.len() ==> (#[trigger] self.rules@[l]).wf(),
                alert_views(sink.alerts@) == alert_views(old(sink).alerts@) + agg_alert_views_all(
                    self.rules@.take(i as int),
                ),
            decreases n - i,
        {
            let rule = &self.rules[i];
            if rule.has_agg_condition() {
                Detection::emit_agg_alerts(rule, sink);
            }
            proof {
                assert(self.rules@.take(i + 1).drop_last() =~= self.rules@.take(i as int));
                assert(self.rules@.take(i + 1).last() == self.rules@[i as int]);
                assert(alert_views(sink.alerts@) =~= alert_views(old(sink).alerts@)
                    + agg_alert_views_all(self.rules@.take(i + 1)));
            }
            i = i + 1;
        }
        proof {
            assert(self.rules@.take(n as int) =~= self.rules@);
        }
    }

    /// The grand total of the rule-load report: parse errors plus ignored
    /// rules plus every per-level loaded count. The tally saturates instead
    /// of overflowing; the caller prints the lines around it.
    pub fn count_rule_load_total(
        rc: &Vec<(String, u128)>,
        parseerror_count: u128,
        ignore_count: u128,
    ) -> (total: u128)
        ensures
            total as int == load_total_upto(rc@, parseerror_count, ignore_count, rc@.len() as int),
    {
        let mut total: u128 = if ignore_count <= u128::MAX - parseerror_count {
            parseerror_count + ignore_count
        } else {
            u128::MAX
        };
        let n = rc.len();
        let mut i: usize = 0;
        while i < n
            invariant
                i <= n,
                n == rc@.len(),
                total as int == load_total_upto(rc@, parseerror_count, ignore_count, i as int),
            decreases n - i,
        {
            let v = rc[i].1;
            total = if v <= u128::MAX - total {
                total + v
            } else {
                u128::MAX
            };
            i = i + 1;
        }
        total
    }

    /// Reduce the final rule states to per-severity unique counts, reported
    /// from `Critical` down to `Undefined`: a rule counts at most once,
    /// however many alerts it produced.
    pub fn count_unique_results(&self) -> (counts: Vec<u64>)
        requires
            forall|i: int| 0 <= i < self.rules@.len() ==> (#[trigger] self.rules@[i]).wf(),
        ensures
            counts@.len() == 6,
            counts@[0] == unique_count(self.rules@, Severity::Critical),
            counts@[1] == unique_count(self.rules@, Severity::High),
            counts@[2] == unique_count(self.rules@, Severity::Medium),
            counts@[3] == unique_count(self.rules@, Severity::Low),
            counts@[4] == unique_count(self.rules@, Severity::Informational),
            counts@[5] == unique_count(self.rules@, Severity::Undefined),
    {
        let n = self.rules.len();
        let mut c0: u64 = 0;
        let mut c1: u64 = 0;
        let mut c2: u64 = 0;
        let mut c3: u64 = 0;
        let mut c4: u64 = 0;
        let mut c5: u64 = 0;
        let mut i: usize = 0;
        while i < n
            invariant
                n == self.rules@.len(),
                i <= n,
                forall|l: int| 0 <= l < self.rules@.len() ==> (#[trigger] self.rules@[l]).wf(),
                c0 as int <= i,
                c1 as int <= i,
                c2 as int <= i,
                c3 as int <= i,
                c4 as int <= i,
                c5 as int <= i,
                c0 == unique_count_upto(self.rules@, Severity::Critical, i as int),
                c1 == unique_count_upto(self.rules@, Severity::High, i as int),
                c2 == unique_count_upto(self.rules@, Severity::Medium, i as int),
                c3 == unique_count_upto(self.rules@, Severity::Low, i as int),
                c4 == unique_count_upto(self.rules@, Severity::Informational, i as int),
                c5 == unique_count_upto(self.rules@, Severity::Undefined, i as int),
            decreases n - i,
        {
            let rule = &self.rules[i];
            if rule.check_exist_countdata() {
                let sev = Severity::from_level(rule.level.as_str());
                match sev {
                    Severity::Critical => c0 = c0 + 1,
                    Severity::High => c1 = c1 + 1,
                    Severity::Medium => c2 = c2 + 1,
                    Severity::Low => c3 = c3 + 1,
                    Severity::Informational => c4 = c4 + 1,
                    Severity::Undefined => c5 = c5 + 1,
                }
            }
            i = i + 1;
        }
        let mut counts: Vec<u64> = Vec::new();
        counts.push(c0);
        counts.push(c1);
        counts.push(c2);
        counts.push(c3);
        counts.push(c4);
        counts.push(c5);
        counts
    }
}

} // verus!
