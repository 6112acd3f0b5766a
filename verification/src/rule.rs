//! A loaded detection rule and its match state. A rule is immutable after
//! load except for the state its own execution unit accumulates: matched
//! records grouped for aggregation, the direct-match tally, and timing.

use vstd::prelude::*;
use crate::selection::{SelectionNode, eval_node, matches_node};
use crate::agg::{
    AggregationSpec, AggRecordEntry, AggResult, entry_views, judge_entries, judge_post,
    satisfied_buckets,
};
use crate::record::{EvtxRecordInfo, field_value, get_field_value};

verus! {

/// A named detection condition plus severity and optional windowed-count
/// clause, together with the match state accumulated while running it.
pub struct RuleNode {
    /// Unique identifier of the rule: the path of its rule file.
    pub rulepath: String,
    /// The rule's severity level text.
    pub level: String,
    /// The rule's title.
    pub title: String,
    /// The rule's output-message template.
    pub output: String,
    /// The selection condition tree.
    pub selection: SelectionNode,
    /// The optional aggregation clause.
    pub aggregation: Option<AggregationSpec>,
    /// Matched records grouped for aggregation; filled by aggregating rules.
    pub countdata: Vec<AggRecordEntry>,
    /// How many direct-match alerts this rule has produced.
    pub detect_count: u64,
    /// Wall-clock execution time attached by the caller, in milliseconds.
    pub duration_ms: u64,
}

/// The grouping key a record derives under an aggregation clause: the value
/// of the `by` field; a missing field, like an absent `by` clause, groups
/// under the sentinel key "_".
pub open spec fn derive_key_spec(sp: AggregationSpec, fields: Seq<(String, String)>) -> Seq<
    char,
> {
    match sp.by_field {
        Some(f) => match field_value(fields, f@) {
            Some(v) => v,
            None => "_"@,
        },
        None => "_"@,
    }
}

/// Derive the grouping key of a record under an aggregation clause.
pub fn derive_key(sp: &AggregationSpec, fields: &Vec<(String, String)>) -> (r: String)
    ensures
        r@ == derive_key_spec(*sp, fields@),
{
    match &sp.by_field {
        Some(f) => match get_field_value(fields, f.as_str()) {
            Some(v) => v,
            None => String::from_str("_"),
        },
        None => String::from_str("_"),
    }
}

/// Whether a rule has produced at least one alert, direct or aggregated.
pub open spec fn has_detection(rule: RuleNode) -> bool {
    match rule.aggregation {
        Some(sp) => satisfied_buckets(rule.countdata@, sp.window_seconds, sp.op, sp.threshold).len()
            > 0,
        None => rule.detect_count > 0,
    }
}

impl RuleNode {
    /// A rule carries a non-empty identifier and a positive window length.
    pub open spec fn wf(&self) -> bool {
        &&& self.rulepath@.len() > 0
        &&& match self.aggregation {
            Some(sp) => sp.wf(),
            None => true,
        }
    }

    /// Build a freshly loaded rule with empty match state.
    pub fn new(
        rulepath: String,
        level: String,
        title: String,
        output: String,
        selection: SelectionNode,
        aggregation: Option<AggregationSpec>,
    ) -> (r: RuleNode)
        ensures
            r.rulepath == rulepath,
            r.level == level,
            r.title == title,
            r.output == output,
            r.selection == selection,
            r.aggregation == aggregation,
            r.countdata@ =~= Seq::<AggRecordEntry>::empty(),
            r.detect_count == 0,
            r.duration_ms == 0,
    {
        RuleNode {
            rulepath,
            level,
            title,
            output,
            selection,
            aggregation,
            countdata: Vec::new(),
            detect_count: 0,
            duration_ms: 0,
        }
    }

    /// Does this rule carry an aggregation clause?
    pub fn has_agg_condition(&self) -> (r: bool)
        ensures
            r == (self.aggregation is Some),
    {
        self.aggregation.is_some()
    }

    /// Evaluate this rule's selection tree against one record. A matching
    /// record of an aggregating rule is registered into the grouped match
    /// state instead of alerting immediately; everything else of the rule is
    /// left unchanged.
    pub fn select(&mut self, evtx_filepath: &String, record_info: &EvtxRecordInfo) -> (r: bool)
        ensures
            r == eval_node(old(self).selection, record_info.record.fields@),
            final(self).rulepath == old(self).rulepath,
            final(self).level == old(self).level,
            final(self).title == old(self).title,
            final(self).output == old(self).output,
            final(self).selection == old(self).selection,
            final(self).aggregation == old(self).aggregation,
            final(self).detect_count == old(self).detect_count,
            final(self).duration_ms == old(self).duration_ms,
            (r && old(self).aggregation is Some) ==> entry_views(final(self).countdata@)
                == entry_views(old(self).countdata@).push(
                (
                    derive_key_spec(old(self).aggregation.unwrap(), record_info.record.fields@),
                    record_info.record.timestamp,
                    evtx_filepath@,
                ),
            ),
            !(r && old(self).aggregation is Some) ==> final(self).countdata == old(self).countdata,
    {
        let matched = matches_node(&self.selection, &record_info.record.fields);
        if matched && self.aggregation.is_some() {
            let key = match self.aggregation.as_ref() {
                Some(sp) => derive_key(sp, &record_info.record.fields),
                None => String::new(),
            };
            let entry = AggRecordEntry {
                key,
                timestamp: record_info.record.timestamp,
                filepath: evtx_filepath.clone(),
            };
            self.countdata.push(entry);
            proof {
                assert(entry_views(self.countdata@) =~= entry_views(old(self).countdata@).push(
                    (
                        derive_key_spec(
                            old(self).aggregation.unwrap(),
                            record_info.record.fields@,
                        ),
                        record_info.record.timestamp,
                        evtx_filepath@,
                    ),
                ));
            }
        }
        matched
    }

    /// Decide this rule's aggregation buckets, once its execution unit has
    /// finished: one result per (key, window) bucket of the accumulated
    /// matches whose count satisfies the clause's comparison.
    pub fn judge_satisfy_aggcondition(&self) -> (results: Vec<AggResult>)
        requires
            self.wf(),
            self.aggregation is Some,
        ensures
            judge_post(self.countdata@, self.aggregation.unwrap(), results@),
    {
        let sp = match self.aggregation.as_ref() {
            Some(sp) => sp,
            None => {
                assert(false);
                unreached()
            },
        };
        judge_entries(&self.countdata, sp)
    }

    /// Has this rule produced at least one alert, direct or aggregated?
    pub fn check_exist_countdata(&self) -> (r: bool)
        requires
            self.wf(),
        ensures
            r == has_detection(*self),
    {
        if self.aggregation.is_some() {
            let results = self.judge_satisfy_aggcondition();
            results.len() > 0
        } else {
            self.detect_count > 0
        }
    }

    /// Attach wall-clock execution time measured by the caller; the tally
    /// saturates instead of overflowing.
    pub fn add_duration(&mut self, ms: u64)
        ensures
            final(self).duration_ms == if old(self).duration_ms + ms <= u64::MAX {
                old(self).duration_ms + ms
            } else {
                u64::MAX as int
            },
            final(self).rulepath == old(self).rulepath,
            final(self).level == old(self).level,
            final(self).title == old(self).title,
            final(self).output == old(self).output,
            final(self).selection == old(self).selection,
            final(self).aggregation == old(self).aggregation,
            final(self).countdata == old(self).countdata,
            final(self).detect_count == old(self).detect_count,
    {
        if ms <= u64::MAX - self.duration_ms {
            self.duration_ms = self.duration_ms + ms;
        } else {
            self.duration_ms = u64::MAX;
        }
    }
}

} // verus!
