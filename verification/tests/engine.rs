use hayabusa::agg::{AggCompareOp, AggregationSpec};
use hayabusa::detection::Detection;
use hayabusa::message::MessageSink;
use hayabusa::record::{EvtxRecordInfo, RecordData};
use hayabusa::rule::RuleNode;
use hayabusa::selection::{MatchCondition, SelectionNode};

fn record(path: &str, fields: Vec<(&str, &str)>, ts: u64) -> EvtxRecordInfo {
    let fv: Vec<(String, String)> = fields
        .into_iter()
        .map(|(k, v)| (k.to_string(), v.to_string()))
        .collect();
    EvtxRecordInfo::new(
        path.to_string(),
        RecordData {
            fields: fv,
            timestamp: ts,
        },
        String::new(),
    )
}

fn leaf(field: &str, cond: MatchCondition) -> SelectionNode {
    SelectionNode::Leaf(field.to_string(), cond)
}

fn direct_rule(rulepath: &str, level: &str, selection: SelectionNode) -> RuleNode {
    RuleNode::new(
        rulepath.to_string(),
        level.to_string(),
        "a title".to_string(),
        "a message".to_string(),
        selection,
        None,
    )
}

fn agg_rule(
    rulepath: &str,
    level: &str,
    selection: SelectionNode,
    by_field: Option<&str>,
    op: AggCompareOp,
    threshold: u64,
    window_seconds: u64,
    timeframe: &str,
) -> RuleNode {
    RuleNode::new(
        rulepath.to_string(),
        level.to_string(),
        "a title".to_string(),
        "a message".to_string(),
        selection,
        Some(AggregationSpec {
            count_field: "Image".to_string(),
            by_field: by_field.map(|b| b.to_string()),
            op,
            threshold,
            timeframe: timeframe.to_string(),
            window_seconds,
        }),
    )
}

fn logon_records(n: usize) -> Vec<EvtxRecordInfo> {
    let mut records = Vec::new();
    for i in 0..n {
        records.push(record(
            "a.evtx",
            vec![
                ("Event.System.EventID", "4624"),
                ("Event.System.Computer", "HOST1"),
                ("User", "alice"),
            ],
            100 + i as u64,
        ));
    }
    records
}

#[test]
fn direct_match_emits_one_alert_per_matching_record() {
    let rule = direct_rule(
        "rules/logon.yml",
        "high",
        leaf("Event.System.EventID", MatchCondition::Equals("4624".to_string())),
    );
    let records = vec![
        record(
            "a.evtx",
            vec![
                ("Event.System.EventID", "4624"),
                ("Event.System.Computer", "HOST1"),
            ],
            10,
        ),
        record("a.evtx", vec![("Event.System.EventID", "1")], 11),
        record(
            "b.evtx",
            vec![("Event.System.EventID", "4624"), ("Event.System.Computer", "HOST2")],
            12,
        ),
    ];
    let mut sink = MessageSink::new();
    let done = Detection::execute_rule(rule, &records, &mut sink);
    assert_eq!(sink.alerts.len(), 2);
    assert_eq!(done.detect_count, 2);
    assert_eq!(sink.alerts[0].computer, "HOST1");
    assert_eq!(sink.alerts[0].eventid, "4624");
    assert_eq!(sink.alerts[0].evtx_filepath, "a.evtx");
    assert_eq!(sink.alerts[0].rulepath, "rules/logon.yml");
    assert_eq!(sink.alerts[0].level, "high");
    assert_eq!(sink.alerts[0].detected_time, 10);
    assert_eq!(sink.alerts[1].computer, "HOST2");
    assert_eq!(sink.alerts[1].detected_time, 12);
}

#[test]
fn missing_host_and_eventid_fall_back_to_sentinel() {
    let rule = direct_rule(
        "rules/any.yml",
        "low",
        leaf("User", MatchCondition::Equals("alice".to_string())),
    );
    let records = vec![record("a.evtx", vec![("User", "alice")], 5)];
    let mut sink = MessageSink::new();
    Detection::execute_rule(rule, &records, &mut sink);
    assert_eq!(sink.alerts.len(), 1);
    assert_eq!(sink.alerts[0].computer, "-");
    assert_eq!(sink.alerts[0].eventid, "-");
}

#[test]
fn aggregating_rule_defers_alerts_to_post_pass() {
    let rule = agg_rule(
        "rules/burst.yml",
        "medium",
        leaf("User", MatchCondition::Equals("alice".to_string())),
        Some("User"),
        AggCompareOp::Ge,
        3,
        600,
        "10m",
    );
    let records = logon_records(3);
    let mut sink = MessageSink::new();
    let done = Detection::execute_rule(rule, &records, &mut sink);
    // no immediate alerts; three grouped entries instead
    assert_eq!(sink.alerts.len(), 0);
    assert_eq!(done.countdata.len(), 3);
    assert_eq!(done.countdata[0].key, "alice");
    assert_eq!(done.countdata[0].timestamp, 100);
    assert_eq!(done.countdata[0].filepath, "a.evtx");
}

#[test]
fn threshold_boundary_two_records_no_result() {
    let rule = agg_rule(
        "rules/burst.yml",
        "medium",
        leaf("User", MatchCondition::Equals("alice".to_string())),
        Some("User"),
        AggCompareOp::Ge,
        3,
        600,
        "10m",
    );
    let mut sink = MessageSink::new();
    let done = Detection::execute_rule(rule, &logon_records(2), &mut sink);
    let results = done.judge_satisfy_aggcondition();
    assert_eq!(results.len(), 0);
    let det = Detection::new(vec![done]);
    det.add_aggcondtion_msg(&mut sink);
    assert_eq!(sink.alerts.len(), 0);
}

#[test]
fn threshold_boundary_three_records_one_result() {
    let rule = agg_rule(
        "rules/burst.yml",
        "medium",
        leaf("User", MatchCondition::Equals("alice".to_string())),
        Some("User"),
        AggCompareOp::Ge,
        3,
        600,
        "10m",
    );
    let mut sink = MessageSink::new();
    let done = Detection::execute_rule(rule, &logon_records(3), &mut sink);
    let results = done.judge_satisfy_aggcondition();
    assert_eq!(results.len(), 1);
    assert_eq!(results[0].key, "alice");
    assert_eq!(results[0].start_timedate, 100);
    assert_eq!(results[0].condition_op_num, ">= 3");
    assert_eq!(results[0].filepath, "a.evtx");
    let det = Detection::new(vec![done]);
    det.add_aggcondtion_msg(&mut sink);
    assert_eq!(sink.alerts.len(), 1);
    assert_eq!(sink.alerts[0].computer, "-");
    assert_eq!(sink.alerts[0].eventid, "-");
    assert_eq!(sink.alerts[0].detected_time, 100);
    assert_eq!(sink.alerts[0].detail, "count(Image) by User >= 3 in 10m.");
}

#[test]
fn windows_split_by_timestamp_anchored_at_first_record() {
    let rule = agg_rule(
        "rules/burst.yml",
        "medium",
        leaf("User", MatchCondition::Equals("alice".to_string())),
        None,
        AggCompareOp::Ge,
        2,
        600,
        "10m",
    );
    let records = vec![
        record("a.evtx", vec![("User", "alice")], 1000),
        record("a.evtx", vec![("User", "alice")], 1100),
        record("a.evtx", vec![("User", "alice")], 1700),
    ];
    let mut sink = MessageSink::new();
    let done = Detection::execute_rule(rule, &records, &mut sink);
    // absent `by` clause groups everything under the sentinel key
    assert_eq!(done.countdata[0].key, "_");
    let results = done.judge_satisfy_aggcondition();
    // window 0 holds timestamps 1000 and 1100; 1700 opens window 1 alone
    assert_eq!(results.len(), 1);
    assert_eq!(results[0].start_timedate, 1000);
}

#[test]
fn strict_zero_count_is_never_satisfied() {
    // only buckets opened by an observed record exist, so a `== 0` clause
    // cannot be met by this pass
    let rule = agg_rule(
        "rules/zero.yml",
        "low",
        leaf("User", MatchCondition::Equals("alice".to_string())),
        Some("User"),
        AggCompareOp::EqOp,
        0,
        600,
        "10m",
    );
    let mut sink = MessageSink::new();
    let done = Detection::execute_rule(rule, &logon_records(2), &mut sink);
    assert_eq!(done.judge_satisfy_aggcondition().len(), 0);
}

#[test]
fn less_than_operator_emits_on_small_buckets() {
    let rule = agg_rule(
        "rules/rare.yml",
        "low",
        leaf("User", MatchCondition::Equals("alice".to_string())),
        Some("User"),
        AggCompareOp::Lt,
        2,
        600,
        "10m",
    );
    let mut sink = MessageSink::new();
    let done = Detection::execute_rule(rule, &logon_records(1), &mut sink);
    let results = done.judge_satisfy_aggcondition();
    assert_eq!(results.len(), 1);
    assert_eq!(results[0].condition_op_num, "< 2");
}

#[test]
fn no_cross_rule_leakage_between_aggregation_states() {
    let rule_a = agg_rule(
        "rules/a.yml",
        "high",
        leaf("User", MatchCondition::Equals("alice".to_string())),
        Some("User"),
        AggCompareOp::Ge,
        1,
        600,
        "10m",
    );
    let rule_b = agg_rule(
        "rules/b.yml",
        "high",
        leaf("User", MatchCondition::Equals("bob".to_string())),
        Some("User"),
        AggCompareOp::Ge,
        1,
        600,
        "10m",
    );
    let records = logon_records(5);
    let mut sink = MessageSink::new();
    let det = Detection::new(vec![rule_a, rule_b]).execute_rules(&records, &mut sink);
    // every record matched rule A; none may appear in rule B's buckets
    assert_eq!(det.rules[0].countdata.len(), 5);
    assert_eq!(det.rules[1].countdata.len(), 0);
    assert_eq!(det.rules[1].judge_satisfy_aggcondition().len(), 0);
}

#[test]
fn rerun_produces_identical_alert_content() {
    let rules = || {
        vec![
            direct_rule(
                "rules/one.yml",
                "high",
                leaf("User", MatchCondition::Equals("alice".to_string())),
            ),
            direct_rule(
                "rules/two.yml",
                "low",
                leaf("Event.System.EventID", MatchCondition::Equals("4624".to_string())),
            ),
        ]
    };
    let records = logon_records(4);
    let mut sink1 = MessageSink::new();
    let mut sink2 = MessageSink::new();
    Detection::new(rules()).execute_rules(&records, &mut sink1);
    Detection::new(rules()).execute_rules(&records, &mut sink2);
    assert_eq!(sink1.alerts.len(), sink2.alerts.len());
    for (a, b) in sink1.alerts.iter().zip(sink2.alerts.iter()) {
        assert_eq!(a.evtx_filepath, b.evtx_filepath);
        assert_eq!(a.rulepath, b.rulepath);
        assert_eq!(a.detected_time, b.detected_time);
        assert_eq!(a.level, b.level);
        assert_eq!(a.computer, b.computer);
        assert_eq!(a.eventid, b.eventid);
        assert_eq!(a.title, b.title);
        assert_eq!(a.detail, b.detail);
    }
}

#[test]
fn fifty_direct_alerts_count_once_in_summary() {
    let rule = direct_rule(
        "rules/noisy.yml",
        "high",
        leaf("User", MatchCondition::Equals("alice".to_string())),
    );
    let quiet = direct_rule(
        "rules/quiet.yml",
        "critical",
        leaf("User", MatchCondition::Equals("nobody".to_string())),
    );
    let records = logon_records(50);
    let mut sink = MessageSink::new();
    let det = Detection::new(vec![rule, quiet]).execute_rules(&records, &mut sink);
    assert_eq!(sink.alerts.len(), 50);
    let counts = det.count_unique_results();
    // order: Critical, High, Medium, Low, Informational, Undefined
    assert_eq!(counts, vec![0u64, 1, 0, 0, 0, 0]);
}

#[test]
fn summary_buckets_by_severity_case_insensitively() {
    let r1 = direct_rule(
        "rules/one.yml",
        "HiGh",
        leaf("User", MatchCondition::Equals("alice".to_string())),
    );
    let r2 = direct_rule(
        "rules/two.yml",
        "weird",
        leaf("User", MatchCondition::Equals("alice".to_string())),
    );
    let records = logon_records(1);
    let mut sink = MessageSink::new();
    let det = Detection::new(vec![r1, r2]).execute_rules(&records, &mut sink);
    let counts = det.count_unique_results();
    assert_eq!(counts, vec![0u64, 1, 0, 0, 0, 1]);
}

#[test]
fn rule_load_total_sums_all_tallies() {
    let rc = vec![
        ("informational".to_string(), 3u128),
        ("high".to_string(), 4u128),
    ];
    assert_eq!(Detection::count_rule_load_total(&rc, 2, 5), 14);
    let empty: Vec<(String, u128)> = Vec::new();
    assert_eq!(Detection::count_rule_load_total(&empty, 0, 0), 0);
    assert_eq!(Detection::count_rule_load_total(&empty, u128::MAX, 1), u128::MAX);
}
