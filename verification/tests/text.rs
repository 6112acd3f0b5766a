use hayabusa::agg::{cond_label, AggCompareOp, AggResult, AggregationSpec};
use hayabusa::detection::Detection;
use hayabusa::powershell::PowerShell;
use hayabusa::rule::RuleNode;
use hayabusa::selection::{matches_node, MatchCondition, SelectionNode};
use hayabusa::severity::Severity;

fn fields(pairs: Vec<(&str, &str)>) -> Vec<(String, String)> {
    pairs
        .into_iter()
        .map(|(k, v)| (k.to_string(), v.to_string()))
        .collect()
}

fn leaf(field: &str, cond: MatchCondition) -> SelectionNode {
    SelectionNode::Leaf(field.to_string(), cond)
}

#[test]
fn severity_classifies_any_case_of_high() {
    assert_eq!(Severity::from_level("high"), Severity::High);
    assert_eq!(Severity::from_level("HIGH"), Severity::High);
    assert_eq!(Severity::from_level("HiGh"), Severity::High);
    assert_eq!(Severity::from_level("critical"), Severity::Critical);
    assert_eq!(Severity::from_level("Medium"), Severity::Medium);
    assert_eq!(Severity::from_level("low"), Severity::Low);
    assert_eq!(Severity::from_level("informational"), Severity::Informational);
}

#[test]
fn unrecognized_severity_classifies_as_undefined() {
    assert_eq!(Severity::from_level("emergency"), Severity::Undefined);
    assert_eq!(Severity::from_level(""), Severity::Undefined);
    assert_eq!(Severity::from_level("hig"), Severity::Undefined);
    assert_eq!(Severity::label(&Severity::Undefined), "Undefined");
    assert_eq!(Severity::label(&Severity::High), "High");
}

#[test]
fn count_output_round_trip_with_by_clause() {
    let rule = RuleNode::new(
        "rules/agg.yml".to_string(),
        "high".to_string(),
        "t".to_string(),
        "o".to_string(),
        leaf("Image", MatchCondition::Equals("x".to_string())),
        Some(AggregationSpec {
            count_field: "Image".to_string(),
            by_field: Some("User".to_string()),
            op: AggCompareOp::Ge,
            threshold: 5,
            timeframe: "5m".to_string(),
            window_seconds: 300,
        }),
    );
    let agg_result = AggResult {
        key: "alice".to_string(),
        start_timedate: 0,
        condition_op_num: cond_label(AggCompareOp::Ge, 5),
        filepath: "a.evtx".to_string(),
    };
    let message = Detection::create_count_output(&rule, &agg_result);
    assert_eq!(message, "count(Image) by User >= 5 in 5m.");
}

#[test]
fn count_output_without_by_clause() {
    let rule = RuleNode::new(
        "rules/agg.yml".to_string(),
        "high".to_string(),
        "t".to_string(),
        "o".to_string(),
        leaf("Image", MatchCondition::Equals("x".to_string())),
        Some(AggregationSpec {
            count_field: "Image".to_string(),
            by_field: None,
            op: AggCompareOp::Gt,
            threshold: 10,
            timeframe: "1h".to_string(),
            window_seconds: 3600,
        }),
    );
    let agg_result = AggResult {
        key: "_".to_string(),
        start_timedate: 0,
        condition_op_num: cond_label(AggCompareOp::Gt, 10),
        filepath: "a.evtx".to_string(),
    };
    let message = Detection::create_count_output(&rule, &agg_result);
    assert_eq!(message, "count(Image) > 10 in 1h.");
}

#[test]
fn condition_labels_render_operator_and_threshold() {
    assert_eq!(cond_label(AggCompareOp::Ge, 5), ">= 5");
    assert_eq!(cond_label(AggCompareOp::Gt, 0), "> 0");
    assert_eq!(cond_label(AggCompareOp::EqOp, 0), "== 0");
    assert_eq!(cond_label(AggCompareOp::Le, 12345), "<= 12345");
    assert_eq!(cond_label(AggCompareOp::Lt, 900), "< 900");
}

#[test]
fn leaf_conditions_match_field_values() {
    let f = fields(vec![("CommandLine", "mimikatz.exe sekurlsa"), ("User", "alice")]);
    assert!(matches_node(
        &leaf("CommandLine", MatchCondition::Contains("katz".to_string())),
        &f
    ));
    assert!(matches_node(
        &leaf("CommandLine", MatchCondition::StartsWith("mimi".to_string())),
        &f
    ));
    assert!(matches_node(
        &leaf("CommandLine", MatchCondition::EndsWith("sekurlsa".to_string())),
        &f
    ));
    assert!(matches_node(
        &leaf("User", MatchCondition::Equals("alice".to_string())),
        &f
    ));
    assert!(!matches_node(
        &leaf("User", MatchCondition::Equals("bob".to_string())),
        &f
    ));
    // a missing field never matches
    assert!(!matches_node(
        &leaf("Image", MatchCondition::Contains("".to_string())),
        &f
    ));
}

#[test]
fn regex_leaf_runs_the_pattern() {
    let f = fields(vec![("CommandLine", "mimikatz.exe")]);
    assert!(matches_node(
        &leaf("CommandLine", MatchCondition::Regex("^mimi.*\\.exe$".to_string())),
        &f
    ));
    assert!(!matches_node(
        &leaf("CommandLine", MatchCondition::Regex("^notepad".to_string())),
        &f
    ));
    // a malformed pattern is a non-match, not a fault
    assert!(!matches_node(
        &leaf("CommandLine", MatchCondition::Regex("(".to_string())),
        &f
    ));
}

#[test]
fn boolean_operators_combine_and_negate() {
    let f = fields(vec![("A", "1"), ("B", "2")]);
    let a = || leaf("A", MatchCondition::Equals("1".to_string()));
    let b_wrong = || leaf("B", MatchCondition::Equals("9".to_string()));
    let missing = || leaf("C", MatchCondition::Equals("1".to_string()));
    assert!(matches_node(
        &SelectionNode::And(Box::new(a()), Box::new(SelectionNode::Not(Box::new(b_wrong())))),
        &f
    ));
    assert!(matches_node(
        &SelectionNode::Or(Box::new(b_wrong()), Box::new(a())),
        &f
    ));
    assert!(!matches_node(
        &SelectionNode::And(Box::new(a()), Box::new(b_wrong())),
        &f
    ));
    // NOT of a missing-field leaf holds
    assert!(matches_node(&SelectionNode::Not(Box::new(missing())), &f));
}

#[test]
fn pipeline_event_extracts_command_after_last_marker() {
    let mut ps = PowerShell::new();
    let data = fields(vec![(
        "ContextInfo",
        "Severity = Informational\nHost Application = powershell.exe -enc SQBFAFgA\nEngine Version = 5.1",
    )]);
    let check = ps.detection("4103".to_string(), &data).unwrap();
    assert_eq!(check.event_id, 4103);
    assert_eq!(check.command, "powershell.exe -enc SQBFAFgA");
}

#[test]
fn pipeline_event_takes_the_last_marker_occurrence() {
    let mut ps = PowerShell::new();
    let data = fields(vec![(
        "ContextInfo",
        "Host Application = first.exe\nHost Application = second.exe\nrest",
    )]);
    let check = ps.detection("4103".to_string(), &data).unwrap();
    assert_eq!(check.command, "second.exe");
}

#[test]
fn pipeline_event_without_marker_is_skipped() {
    let mut ps = PowerShell::new();
    let data = fields(vec![("ContextInfo", "nothing of interest")]);
    assert!(ps.detection("4103".to_string(), &data).is_none());
    let empty = fields(vec![]);
    assert!(ps.detection("4103".to_string(), &empty).is_none());
}

#[test]
fn remote_command_event_needs_a_message_number() {
    let mut ps = PowerShell::new();
    let with_num = fields(vec![
        ("MessageNumber", "1"),
        ("ScriptBlockText", "Invoke-Mimikatz"),
    ]);
    let check = ps.detection("4104".to_string(), &with_num).unwrap();
    assert_eq!(check.event_id, 4104);
    assert_eq!(check.command, "Invoke-Mimikatz");
    let without = fields(vec![("ScriptBlockText", "Invoke-Mimikatz")]);
    assert!(ps.detection("4104".to_string(), &without).is_none());
}

#[test]
fn other_event_identifiers_are_ignored() {
    let mut ps = PowerShell::new();
    let data = fields(vec![("ContextInfo", "Host Application = x\n")]);
    assert!(ps.detection("4105".to_string(), &data).is_none());
}
