//! The selection condition tree of a rule and its evaluation against one
//! record: a pure boolean function of (tree, record). AND/OR short-circuit
//! left to right, NOT negates, and a missing field never matches a leaf.

use vstd::prelude::*;
use crate::record::{field_value, get_field_value};
use crate::strutil::{
    contains_seq, starts_with_seq, ends_with_seq, str_eq, str_contains, str_starts_with,
    str_ends_with,
};

verus! {

/// What the `regex` crate decides for a pattern and a text: whether the
/// pattern compiles and then matches somewhere in the text. The decision is
/// a function of the two strings alone.
pub uninterp spec fn regex_accepts(pattern: Seq<char>, text: Seq<char>) -> bool;

/// Relies on `regex::Regex::new` and `regex::Regex::is_match`: whether a
/// pattern compiles, and whether it then matches a text, depend on the
/// pattern and the text alone. A pattern that does not compile matches
/// nothing, so a malformed pattern is a non-match, never a fault.
#[verifier::external_body]
fn regex_is_match(pattern: &str, text: &str) -> (r: bool)
    ensures
        r == regex_accepts(pattern@, text@),
{
    match regex::Regex::new(pattern) {
        Ok(re) => re.is_match(text),
        Err(_) => false,
    }
}

/// A leaf predicate on one field's value.
pub enum MatchCondition {
    /// The value equals the given string.
    Equals(String),
    /// The value contains the given string.
    Contains(String),
    /// The value begins with the given string.
    StartsWith(String),
    /// The value ends with the given string.
    EndsWith(String),
    /// The given regular expression matches the value.
    Regex(String),
}

/// A boolean expression over record field paths.
pub enum SelectionNode {
    /// A predicate on the named field's value.
    Leaf(String, MatchCondition),
    And(Box<SelectionNode>, Box<SelectionNode>),
    Or(Box<SelectionNode>, Box<SelectionNode>),
    Not(Box<SelectionNode>),
}

/// Whether a leaf condition holds of a field value.
pub open spec fn cond_holds(cond: MatchCondition, v: Seq<char>) -> bool {
    match cond {
        MatchCondition::Equals(s) => v == s@,
        MatchCondition::Contains(s) => contains_seq(v, s@),
        MatchCondition::StartsWith(s) => starts_with_seq(v, s@),
        MatchCondition::EndsWith(s) => ends_with_seq(v, s@),
        MatchCondition::Regex(s) => regex_accepts(s@, v),
    }
}

/// Pure evaluation of a selection condition tree against a record's fields.
pub open spec fn eval_node(node: SelectionNode, fields: Seq<(String, String)>) -> bool
    decreases node,
{
    match node {
        SelectionNode::Leaf(f, cond) => match field_value(fields, f@) {
            Some(v) => cond_holds(cond, v),
            None => false,
        },
        SelectionNode::And(l, r) => eval_node(*l, fields) && eval_node(*r, fields),
        SelectionNode::Or(l, r) => eval_node(*l, fields) || eval_node(*r, fields),
        SelectionNode::Not(sub) => !eval_node(*sub, fields),
    }
}

/// Whether a leaf condition holds of a concrete field value.
fn eval_condition(cond: &MatchCondition, v: &String) -> (r: bool)
    ensures
        r == cond_holds(*cond, v@),
{
    match cond {
        MatchCondition::Equals(s) => str_eq(v.as_str(), s.as_str()),
        MatchCondition::Contains(s) => str_contains(v.as_str(), s.as_str()),
        MatchCondition::StartsWith(s) => str_starts_with(v.as_str(), s.as_str()),
        MatchCondition::EndsWith(s) => str_ends_with(v.as_str(), s.as_str()),
        MatchCondition::Regex(s) => regex_is_match(s.as_str(), v.as_str()),
    }
}

/// Evaluate the tree against a record's fields: AND and OR short-circuit
/// left to right, NOT negates its operand, a missing field never matches.
pub fn matches_node(node: &SelectionNode, fields: &Vec<(String, String)>) -> (r: bool)
    ensures
        r == eval_node(*node, fields@),
    decreases *node,
{
    match node {
        SelectionNode::Leaf(f, cond) => match get_field_value(fields, f.as_str()) {
            Some(v) => eval_condition(cond, &v),
            None => false,
        },
        SelectionNode::And(l, r) => if !matches_node(l, fields) {
            false
        } else {
            matches_node(r, fields)
        },
        SelectionNode::Or(l, r) => if matches_node(l, fields) {
            true
        } else {
            matches_node(r, fields)
        },
        SelectionNode::Not(sub) => !matches_node(sub, fields),
    }
}

} // verus!
