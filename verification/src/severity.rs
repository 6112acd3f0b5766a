//! Alert severity levels and the case-insensitive classification of a rule's
//! `level` string into one of them.

use vstd::prelude::*;

verus! {

/// Alert severity, ordered from most to least severe; `Undefined` is the
/// bucket for unrecognized level strings.
#[derive(Clone, Copy, Debug, PartialEq, Eq, Structural)]
pub enum Severity {
    Critical,
    High,
    Medium,
    Low,
    Informational,
    Undefined,
}

/// Case-insensitive equality of `s` against a keyword given in its lowercase
/// and uppercase spellings (of equal length, as ASCII keywords are).
pub open spec fn eq_ignore_case_spec(s: Seq<char>, lo: Seq<char>, up: Seq<char>) -> bool {
    &&& s.len() == lo.len()
    &&& lo.len() == up.len()
    &&& forall|i: int| 0 <= i < s.len() ==> s[i] == lo[i] || s[i] == up[i]
}

/// The severity bucket for a rule's `level` string, compared without regard
/// to letter case; anything unrecognized classifies as `Undefined`.
pub open spec fn severity_of(s: Seq<char>) -> Severity {
    if eq_ignore_case_spec(s, "critical"@, "CRITICAL"@) {
        Severity::Critical
    } else if eq_ignore_case_spec(s, "high"@, "HIGH"@) {
        Severity::High
    } else if eq_ignore_case_spec(s, "medium"@, "MEDIUM"@) {
        Severity::Medium
    } else if eq_ignore_case_spec(s, "low"@, "LOW"@) {
        Severity::Low
    } else if eq_ignore_case_spec(s, "informational"@, "INFORMATIONAL"@) {
        Severity::Informational
    } else {
        Severity::Undefined
    }
}

/// Index of a severity in the reporting order, `Critical` first.
pub open spec fn severity_index(s: Severity) -> int {
    match s {
        Severity::Critical => 0,
        Severity::High => 1,
        Severity::Medium => 2,
        Severity::Low => 3,
        Severity::Informational => 4,
        Severity::Undefined => 5,
    }
}

/// Compare `s` against a keyword spelled out in lowercase and uppercase,
/// one character position at a time.
fn eq_ignore_case(s: &str, lo: &str, up: &str) -> (r: bool)
    requires
        lo@.len() == up@.len(),
    ensures
        r == eq_ignore_case_spec(s@, lo@, up@),
{
    let n = s.unicode_len();
    if n != lo.unicode_len() {
        return false;
    }
    let mut i: usize = 0;
    while i < n
        invariant
            i <= n,
            n == s@.len(),
            n == lo@.len(),
            n == up@.len(),
            forall|j: int| 0 <= j < i ==> s@[j] == lo@[j] || s@[j] == up@[j],
        decreases n - i,
    {
        let c = s.get_char(i);
        if c != lo.get_char(i) && c != up.get_char(i) {
            return false;
        }
        i = i + 1;
    }
    true
}

impl Severity {
    /// Classify a rule's `level` string into its severity bucket,
    /// ignoring letter case; unrecognized levels map to `Undefined`.
    pub fn from_level(level: &str) -> (s: Severity)
        ensures
            s == severity_of(level@),
    {
        proof {
            reveal_strlit("critical");
            reveal_strlit("CRITICAL");
            reveal_strlit("high");
            reveal_strlit("HIGH");
            reveal_strlit("medium");
            reveal_strlit("MEDIUM");
            reveal_strlit("low");
            reveal_strlit("LOW");
            reveal_strlit("informational");
            reveal_strlit("INFORMATIONAL");
        }
        if eq_ignore_case(level, "critical", "CRITICAL") {
            Severity::Critical
        } else if eq_ignore_case(level, "high", "HIGH") {
            Severity::High
        } else if eq_ignore_case(level, "medium", "MEDIUM") {
            Severity::Medium
        } else if eq_ignore_case(level, "low", "LOW") {
            Severity::Low
        } else if eq_ignore_case(level, "informational", "INFORMATIONAL") {
            Severity::Informational
        } else {
            Severity::Undefined
        }
    }

    /// The display label of this severity.
    pub fn label(&self) -> (r: &'static str)
        ensures
            r@ == spec_label(*self),
    {
        proof {
            reveal_strlit("Critical");
            reveal_strlit("High");
            reveal_strlit("Medium");
            reveal_strlit("Low");
            reveal_strlit("Informational");
            reveal_strlit("Undefined");
        }
        match self {
            Severity::Critical => "Critical",
            Severity::High => "High",
            Severity::Medium => "Medium",
            Severity::Low => "Low",
            Severity::Informational => "Informational",
            Severity::Undefined => "Undefined",
        }
    }
}

/// The display label of a severity.
pub open spec fn spec_label(s: Severity) -> Seq<char> {
    match s {
        Severity::Critical => "Critical"@,
        Severity::High => "High"@,
        Severity::Medium => "Medium"@,
        Severity::Low => "Low"@,
        Severity::Informational => "Informational"@,
        Severity::Undefined => "Undefined"@,
    }
}

} // verus!
