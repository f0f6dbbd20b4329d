//! Data model: inbound events as received, canonical events, issue groups and
//! their statistics, and the incident summaries handed back.
use vstd::prelude::*;

use crate::text::{ascii_lower, str_eq, to_ascii_lower};
use crate::time::Timestamp;

verus! {

/// One inbound stack frame, as received.
#[derive(Debug, Clone)]
pub struct InboundFrame {
    pub file: String,
    pub function: Option<String>,
    pub line: Option<u32>,
}

/// One commit of an inbound change window, as received.
#[derive(Debug, Clone)]
pub struct InboundCommit {
    pub id: String,
    pub timestamp: Option<String>,
    pub files: Vec<String>,
    pub risk_score: Option<u32>,
}

/// An inbound change window: a deploy time and the commits it shipped.
#[derive(Debug, Clone)]
pub struct InboundChangeWindow {
    pub deploy_time: String,
    pub commits: Vec<InboundCommit>,
}

/// Inbound correlation hints: path prefixes that matter more, or less.
#[derive(Debug, Clone)]
pub struct InboundHints {
    pub critical_paths: Vec<String>,
    pub low_priority_paths: Vec<String>,
}

/// One inbound event. Tags and links are kept as key/value pairs in the order received.
#[derive(Debug, Clone)]
pub struct InboundEvent {
    pub source: String,
    pub service: String,
    pub environment: String,
    pub timestamp: String,
    pub severity: String,
    pub exception_type: String,
    pub message: String,
    pub stacktrace: Vec<InboundFrame>,
    pub tags: Vec<(String, String)>,
    pub links: Vec<(String, String)>,
    pub change_window: Option<InboundChangeWindow>,
    pub correlation_hints: Option<InboundHints>,
    pub api_route: Option<String>,
    pub request_url: Option<String>,
}

/// Normalized severity.
#[derive(Debug, Clone, Copy, PartialEq, Eq, Structural, PartialOrd, Ord, Hash)]
pub enum Severity {
    Warning,
    Error,
    Critical,
}

/// The severity a text names, case-insensitively, with its synonyms.
pub open spec fn severity_of(s: Seq<char>) -> Option<Severity> {
    let l = ascii_lower(s);
    if l == "warning"@ || l == "warn"@ {
        Some(Severity::Warning)
    } else if l == "error"@ || l == "err"@ {
        Some(Severity::Error)
    } else if l == "critical"@ || l == "fatal"@ || l == "crit"@ {
        Some(Severity::Critical)
    } else {
        None
    }
}

/// Base priority of a severity.
pub open spec fn severity_base(s: Severity) -> u8 {
    match s {
        Severity::Warning => 30,
        Severity::Error => 60,
        Severity::Critical => 90,
    }
}

impl Severity {
    /// Reads a severity name: warning/warn, error/err, critical/fatal/crit, in any case.
    pub fn from_str_loose(s: &str) -> (r: Option<Severity>)
        ensures
            r == severity_of(s@),
    {
        let l = to_ascii_lower(s);
        let l = l.as_str();
        if str_eq(l, "warning") || str_eq(l, "warn") {
            Some(Severity::Warning)
        } else if str_eq(l, "error") || str_eq(l, "err") {
            Some(Severity::Error)
        } else if str_eq(l, "critical") || str_eq(l, "fatal") || str_eq(l, "crit") {
            Some(Severity::Critical)
        } else {
            None
        }
    }

    /// Base priority: 30, 60 or 90.
    pub fn score(self) -> (r: u8)
        ensures
            r == severity_base(self),
    {
        match self {
            Severity::Warning => 30,
            Severity::Error => 60,
            Severity::Critical => 90,
        }
    }
}

/// A normalized stack frame: path normalized, line number dropped.
#[derive(Debug, Clone, PartialEq, Eq, Hash)]
pub struct Frame {
    pub file: String,
    pub function: String,
}

/// A commit of a canonical change window.
#[derive(Debug, Clone)]
pub struct CommitInfo {
    pub id: String,
    pub timestamp: Option<Timestamp>,
    pub files: Vec<String>,
    pub risk_score: Option<u32>,
}

/// A canonical change window.
#[derive(Debug, Clone)]
pub struct ChangeWindow {
    pub deploy_time: Timestamp,
    pub commits: Vec<CommitInfo>,
}

/// Lowercased correlation hints.
#[derive(Debug, Clone)]
pub struct CorrelationHints {
    pub critical_paths: Vec<String>,
    pub low_priority_paths: Vec<String>,
}

/// The low-priority paths used when none are given.
pub open spec fn default_low_priority() -> Seq<Seq<char>> {
    seq!["docs/"@, "doc/"@, "tests/"@, "test/"@, "spec/"@, "__tests__/"@, ".md"@]
}

/// The low-priority paths used when none are given.
pub fn default_low_priority_paths() -> (r: Vec<String>)
    ensures
        r@.map_values(|p: String| p@) == default_low_priority(),
{
    let r = vec![
        String::from_str("docs/"),
        String::from_str("doc/"),
        String::from_str("tests/"),
        String::from_str("test/"),
        String::from_str("spec/"),
        String::from_str("__tests__/"),
        String::from_str(".md"),
    ];
    assert(r@.map_values(|p: String| p@) =~= default_low_priority());
    r
}

impl Default for CorrelationHints {
    fn default() -> (r: CorrelationHints)
        ensures
            r.critical_paths@.len() == 0,
            r.low_priority_paths@.map_values(|p: String| p@) == default_low_priority(),
    {
        CorrelationHints { critical_paths: Vec::new(), low_priority_paths: default_low_priority_paths() }
    }
}

/// A canonical event, the output of normalization.
#[derive(Debug, Clone)]
pub struct Event {
    pub source: String,
    pub service: String,
    pub environment: String,
    pub timestamp: Timestamp,
    pub severity: Severity,
    pub exception_type: String,
    pub message: String,
    pub frames: Vec<Frame>,
    pub tags: Vec<(String, String)>,
    pub links: Vec<(String, String)>,
    pub change_window: Option<ChangeWindow>,
    pub correlation_hints: CorrelationHints,
    pub api_route: Option<String>,
    pub request_url: Option<String>,
}

/// A stable 32-hex-digit key for an issue group.
#[derive(Debug, Clone, PartialEq, Eq, Hash)]
pub struct Fingerprint(pub String);

/// Occurrences within one UTC minute.
#[derive(Debug, Clone, Copy, PartialEq, Eq)]
pub struct Bucket {
    pub minute: i64,
    pub count: u64,
}

/// Streaming statistics of one issue group. The baseline is kept in
/// millionths of an occurrence per minute.
#[derive(Debug, Clone)]
pub struct StatsState {
    pub buckets: Vec<Bucket>,
    pub total_count: u64,
    pub first_seen: Timestamp,
    pub last_seen: Timestamp,
    pub baseline_micro: u128,
    pub quiet_minutes: u64,
}

/// An issue group: the snapshot of its first event, and its statistics.
#[derive(Debug, Clone)]
pub struct IssueGroup {
    pub fingerprint: Fingerprint,
    pub exception_type: String,
    pub message: String,
    pub service: String,
    pub environment: String,
    pub stats: StatsState,
}

/// Why an incident was opened.
#[derive(Debug, Clone, Copy, PartialEq, Eq, Structural)]
pub enum TriggerReason {
    Spike,
    NewIssue,
    Regression,
    Deploy,
}

/// The triggering group as a symptom. The spike factor is in hundredths.
#[derive(Debug, Clone)]
pub struct IssueGroupSummary {
    pub fingerprint: String,
    pub exception_type: String,
    pub message: String,
    pub count: u64,
    pub spike_factor_centi: u128,
}

/// A commit ranked as a plausible cause. The score is in thousandths.
#[derive(Debug, Clone)]
pub struct SuspectedCause {
    pub commit_id: String,
    pub score_milli: u64,
    pub evidence: Vec<String>,
}

/// A stack frame as shown in a summary, line number kept.
#[derive(Debug, Clone)]
pub struct StackFrameOutput {
    pub file: String,
    pub function: Option<String>,
    pub line: Option<u32>,
}

/// The outward record of an incident.
#[derive(Debug, Clone)]
pub struct IncidentSummary {
    pub incident_id: String,
    pub title: String,
    pub service: String,
    pub environment: String,
    pub severity: Severity,
    pub priority_score: u8,
    pub trigger: TriggerReason,
    pub start_time: String,
    pub last_seen: String,
    pub peak_time: Option<String>,
    pub top_symptoms: Vec<IssueGroupSummary>,
    pub suspected_causes: Vec<SuspectedCause>,
    pub recommended_first_actions: Vec<String>,
    pub stacktrace: Vec<StackFrameOutput>,
    pub links: Vec<(String, String)>,
    pub api_route: Option<String>,
    pub request_url: Option<String>,
}

/// Structured error record for a rejected input line.
#[derive(Debug, Clone)]
pub struct ErrorOutput {
    pub error: bool,
    pub message: String,
    pub field: Option<String>,
}

impl ErrorOutput {
    /// An error record with a message and no field.
    pub fn new(message: String) -> (r: ErrorOutput)
        ensures
            r.error,
            r.message@ == message@,
            r.field is None,
    {
        ErrorOutput { error: true, message, field: None }
    }

    /// The same record, naming the field at fault.
    pub fn with_field(self, field: String) -> (r: ErrorOutput)
        ensures
            r.error == self.error,
            r.message@ == self.message@,
            r.field matches Some(f) && f@ == field@,
    {
        ErrorOutput { field: Some(field), ..self }
    }
}

} // verus!
