//! Validation and canonicalization of inbound events.
use vstd::prelude::*;

use crate::error::EngineError;
use crate::text::{ascii_lower, chars_of, string_of, to_ascii_lower};
use crate::time::{parse_rfc3339, parse_spec};
use crate::types::{
    default_low_priority, default_low_priority_paths, severity_of, ChangeWindow, CommitInfo,
    CorrelationHints, Event, Frame, InboundChangeWindow, InboundCommit, InboundEvent, InboundFrame,
    InboundHints, Severity,
};

verus! {

/// Backslashes read as forward slashes.
pub open spec fn unify_slash(c: char) -> char {
    if c == '\\' {
        '/'
    } else {
        c
    }
}

/// Every run of slashes shortened to one slash.
pub open spec fn collapse_slashes(s: Seq<char>) -> Seq<char>
    decreases s.len(),
{
    if s.len() == 0 {
        s
    } else {
        let p = collapse_slashes(s.drop_last());
        if s.last() == '/' && s.len() >= 2 && s[s.len() - 2] == '/' {
            p
        } else {
            p.push(s.last())
        }
    }
}

/// A leading `./` removed.
pub open spec fn strip_dot_slash(s: Seq<char>) -> Seq<char> {
    if s.len() >= 2 && s[0] == '.' && s[1] == '/' {
        s.subrange(2, s.len() as int)
    } else {
        s
    }
}

/// The canonical form of a file path: slashes unified, repeated slashes
/// collapsed, a leading `./` stripped, ASCII lowercased.
pub open spec fn normalized_path(p: Seq<char>) -> Seq<char> {
    ascii_lower(strip_dot_slash(collapse_slashes(p.map_values(|c: char| unify_slash(c)))))
}

/// Views of a list of strings.
pub open spec fn strings_view(v: Seq<String>) -> Seq<Seq<char>> {
    v.map_values(|s: String| s@)
}

/// Views of a list of key/value pairs.
pub open spec fn pairs_view(v: Seq<(String, String)>) -> Seq<(Seq<char>, Seq<char>)> {
    v.map_values(|p: (String, String)| (p.0@, p.1@))
}

/// View of an optional string.
pub open spec fn opt_view(o: Option<String>) -> Option<Seq<char>> {
    match o {
        Some(s) => Some(s@),
        None => None,
    }
}

/// A commit's timestamp, if given, is RFC 3339.
pub open spec fn commit_time_ok(c: InboundCommit) -> bool {
    c.timestamp matches Some(t) ==> parse_spec(t@) is Some
}

/// The field for which an inbound event is rejected, checked in a fixed order; none if valid.
pub open spec fn rejected_field(raw: InboundEvent) -> Option<Seq<char>> {
    if parse_spec(raw.timestamp@) is None {
        Some("timestamp"@)
    } else if severity_of(raw.severity@) is None {
        Some("severity"@)
    } else if raw.source@.len() == 0 {
        Some("source"@)
    } else if raw.service@.len() == 0 {
        Some("service"@)
    } else if raw.environment@.len() == 0 {
        Some("environment"@)
    } else if raw.exception_type@.len() == 0 {
        Some("exception_type"@)
    } else if raw.message@.len() == 0 {
        Some("message"@)
    } else if raw.stacktrace@.len() == 0 {
        Some("stacktrace"@)
    } else {
        match raw.change_window {
            Some(cw) => if parse_spec(cw.deploy_time@) is None {
                Some("change_window.deploy_time"@)
            } else if exists|i: int|
                0 <= i < cw.commits@.len() && !commit_time_ok(#[trigger] cw.commits@[i]) {
                Some("change_window.commits[].timestamp"@)
            } else {
                None
            },
            None => None,
        }
    }
}

/// The function name of an inbound frame; empty if absent.
pub open spec fn frame_function(f: InboundFrame) -> Seq<char> {
    match f.function {
        Some(n) => n@,
        None => Seq::<char>::empty(),
    }
}

/// A frame is the normalized form of an inbound frame.
pub open spec fn frame_of(f: InboundFrame, g: Frame) -> bool {
    &&& g.file@ == normalized_path(f.file@)
    &&& g.function@ == frame_function(f)
}

/// A commit is the canonical form of an inbound commit.
pub open spec fn commit_of(c: InboundCommit, k: CommitInfo) -> bool {
    &&& k.id@ == c.id@
    &&& k.timestamp == match c.timestamp {
        Some(t) => parse_spec(t@),
        None => None,
    }
    &&& strings_view(k.files@) == c.files@.map_values(|f: String| normalized_path(f@))
    &&& k.risk_score == match c.risk_score {
        Some(s) => if s <= 100 {
            Some(s)
        } else {
            None
        },
        None => None,
    }
}

/// A change window is the canonical form of an inbound one.
pub open spec fn window_of(w: InboundChangeWindow, k: ChangeWindow) -> bool {
    &&& Some(k.deploy_time) == parse_spec(w.deploy_time@)
    &&& k.deploy_time.wf()
    &&& k.commits@.len() == w.commits@.len()
    &&& forall|i: int| 0 <= i < w.commits@.len() ==> commit_of(w.commits@[i], #[trigger] k.commits@[i])
}

/// Lowercased hints; the default low-priority set where none are given.
pub open spec fn hints_of(h: Option<InboundHints>, k: CorrelationHints) -> bool {
    match h {
        Some(h) => {
            &&& strings_view(k.critical_paths@) == h.critical_paths@.map_values(|p: String| ascii_lower(p@))
            &&& strings_view(k.low_priority_paths@) == if h.low_priority_paths@.len() == 0 {
                default_low_priority()
            } else {
                h.low_priority_paths@.map_values(|p: String| ascii_lower(p@))
            }
        },
        None => {
            &&& k.critical_paths@.len() == 0
            &&& strings_view(k.low_priority_paths@) == default_low_priority()
        },
    }
}

/// `e` is the canonical event of a valid `raw`.
pub open spec fn event_of(raw: InboundEvent, e: Event) -> bool {
    &&& e.source@ == ascii_lower(raw.source@)
    &&& e.service@ == ascii_lower(raw.service@)
    &&& e.environment@ == ascii_lower(raw.environment@)
    &&& Some(e.timestamp) == parse_spec(raw.timestamp@)
    &&& e.timestamp.wf()
    &&& Some(e.severity) == severity_of(raw.severity@)
    &&& e.exception_type@ == raw.exception_type@
    &&& e.message@ == raw.message@
    &&& e.frames@.len() == raw.stacktrace@.len()
    &&& forall|i: int| 0 <= i < raw.stacktrace@.len() ==> frame_of(raw.stacktrace@[i], #[trigger] e.frames@[i])
    &&& pairs_view(e.tags@) == pairs_view(raw.tags@)
    &&& pairs_view(e.links@) == pairs_view(raw.links@)
    &&& match raw.change_window {
        Some(w) => e.change_window matches Some(k) && window_of(w, k),
        None => e.change_window is None,
    }
    &&& hints_of(raw.correlation_hints, e.correlation_hints)
    &&& opt_view(e.api_route) == opt_view(raw.api_route)
    &&& opt_view(e.request_url) == opt_view(raw.request_url)
}

/// Validates an inbound event and builds its canonical form.
///
/// Fails with a validation error naming the first field at fault: an
/// unparsable timestamp, an unknown severity, an empty source, service,
/// environment, exception type or message, an empty stack trace, or an
/// unparsable deploy or commit time in the change window.
pub fn normalize(raw: &InboundEvent) -> (r: Result<Event, EngineError>)
    ensures
        r is Err <==> rejected_field(*raw) is Some,
        r matches Err(e) ==> e matches EngineError::Validation { field, .. } && field@
            == rejected_field(*raw).unwrap(),
        r matches Ok(e) ==> event_of(*raw, e),
{
    let timestamp = match parse_rfc3339(raw.timestamp.as_str()) {
        Some(t) => t,
        None => {
            return Err(EngineError::validation("timestamp", "invalid RFC3339 timestamp"));
        },
    };
    let severity = match Severity::from_str_loose(raw.severity.as_str()) {
        Some(s) => s,
        None => {
            return Err(EngineError::validation("severity", "expected warning|error|critical"));
        },
    };
    if raw.source.as_str().is_empty() {
        return Err(EngineError::validation("source", "must not be empty"));
    }
    if raw.service.as_str().is_empty() {
        return Err(EngineError::validation("service", "must not be empty"));
    }
    if raw.environment.as_str().is_empty() {
        return Err(EngineError::validation("environment", "must not be empty"));
    }
    if raw.exception_type.as_str().is_empty() {
        return Err(EngineError::validation("exception_type", "must not be empty"));
    }
    if raw.message.as_str().is_empty() {
        return Err(EngineError::validation("message", "must not be empty"));
    }
    if raw.stacktrace.len() == 0 {
        return Err(EngineError::validation("stacktrace", "must have at least one frame"));
    }
    let frames = normalize_frames(&raw.stacktrace);
    let change_window = match &raw.change_window {
        Some(cw) => {
            let deploy_time = match parse_rfc3339(cw.deploy_time.as_str()) {
                Some(t) => t,
                None => {
                    return Err(
                        EngineError::validation(
                            "change_window.deploy_time",
                            "invalid RFC3339 timestamp",
                        ),
                    );
                },
            };
            match normalize_commits(&cw.commits) {
                Some(commits) => Some(ChangeWindow { deploy_time, commits }),
                None => {
                    return Err(
                        EngineError::validation(
                            "change_window.commits[].timestamp",
                            "invalid RFC3339 timestamp",
                        ),
                    );
                },
            }
        },
        None => None,
    };
    let correlation_hints = normalize_hints(&raw.correlation_hints);
    Ok(
        Event {
            source: to_ascii_lower(raw.source.as_str()),
            service: to_ascii_lower(raw.service.as_str()),
            environment: to_ascii_lower(raw.environment.as_str()),
            timestamp,
            severity,
            exception_type: raw.exception_type.clone(),
            message: raw.message.clone(),
            frames,
            tags: copy_pairs(&raw.tags),
            links: copy_pairs(&raw.links),
            change_window,
            correlation_hints,
            api_route: raw.api_route.clone(),
            request_url: raw.request_url.clone(),
        },
    )
}

fn normalize_frames(st: &Vec<InboundFrame>) -> (r: Vec<Frame>)
    ensures
        r@.len() == st@.len(),
        forall|i: int| 0 <= i < st@.len() ==> frame_of(st@[i], #[trigger] r@[i]),
{
    let mut r: Vec<Frame> = Vec::new();
    let mut i: usize = 0;
    while i < st.len()
        invariant
            i <= st@.len(),
            r@.len() == i,
            forall|j: int| 0 <= j < i ==> frame_of(st@[j], #[trigger] r@[j]),
        decreases st@.len() - i,
    {
        let f = &st[i];
        let function = match &f.function {
            Some(n) => n.clone(),
            None => String::new(),
        };
        r.push(Frame { file: normalize_path(f.file.as_str()), function });
        i += 1;
    }
    r
}

/// The canonical commits, or `None` if a commit time does not parse.
fn normalize_commits(cs: &Vec<InboundCommit>) -> (r: Option<Vec<CommitInfo>>)
    ensures
        r is None <==> exists|i: int| 0 <= i < cs@.len() && !commit_time_ok(#[trigger] cs@[i]),
        r matches Some(v) ==> v@.len() == cs@.len() && forall|i: int|
            0 <= i < cs@.len() ==> commit_of(cs@[i], #[trigger] v@[i]),
{
    let mut r: Vec<CommitInfo> = Vec::new();
    let mut i: usize = 0;
    while i < cs.len()
        invariant
            i <= cs@.len(),
            r@.len() == i,
            forall|j: int| 0 <= j < i ==> commit_time_ok(#[trigger] cs@[j]),
            forall|j: int| 0 <= j < i ==> commit_of(cs@[j], #[trigger] r@[j]),
        decreases cs@.len() - i,
    {
        let c = &cs[i];
        let timestamp = match &c.timestamp {
            Some(t) => match parse_rfc3339(t.as_str()) {
                Some(p) => Some(p),
                None => {
                    assert(!commit_time_ok(cs@[i as int]));
                    return None;
                },
            },
            None => None,
        };
        let risk_score = match c.risk_score {
            Some(s) => if s <= 100 {
                Some(s)
            } else {
                None
            },
            None => None,
        };
        let files = normalize_paths(&c.files);
        r.push(CommitInfo { id: c.id.clone(), timestamp, files, risk_score });
        i += 1;
    }
    Some(r)
}

fn normalize_paths(v: &Vec<String>) -> (r: Vec<String>)
    ensures
        strings_view(r@) == v@.map_values(|f: String| normalized_path(f@)),
{
    let mut r: Vec<String> = Vec::new();
    let mut i: usize = 0;
    while i < v.len()
        invariant
            i <= v@.len(),
            r@.len() == i,
            forall|j: int| 0 <= j < i ==> (#[trigger] r@[j])@ == normalized_path(v@[j]@),
        decreases v@.len() - i,
    {
        r.push(normalize_path(v[i].as_str()));
        i += 1;
    }
    assert(strings_view(r@) =~= v@.map_values(|f: String| normalized_path(f@)));
    r
}

fn lower_all(v: &Vec<String>) -> (r: Vec<String>)
    ensures
        strings_view(r@) == v@.map_values(|p: String| ascii_lower(p@)),
{
    let mut r: Vec<String> = Vec::new();
    let mut i: usize = 0;
    while i < v.len()
        invariant
            i <= v@.len(),
            r@.len() == i,
            forall|j: int| 0 <= j < i ==> (#[trigger] r@[j])@ == ascii_lower(v@[j]@),
        decreases v@.len() - i,
    {
        r.push(to_ascii_lower(v[i].as_str()));
        i += 1;
    }
    assert(strings_view(r@) =~= v@.map_values(|p: String| ascii_lower(p@)));
    r
}

fn normalize_hints(h: &Option<InboundHints>) -> (r: CorrelationHints)
    ensures
        hints_of(*h, r),
{
    match h {
        Some(h) => {
            let critical_paths = lower_all(&h.critical_paths);
            let low_priority_paths = if h.low_priority_paths.len() == 0 {
                default_low_priority_paths()
            } else {
                lower_all(&h.low_priority_paths)
            };
            CorrelationHints { critical_paths, low_priority_paths }
        },
        None => CorrelationHints::default(),
    }
}

fn copy_pairs(v: &Vec<(String, String)>) -> (r: Vec<(String, String)>)
    ensures
        pairs_view(r@) == pairs_view(v@),
{
    let mut r: Vec<(String, String)> = Vec::new();
    let mut i: usize = 0;
    while i < v.len()
        invariant
            i <= v@.len(),
            r@.len() == i,
            forall|j: int|
                0 <= j < i ==> (#[trigger] r@[j]).0@ == v@[j].0@ && r@[j].1@ == v@[j].1@,
        decreases v@.len() - i,
    {
        let (k, x) = &v[i];
        r.push((k.clone(), x.clone()));
        i += 1;
    }
    assert(pairs_view(r@) =~= pairs_view(v@));
    r
}

/// Normalizes a file path for comparison: backslashes become slashes,
/// repeated slashes collapse, a leading `./` goes, letters are lowercased.
pub fn normalize_path(p: &str) -> (r: String)
    ensures
        r@ == normalized_path(p@),
{
    let cs = chars_of(p);
    let ghost u = p@.map_values(|c: char| unify_slash(c));
    let mut out: Vec<char> = Vec::new();
    let mut i: usize = 0;
    while i < cs.len()
        invariant
            i <= cs@.len(),
            cs@ == p@,
            u == p@.map_values(|c: char| unify_slash(c)),
            out@ == collapse_slashes(u.subrange(0, i as int)),
        decreases cs@.len() - i,
    {
        let c = if cs[i] == '\\' {
            '/'
        } else {
            cs[i]
        };
        let prev_slash = i > 0 && (cs[i - 1] == '/' || cs[i - 1] == '\\');
        proof {
            let s = u.subrange(0, i + 1);
            assert(s.drop_last() =~= u.subrange(0, i as int));
            assert(s.last() == c);
            if i > 0 {
                assert(s[s.len() - 2] == u[i - 1]);
            }
        }
        if !(c == '/' && prev_slash) {
            out.push(c);
        }
        i += 1;
    }
    assert(u.subrange(0, cs@.len() as int) =~= u);
    let start: usize = if out.len() >= 2 && out[0] == '.' && out[1] == '/' {
        2
    } else {
        0
    };
    let mut rest: Vec<char> = Vec::new();
    let mut j: usize = start;
    while j < out.len()
        invariant
            start <= j <= out@.len(),
            rest@ == out@.subrange(start as int, j as int),
        decreases out@.len() - j,
    {
        rest.push(out[j]);
        j += 1;
        assert(rest@ =~= out@.subrange(start as int, j as int));
    }
    assert(rest@ == strip_dot_slash(out@));
    let s = string_of(&rest);
    to_ascii_lower(s.as_str())
}

} // verus!
