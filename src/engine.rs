//! The engine: owns the issue-group table, decides when an event opens an
//! incident, and assembles the incident summary.
use vstd::prelude::*;
use vstd::utf8::*;

use crate::config::Config;
use crate::correlation::{cause_view, rank_suspects, ranked, suspects_in_order};
use crate::error::EngineError;
use crate::fingerprint::{compute, fingerprint_of};
use crate::hashing::{blake3_hex, digest_hex};
use crate::normalize::{event_of, normalize, opt_view, pairs_view, rejected_field, strings_view};
use crate::stats::{peak_bucket, record_event, recorded};
use crate::text::{join2, str_eq};
use crate::time::{minute_label, minute_text, rfc3339_text, to_rfc3339, Timestamp};
use crate::types::{
    severity_base, Bucket, Event, Fingerprint, InboundEvent, InboundFrame, IncidentSummary,
    IssueGroup, IssueGroupSummary, Severity, StackFrameOutput, StatsState, SuspectedCause,
    TriggerReason,
};

verus! {

/// Exception type that marks a deploy (push) event.
pub open spec fn is_deploy(exception_type: Seq<char>) -> bool {
    exception_type == "GitPush"@
}

/// The trigger of an occurrence, by priority: deploy, new issue in
/// production, regression in production, spike at or over the threshold.
pub open spec fn trigger_of(
    exception_type: Seq<char>,
    is_new: bool,
    environment: Seq<char>,
    is_regression: bool,
    spike_milli: int,
    threshold_milli: int,
) -> Option<TriggerReason> {
    if is_deploy(exception_type) {
        Some(TriggerReason::Deploy)
    } else if is_new && environment == "prod"@ {
        Some(TriggerReason::NewIssue)
    } else if is_regression && environment == "prod"@ {
        Some(TriggerReason::Regression)
    } else if spike_milli >= threshold_milli {
        Some(TriggerReason::Spike)
    } else {
        None
    }
}

/// Decides the trigger of an occurrence; see `trigger_of`.
pub fn decide_trigger(
    exception_type: &str,
    is_new: bool,
    environment: &str,
    is_regression: bool,
    spike_milli: u128,
    threshold_milli: u64,
) -> (r: Option<TriggerReason>)
    ensures
        r == trigger_of(
            exception_type@,
            is_new,
            environment@,
            is_regression,
            spike_milli as int,
            threshold_milli as int,
        ),
{
    if str_eq(exception_type, "GitPush") {
        Some(TriggerReason::Deploy)
    } else if is_new && str_eq(environment, "prod") {
        Some(TriggerReason::NewIssue)
    } else if is_regression && str_eq(environment, "prod") {
        Some(TriggerReason::Regression)
    } else if spike_milli >= threshold_milli as u128 {
        Some(TriggerReason::Spike)
    } else {
        None
    }
}

/// A first occurrence outside production never opens a new-issue incident,
/// and opens none at all unless it is a deploy or a spike.
pub proof fn new_issue_only_in_production(
    exception_type: Seq<char>,
    environment: Seq<char>,
    is_regression: bool,
    spike_milli: int,
    threshold_milli: int,
)
    requires
        environment != "prod"@,
    ensures
        trigger_of(exception_type, true, environment, is_regression, spike_milli, threshold_milli)
            != Some(TriggerReason::NewIssue),
        !is_deploy(exception_type) && spike_milli < threshold_milli ==> trigger_of(
            exception_type,
            true,
            environment,
            is_regression,
            spike_milli,
            threshold_milli,
        ) is None,
{
}

/// Bonus of a trigger in the priority score.
pub open spec fn trigger_bonus(t: TriggerReason) -> int {
    match t {
        TriggerReason::NewIssue => 10,
        TriggerReason::Regression => 15,
        TriggerReason::Spike => 20,
        TriggerReason::Deploy => 5,
    }
}

/// Spike bonus: twice the spike factor's excess over one, whole, within 0..=20.
pub open spec fn spike_bonus(spike_milli: int) -> int {
    if spike_milli <= 1000 {
        0
    } else if (spike_milli - 1000) * 2 / 1000 > 20 {
        20
    } else {
        (spike_milli - 1000) * 2 / 1000
    }
}

/// Priority: severity base + trigger bonus + spike bonus, at most 100.
pub open spec fn priority_of(s: Severity, t: TriggerReason, spike_milli: int) -> int {
    let p = severity_base(s) + trigger_bonus(t) + spike_bonus(spike_milli);
    if p > 100 {
        100
    } else {
        p
    }
}

/// Priority score of an incident; see `priority_of`.
pub fn priority_score(severity: Severity, trigger: TriggerReason, spike_milli: u128) -> (r: u8)
    ensures
        r == priority_of(severity, trigger, spike_milli as int),
{
    let tb: u8 = match trigger {
        TriggerReason::NewIssue => 10,
        TriggerReason::Regression => 15,
        TriggerReason::Spike => 20,
        TriggerReason::Deploy => 5,
    };
    let sb: u8 = if spike_milli <= 1000 {
        0
    } else if (spike_milli - 1000) / 500 > 20 {
        20
    } else {
        ((spike_milli - 1000) / 500) as u8
    };
    proof {
        let x = spike_milli as int - 1000;
        if x > 0 {
            assert(x * 2 / 1000 == x / 500) by {
                vstd::arithmetic::div_mod::lemma_div_denominator(x * 2, 2, 500);
                vstd::arithmetic::div_mod::lemma_div_by_multiple(x, 2);
                assert(x * 2 / 2 == x) by {
                    vstd::arithmetic::div_mod::lemma_div_by_multiple(x, 2);
                }
            }
        }
    }
    let p: u8 = severity.score() + tb + sb;
    if p > 100 {
        100
    } else {
        p
    }
}

/// Label of a trigger in a title.
pub open spec fn trigger_label(t: TriggerReason) -> Seq<char> {
    match t {
        TriggerReason::Spike => "Spike"@,
        TriggerReason::NewIssue => "New issue"@,
        TriggerReason::Regression => "Regression"@,
        TriggerReason::Deploy => "Deploy"@,
    }
}

/// Label of a trigger in a title.
fn label(t: TriggerReason) -> (r: &'static str)
    ensures
        r@ == trigger_label(t),
{
    match t {
        TriggerReason::Spike => "Spike",
        TriggerReason::NewIssue => "New issue",
        TriggerReason::Regression => "Regression",
        TriggerReason::Deploy => "Deploy",
    }
}

/// `<label>: <exception type> in <service>/<environment>`.
pub open spec fn title_of(t: TriggerReason, g: IssueGroup) -> Seq<char> {
    trigger_label(t) + ": "@ + g.exception_type@ + " in "@ + g.service@ + "/"@ + g.environment@
}

/// The first actions recommended for a trigger.
pub open spec fn base_actions(t: TriggerReason) -> Seq<Seq<char>> {
    match t {
        TriggerReason::Spike => seq![
            "Check dashboards for increased traffic or external dependency failures"@,
            "Review recent deploys that may have introduced the regression"@,
        ],
        TriggerReason::NewIssue => seq![
            "Investigate the new exception type and its root cause"@,
            "Check if a recent deploy introduced this code path"@,
        ],
        TriggerReason::Regression => seq![
            "Compare current stack trace with the previous occurrence"@,
            "Check if a recent change re-introduced a previously fixed bug"@,
        ],
        TriggerReason::Deploy => seq![
            "Review the commit message and changed files for risk"@,
            "Monitor for errors correlated to this deploy"@,
        ],
    }
}

/// The recommended actions: those of the trigger, then the top suspect if any.
pub open spec fn actions_of(t: TriggerReason, causes: Seq<SuspectedCause>) -> Seq<Seq<char>> {
    if causes.len() > 0 {
        base_actions(t).push("Review top suspect commit: "@ + causes[0].commit_id@)
    } else {
        base_actions(t)
    }
}

fn recommended_actions(t: TriggerReason, causes: &Vec<SuspectedCause>) -> (r: Vec<String>)
    ensures
        strings_view(r@) == actions_of(t, causes@),
{
    let mut v: Vec<String> = Vec::new();
    match t {
        TriggerReason::Spike => {
            v.push(String::from_str("Check dashboards for increased traffic or external dependency failures"));
            v.push(String::from_str("Review recent deploys that may have introduced the regression"));
        },
        TriggerReason::NewIssue => {
            v.push(String::from_str("Investigate the new exception type and its root cause"));
            v.push(String::from_str("Check if a recent deploy introduced this code path"));
        },
        TriggerReason::Regression => {
            v.push(String::from_str("Compare current stack trace with the previous occurrence"));
            v.push(String::from_str("Check if a recent change re-introduced a previously fixed bug"));
        },
        TriggerReason::Deploy => {
            v.push(String::from_str("Review the commit message and changed files for risk"));
            v.push(String::from_str("Monitor for errors correlated to this deploy"));
        },
    }
    assert(strings_view(v@) =~= base_actions(t));
    if causes.len() > 0 {
        v.push(join2("Review top suspect commit: ", causes[0].commit_id.as_str()));
        assert(strings_view(v@) =~= actions_of(t, causes@));
    }
    v
}

/// Text of an incident id: `inc-` and the first 16 hex digits of the digest
/// of the fingerprint, `|`, and the first-seen minute.
pub open spec fn incident_id_of(fingerprint: Seq<char>, first_minute: int) -> Seq<char> {
    "inc-"@ + blake3_hex(encode_utf8(fingerprint + "|"@ + minute_text(first_minute))).subrange(0, 16)
}

/// The incident id of a group first seen at `first_seen`.
pub fn incident_id(fingerprint: &str, first_seen: &Timestamp) -> (r: String)
    requires
        first_seen.wf(),
    ensures
        r@ == incident_id_of(fingerprint@, first_seen.minute()),
{
    let m = crate::time::minute_bucket(first_seen);
    let a = join2(fingerprint, "|");
    let b = join2(a.as_str(), m.as_str());
    let h = digest_hex(b.as_str().as_bytes());
    incident_id_from_digest(h.as_str())
}

/// The incident id carried by a hex digest: `inc-` and its first 16 digits.
pub fn incident_id_from_digest(hex: &str) -> (r: String)
    requires
        hex@.len() >= 16,
    ensures
        r@ == "inc-"@ + hex@.subrange(0, 16),
{
    join2("inc-", hex.substring_char(0, 16))
}

/// The group's own summary as a symptom.
pub open spec fn symptom_of(s: IssueGroupSummary, g: IssueGroup, spike_milli: int) -> bool {
    &&& s.fingerprint@ == g.fingerprint.0@
    &&& s.exception_type@ == g.exception_type@
    &&& s.message@ == g.message@
    &&& s.count == g.stats.total_count
    &&& s.spike_factor_centi == (spike_milli + 5) / 10
}

/// A frame as shown: the raw one, line kept.
pub open spec fn shown_frame(f: InboundFrame, o: StackFrameOutput) -> bool {
    &&& o.file@ == f.file@
    &&& opt_view(o.function) == opt_view(f.function)
    &&& o.line == f.line
}

/// The peak time: the busiest minute (earliest among equals) as `YYYY-MM-DDTHH:MM:00Z`.
pub open spec fn peak_of(peak: Option<Seq<char>>, buckets: Seq<Bucket>) -> bool {
    match peak {
        None => buckets.len() == 0,
        Some(p) => exists|b: Bucket|
            #![trigger buckets.contains(b)]
            buckets.contains(b) && p == minute_text(b.minute as int) + ":00Z"@ && forall|j: int|
                0 <= j < buckets.len() ==> (#[trigger] buckets[j]).count < b.count || (
                buckets[j].count == b.count && b.minute <= buckets[j].minute),
    }
}

/// `sm` is the summary of an incident opened by `trigger` for the event `e`
/// (received as `raw`) on group `g` with spike factor `spike_milli`.
pub open spec fn summary_of(
    sm: IncidentSummary,
    raw: InboundEvent,
    e: Event,
    g: IssueGroup,
    spike_milli: int,
    trigger: TriggerReason,
    config: Config,
) -> bool {
    &&& sm.incident_id@ == incident_id_of(g.fingerprint.0@, g.stats.first_seen.minute())
    &&& sm.title@ == title_of(trigger, g)
    &&& sm.service@ == g.service@
    &&& sm.environment@ == g.environment@
    &&& sm.severity == e.severity
    &&& sm.priority_score == priority_of(e.severity, trigger, spike_milli)
    &&& sm.trigger == trigger
    &&& sm.start_time@ == rfc3339_text(g.stats.first_seen.secs as int, g.stats.first_seen.nanos as int)
    &&& sm.last_seen@ == rfc3339_text(g.stats.last_seen.secs as int, g.stats.last_seen.nanos as int)
    &&& peak_of(opt_view(sm.peak_time), g.stats.buckets@)
    &&& sm.top_symptoms@.len() == 1
    &&& symptom_of(sm.top_symptoms@[0], g, spike_milli)
    &&& match e.change_window {
        Some(cw) => {
            &&& sm.suspected_causes@.map_values(|s: SuspectedCause| cause_view(s)).to_multiset()
                == suspects_in_order(
                cw.commits@,
                e.frames@,
                cw.deploy_time,
                e.timestamp,
                e.correlation_hints,
                config,
            ).to_multiset()
            &&& ranked(sm.suspected_causes@.map_values(|s: SuspectedCause| cause_view(s)))
        },
        None => sm.suspected_causes@.len() == 0,
    }
    &&& strings_view(sm.recommended_first_actions@) == actions_of(trigger, sm.suspected_causes@)
    &&& sm.stacktrace@.len() == raw.stacktrace@.len()
    &&& forall|i: int|
        0 <= i < raw.stacktrace@.len() ==> shown_frame(raw.stacktrace@[i], #[trigger] sm.stacktrace@[i])
    &&& pairs_view(sm.links@) == pairs_view(e.links@)
    &&& opt_view(sm.api_route) == opt_view(e.api_route)
    &&& opt_view(sm.request_url) == opt_view(e.request_url)
}

/// Equal statistics: the same buckets and the same numbers.
pub open spec fn same_stats(a: StatsState, b: StatsState) -> bool {
    &&& a.buckets@ == b.buckets@
    &&& a.total_count == b.total_count
    &&& a.first_seen == b.first_seen
    &&& a.last_seen == b.last_seen
    &&& a.baseline_micro == b.baseline_micro
    &&& a.quiet_minutes == b.quiet_minutes
}

/// Empty statistics of a group first seen at `ts`.
pub open spec fn fresh_stats(s: StatsState, ts: Timestamp) -> bool {
    &&& s.wf()
    &&& s.buckets@.len() == 0
    &&& s.total_count == 0
    &&& s.first_seen == ts
    &&& s.last_seen == ts
    &&& s.baseline_micro == 0
    &&& s.quiet_minutes == 0
}

/// No two groups share a fingerprint.
pub open spec fn distinct_fingerprints(gs: Seq<IssueGroup>) -> bool {
    forall|i: int, j: int|
        0 <= i < j < gs.len() ==> (#[trigger] gs[i]).fingerprint.0@ != (#[trigger] gs[j]).fingerprint.0@
}

/// The incident correlation engine: its configuration and its issue groups,
/// one per fingerprint, kept for the engine's lifetime.
pub struct Engine {
    config: Config,
    groups: Vec<IssueGroup>,
    events: u64,
}

/// `after` is the group table `before` once `e` is recorded: the group for
/// its fingerprint, found or newly created from `e`, went from `s0` to its new
/// statistics reporting `r`; no other group changed.
pub open spec fn table_step(
    before: Seq<IssueGroup>,
    after: Seq<IssueGroup>,
    e: Event,
    config: Config,
    i: int,
    s0: StatsState,
    r: (u128, bool),
) -> bool {
    let fp = fingerprint_of(e, config.fingerprint_max_frames as int);
    &&& 0 <= i < after.len()
    &&& after[i].fingerprint.0@ == fp
    &&& recorded(s0, after[i].stats, e.timestamp, config, r)
    &&& if i < before.len() {
        &&& after.len() == before.len()
        &&& before[i].fingerprint.0@ == fp
        &&& same_stats(s0, before[i].stats)
        &&& after[i].exception_type@ == before[i].exception_type@
        &&& after[i].message@ == before[i].message@
        &&& after[i].service@ == before[i].service@
        &&& after[i].environment@ == before[i].environment@
    } else {
        &&& after.len() == before.len() + 1
        &&& i == before.len()
        &&& forall|j: int| 0 <= j < before.len() ==> (#[trigger] before[j]).fingerprint.0@ != fp
        &&& fresh_stats(s0, e.timestamp)
        &&& after[i].exception_type@ == e.exception_type@
        &&& after[i].message@ == e.message@
        &&& after[i].service@ == e.service@
        &&& after[i].environment@ == e.environment@
    }
    &&& forall|j: int| 0 <= j < before.len() && j != i ==> #[trigger] after[j] == before[j]
}

/// The outcome `o` of an occurrence: an incident exactly when a trigger fires.
pub open spec fn outcome_of(
    o: Option<IncidentSummary>,
    raw: InboundEvent,
    e: Event,
    g: IssueGroup,
    s0: StatsState,
    r: (u128, bool),
    config: Config,
) -> bool {
    match trigger_of(
        e.exception_type@,
        s0.total_count == 0,
        e.environment@,
        r.1,
        r.0 as int,
        config.spike_threshold_milli as int,
    ) {
        None => o is None,
        Some(t) => o matches Some(sm) && summary_of(sm, raw, e, g, r.0 as int, t, config),
    }
}

impl Engine {
    /// The configuration.
    pub closed spec fn config_view(&self) -> Config {
        self.config
    }

    /// The issue groups.
    pub closed spec fn groups_view(&self) -> Seq<IssueGroup> {
        self.groups@
    }

    /// Occurrences recorded so far.
    pub closed spec fn events_view(&self) -> u64 {
        self.events
    }

    /// Configuration in range, one group per fingerprint, each group's
    /// statistics well formed and counting no more than all occurrences.
    pub closed spec fn wf(&self) -> bool {
        &&& self.config.wf()
        &&& distinct_fingerprints(self.groups@)
        &&& forall|i: int|
            0 <= i < self.groups@.len() ==> (#[trigger] self.groups@[i]).stats.wf()
                && self.groups@[i].stats.total_count <= self.events
    }

    /// An engine with no groups yet.
    pub fn new(config: Config) -> (r: Engine)
        requires
            config.wf(),
        ensures
            r.wf(),
            r.config_view() == config,
            r.groups_view().len() == 0,
            r.events_view() == 0,
    {
        Engine { config, groups: Vec::new(), events: 0 }
    }

    /// An engine with the default configuration.
    pub fn with_defaults() -> (r: Engine)
        ensures
            r.wf(),
            r.groups_view().len() == 0,
            r.events_view() == 0,
    {
        Engine::new(Config::default())
    }

    /// Occurrences recorded so far.
    pub fn events(&self) -> (r: u64)
        ensures
            r == self.events_view(),
    {
        self.events
    }

    /// Number of issue groups.
    pub fn group_count(&self) -> (r: usize)
        ensures
            r == self.groups_view().len(),
    {
        self.groups.len()
    }

    /// Processes one inbound event.
    ///
    /// An invalid event is rejected with the validation error of `normalize`
    /// and changes nothing. A valid one is recorded in the group of its
    /// fingerprint, created on first sight; the result is the incident summary
    /// when a trigger fires, else `None`.
    pub fn process(&mut self, raw: &InboundEvent) -> (r: Result<Option<IncidentSummary>, EngineError>)
        requires
            old(self).wf(),
            old(self).events_view() < u64::MAX,
        ensures
            final(self).wf(),
            final(self).config_view() == old(self).config_view(),
            r is Err <==> rejected_field(*raw) is Some,
            r matches Err(err) ==> err matches EngineError::Validation { field, .. } && field@
                == rejected_field(*raw).unwrap() && final(self).groups_view() == old(
                self,
            ).groups_view() && final(self).events_view() == old(self).events_view(),
            r matches Ok(o) ==> final(self).events_view() == old(self).events_view() + 1
                && exists|e: Event, i: int, s0: StatsState, rec: (u128, bool)|
                event_of(*raw, e) && table_step(
                    old(self).groups_view(),
                    final(self).groups_view(),
                    e,
                    old(self).config_view(),
                    i,
                    s0,
                    rec,
                ) && outcome_of(
                    o,
                    *raw,
                    e,
                    final(self).groups_view()[i],
                    s0,
                    rec,
                    old(self).config_view(),
                ),
    {
        let event = match normalize(raw) {
            Ok(e) => e,
            Err(err) => {
                return Err(err);
            },
        };
        let fp = compute(&event, self.config.fingerprint_max_frames);
        let ghost old_groups = self.groups@;
        let idx = self.find_group(&fp);
        let i: usize = match idx {
            Some(i) => i,
            None => {
                let g = IssueGroup {
                    fingerprint: Fingerprint(fp.0.clone()),
                    exception_type: event.exception_type.clone(),
                    message: event.message.clone(),
                    service: event.service.clone(),
                    environment: event.environment.clone(),
                    stats: StatsState::new(event.timestamp),
                };
                self.groups.push(g);
                proof {
                    assert(distinct_fingerprints(self.groups@));
                }
                self.groups.len() - 1
            },
        };
        let ghost mid_groups = self.groups@;
        let mut group = self.groups[i].clone_group();
        let ghost s0 = group.stats;
        let is_new = group.stats.total_count == 0;
        let rec = record_event(&mut group.stats, event.timestamp, &self.config);
        let (spike, is_regression) = rec;
        self.events = self.events + 1;
        self.groups.set(i, group);
        let ghost g1 = self.groups@[i as int];
        proof {
            assert(distinct_fingerprints(self.groups@)) by {
                assert forall|a: int, b: int|
                    0 <= a < b < self.groups@.len() implies (#[trigger] self.groups@[a]).fingerprint.0@
                    != (#[trigger] self.groups@[b]).fingerprint.0@ by {
                    assert(mid_groups[a].fingerprint.0@ != mid_groups[b].fingerprint.0@);
                }
            }
            assert(table_step(old_groups, self.groups@, event, self.config, i as int, s0, rec));
        }
        assert(self.groups@[i as int] == g1);
        let trigger = decide_trigger(
            event.exception_type.as_str(),
            is_new,
            event.environment.as_str(),
            is_regression,
            spike,
            self.config.spike_threshold_milli,
        );
        let out = match trigger {
            None => None,
            Some(t) => Some(assemble_summary(raw, &event, &self.groups[i], spike, t, &self.config)),
        };
        proof {
            assert(outcome_of(out, *raw, event, g1, s0, rec, self.config));
            assert(old(self).groups_view() == old_groups);
            assert(self.groups_view() == self.groups@);
            assert(old(self).config_view() == self.config);
            assert(event_of(*raw, event) && table_step(
                old(self).groups_view(),
                self.groups_view(),
                event,
                old(self).config_view(),
                i as int,
                s0,
                rec,
            ) && outcome_of(
                out,
                *raw,
                event,
                self.groups_view()[i as int],
                s0,
                rec,
                old(self).config_view(),
            ));
        }
        Ok(out)
    }

    /// Index of the group with this fingerprint.
    fn find_group(&self, fp: &Fingerprint) -> (r: Option<usize>)
        ensures
            r matches Some(i) ==> i < self.groups@.len() && self.groups@[i as int].fingerprint.0@
                == fp.0@,
            r is None ==> forall|j: int|
                0 <= j < self.groups@.len() ==> (#[trigger] self.groups@[j]).fingerprint.0@ != fp.0@,
    {
        let mut i: usize = 0;
        while i < self.groups.len()
            invariant
                i <= self.groups@.len(),
                forall|j: int| 0 <= j < i ==> (#[trigger] self.groups@[j]).fingerprint.0@ != fp.0@,
            decreases self.groups@.len() - i,
        {
            if str_eq(self.groups[i].fingerprint.0.as_str(), fp.0.as_str()) {
                return Some(i);
            }
            i += 1;
        }
        None
    }
}

impl IssueGroup {
    /// A copy of the group.
    pub fn clone_group(&self) -> (r: IssueGroup)
        ensures
            r.fingerprint.0@ == self.fingerprint.0@,
            r.exception_type@ == self.exception_type@,
            r.message@ == self.message@,
            r.service@ == self.service@,
            r.environment@ == self.environment@,
            same_stats(r.stats, self.stats),
    {
        IssueGroup {
            fingerprint: Fingerprint(self.fingerprint.0.clone()),
            exception_type: self.exception_type.clone(),
            message: self.message.clone(),
            service: self.service.clone(),
            environment: self.environment.clone(),
            stats: self.stats.clone_stats(),
        }
    }
}

impl StatsState {
    /// A copy of the statistics.
    pub fn clone_stats(&self) -> (r: StatsState)
        ensures
            same_stats(r, *self),
    {
        let buckets = self.buckets.clone();
        assert(buckets@ =~= self.buckets@);
        StatsState {
            buckets,
            total_count: self.total_count,
            first_seen: self.first_seen,
            last_seen: self.last_seen,
            baseline_micro: self.baseline_micro,
            quiet_minutes: self.quiet_minutes,
        }
    }
}

fn show_frames(st: &Vec<InboundFrame>) -> (r: Vec<StackFrameOutput>)
    ensures
        r@.len() == st@.len(),
        forall|i: int| 0 <= i < st@.len() ==> shown_frame(st@[i], #[trigger] r@[i]),
{
    let mut r: Vec<StackFrameOutput> = Vec::new();
    let mut i: usize = 0;
    while i < st.len()
        invariant
            i <= st@.len(),
            r@.len() == i,
            forall|j: int| 0 <= j < i ==> shown_frame(st@[j], #[trigger] r@[j]),
        decreases st@.len() - i,
    {
        let f = &st[i];
        r.push(StackFrameOutput { file: f.file.clone(), function: f.function.clone(), line: f.line });
        i += 1;
    }
    r
}

/// Assembles the incident summary for group `g` and the event `e` received as `raw`.
pub fn assemble_summary(
    raw: &InboundEvent,
    e: &Event,
    g: &IssueGroup,
    spike_milli: u128,
    trigger: TriggerReason,
    config: &Config,
) -> (r: IncidentSummary)
    requires
        config.wf(),
        g.stats.wf(),
        e.timestamp.wf(),
        e.change_window matches Some(cw) ==> cw.deploy_time.wf(),
    ensures
        summary_of(r, *raw, *e, *g, spike_milli as int, trigger, *config),
{
    let incident_id = incident_id(g.fingerprint.0.as_str(), &g.stats.first_seen);
    let a = join2(label(trigger), ": ");
    let b = join2(a.as_str(), g.exception_type.as_str());
    let c = join2(b.as_str(), " in ");
    let d = join2(c.as_str(), g.service.as_str());
    let f = join2(d.as_str(), "/");
    let title = join2(f.as_str(), g.environment.as_str());
    let symptom = IssueGroupSummary {
        fingerprint: g.fingerprint.0.clone(),
        exception_type: g.exception_type.clone(),
        message: g.message.clone(),
        count: g.stats.total_count,
        spike_factor_centi: round_tenth(spike_milli),
    };
    let suspected_causes = match &e.change_window {
        Some(cw) => rank_suspects(
            e.frames.as_slice(),
            cw,
            &e.timestamp,
            &e.correlation_hints,
            config,
        ),
        None => Vec::new(),
    };
    let actions = recommended_actions(trigger, &suspected_causes);
    let peak_time = match peak_bucket(&g.stats.buckets) {
        Some(bk) => {
            proof {
                let k = choose|k: int| 0 <= k < g.stats.buckets@.len() && g.stats.buckets@[k] == bk;
                assert(g.stats.buckets@[k] == bk);
            }
            let m = minute_label(bk.minute);
            Some(join2(m.as_str(), ":00Z"))
        },
        None => None,
    };
    IncidentSummary {
        incident_id,
        title,
        service: g.service.clone(),
        environment: g.environment.clone(),
        severity: e.severity,
        priority_score: priority_score(e.severity, trigger, spike_milli),
        trigger,
        start_time: to_rfc3339(&g.stats.first_seen),
        last_seen: to_rfc3339(&g.stats.last_seen),
        peak_time,
        top_symptoms: vec![symptom],
        suspected_causes,
        recommended_first_actions: actions,
        stacktrace: show_frames(&raw.stacktrace),
        links: copy_links(&e.links),
        api_route: e.api_route.clone(),
        request_url: e.request_url.clone(),
    }
}

/// `x / 10` rounded half up.
fn round_tenth(x: u128) -> (r: u128)
    ensures
        r == (x + 5) / 10,
{
    let q = x / 10;
    proof {
        vstd::arithmetic::div_mod::lemma_fundamental_div_mod(x as int, 10);
        vstd::arithmetic::div_mod::lemma_mod_bound(x as int, 10);
        if x % 10 >= 5 {
            vstd::arithmetic::div_mod::lemma_fundamental_div_mod_converse_div(
                x + 5,
                10,
                q + 1,
                x % 10 - 5,
            );
        } else {
            vstd::arithmetic::div_mod::lemma_fundamental_div_mod_converse_div(x + 5, 10, q as int, x % 10 + 5);
        }
    }
    if x % 10 >= 5 {
        q + 1
    } else {
        q
    }
}

fn copy_links(v: &Vec<(String, String)>) -> (r: Vec<(String, String)>)
    ensures
        pairs_view(r@) == pairs_view(v@),
{
    let mut r: Vec<(String, String)> = Vec::new();
    let mut i: usize = 0;
    while i < v.len()
        invariant
            i <= v@.len(),
            r@.len() == i,
            forall|j: int|
                0 <= j < i ==> (#[trigger] r@[j]).0@ == v@[j].0@ && r@[j].1@ == v@[j].1@,
        decreases v@.len() - i,
    {
        let (k, x) = &v[i];
        r.push((k.clone(), x.clone()));
        i += 1;
    }
    assert(pairs_view(r@) =~= pairs_view(v@));
    r
}

/// The first occurrence of a fingerprint opens its group with a spike
/// factor of exactly one and no regression.
pub proof fn new_group_never_spikes(
    before: Seq<IssueGroup>,
    after: Seq<IssueGroup>,
    e: Event,
    config: Config,
    i: int,
    s0: StatsState,
    r: (u128, bool),
)
    requires
        table_step(before, after, e, config, i, s0, r),
        i == before.len(),
    ensures
        r.0 == 1000,
        !r.1,
{
    crate::stats::first_occurrence_never_spikes(s0, after[i].stats, e.timestamp, config, r);
}

/// Outside production, the first occurrence of a fingerprint never opens a
/// new-issue incident; it opens none unless it is a deploy or a spike.
pub proof fn no_new_issue_outside_production(
    o: Option<IncidentSummary>,
    raw: InboundEvent,
    before: Seq<IssueGroup>,
    after: Seq<IssueGroup>,
    e: Event,
    config: Config,
    i: int,
    s0: StatsState,
    r: (u128, bool),
)
    requires
        table_step(before, after, e, config, i, s0, r),
        outcome_of(o, raw, e, after[i], s0, r, config),
        i == before.len(),
        e.environment@ != "prod"@,
    ensures
        o matches Some(sm) ==> sm.trigger != TriggerReason::NewIssue,
        !is_deploy(e.exception_type@) && r.0 < config.spike_threshold_milli ==> o is None,
{
    new_issue_only_in_production(
        e.exception_type@,
        e.environment@,
        r.1,
        r.0 as int,
        config.spike_threshold_milli as int,
    );
}

} // verus!
