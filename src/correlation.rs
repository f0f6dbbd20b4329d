//! Ranking of a deploy's commits as suspected causes of an incident.
//!
//! A commit's score, in thousandths, is the weighted sum of its stack-frame
//! file overlap, its proximity to the deploy and its risk score, plus a
//! critical-path boost and a low-priority penalty. It is computed exactly as
//! a fraction and rounded half up once.
use vstd::prelude::*;

use crate::config::Config;
use crate::normalize::strings_view;
use crate::text::{
    ascii_lower, chars_of, contains, decimal, decimal_text, ends_with, join2, seq_contains,
    seq_ends_with, string_of, to_ascii_lower,
};
use crate::time::{minutes_between, Timestamp};
use crate::types::{ChangeWindow, CommitInfo, CorrelationHints, Frame, SuspectedCause};

verus! {

/// Boost for touching a critical path, in thousandths.
pub const CRITICAL_BOOST_MILLI: i128 = 150;

/// Penalty for touching only low-priority paths, in thousandths.
pub const LOW_PRIORITY_PENALTY_MILLI: i128 = 200;

/// Trailing slashes removed.
pub open spec fn trim_trailing_slashes(s: Seq<char>) -> Seq<char>
    decreases s.len(),
{
    if s.len() > 0 && s.last() == '/' {
        trim_trailing_slashes(s.drop_last())
    } else {
        s
    }
}

/// A path matches a hint when the hint, lowercased and without trailing
/// slashes, is non-empty and occurs in the lowercased path. A prefix match and
/// a path-segment match are both occurrences.
pub open spec fn hint_matches(path: Seq<char>, hint: Seq<char>) -> bool {
    let h = trim_trailing_slashes(ascii_lower(hint));
    h.len() > 0 && seq_contains(ascii_lower(path), h)
}

/// The path matches one of the hints.
pub open spec fn matches_any(path: Seq<char>, hints: Seq<Seq<char>>) -> bool {
    exists|j: int| 0 <= j < hints.len() && hint_matches(ascii_lower(path), #[trigger] hints[j])
}

/// Some file matches some of the paths.
pub open spec fn touches_paths(files: Seq<Seq<char>>, paths: Seq<Seq<char>>) -> bool {
    paths.len() > 0 && exists|i: int| 0 <= i < files.len() && matches_any(#[trigger] files[i], paths)
}

/// There are files, and every one matches a low-priority path.
pub open spec fn low_priority_only(files: Seq<Seq<char>>, low: Seq<Seq<char>>) -> bool {
    &&& files.len() > 0
    &&& low.len() > 0
    &&& forall|i: int| 0 <= i < files.len() ==> matches_any(#[trigger] files[i], low)
}

/// A commit file overlaps the stack when it is a suffix of a frame's file or has one as a suffix.
pub open spec fn overlaps(file: Seq<char>, frames: Seq<Frame>) -> bool {
    exists|j: int|
        0 <= j < frames.len() && (seq_ends_with((#[trigger] frames[j]).file@, ascii_lower(file))
            || seq_ends_with(ascii_lower(file), frames[j].file@))
}

/// Number of commit files that overlap the stack.
pub open spec fn overlap_count(files: Seq<Seq<char>>, frames: Seq<Frame>) -> int
    decreases files.len(),
{
    if files.len() == 0 {
        0
    } else {
        overlap_count(files.drop_last(), frames) + if overlaps(files.last(), frames) {
            1int
        } else {
            0
        }
    }
}

/// Minutes in the proximity window.
pub open spec fn window_minutes(config: Config) -> int {
    60 * config.correlation_max_hours
}

/// The event came after the deploy, within the window.
pub open spec fn proximate(m: int, config: Config) -> bool {
    0 < m <= window_minutes(config)
}

/// Tenths of an hour in `m` minutes, rounded half up.
pub open spec fn hour_tenths(m: int) -> int {
    (m + 3) / 6
}

/// `m` minutes as hours with one decimal.
pub open spec fn hours_text(m: int) -> Seq<char> {
    decimal_text((hour_tenths(m) / 10) as nat) + "."@ + decimal_text((hour_tenths(m) % 10) as nat)
}

/// Everything the score of one commit depends on.
pub struct CommitFacts {
    pub n: int,
    pub overlap: int,
    pub minutes: int,
    pub risk: Option<u32>,
    pub critical: bool,
    pub low: bool,
}

/// The facts of a commit against a stack, a deploy, an event time and hints.
pub open spec fn facts_of(
    c: CommitInfo,
    frames: Seq<Frame>,
    deploy: Timestamp,
    event_time: Timestamp,
    hints: CorrelationHints,
) -> CommitFacts {
    CommitFacts { minutes: minutes_between(deploy, event_time), ..facts_of_files(c, frames, hints) }
}

/// Denominator of the score: files × window minutes × 100.
pub open spec fn score_den(f: CommitFacts, config: Config) -> int {
    let n1 = if f.n == 0 {
        1
    } else {
        f.n
    };
    let w1 = if proximate(f.minutes, config) {
        window_minutes(config)
    } else {
        1
    };
    n1 * w1 * 100
}

/// Numerator of the score over `score_den`, in thousandths:
/// file weight × overlap / files + time weight × (1 - minutes / window)
/// + risk weight × risk / 100 + boost - penalty.
pub open spec fn score_num(f: CommitFacts, config: Config) -> int {
    let n1 = if f.n == 0 {
        1
    } else {
        f.n
    };
    let prox = proximate(f.minutes, config);
    let w1 = if prox {
        window_minutes(config)
    } else {
        1
    };
    let file_term = if f.n == 0 {
        0
    } else {
        config.correlation_file_weight_milli * f.overlap * w1 * 100
    };
    let time_term = if prox {
        config.correlation_time_weight_milli * (window_minutes(config) - f.minutes) * n1 * 100
    } else {
        0
    };
    let risk_term = match f.risk {
        Some(s) => config.correlation_risk_weight_milli * (if s > 100 {
            100
        } else {
            s as int
        }) * n1 * w1,
        None => 0,
    };
    let bonus = (if f.critical {
        150int
    } else {
        0
    }) - (if f.low {
        200int
    } else {
        0
    });
    file_term + time_term + risk_term + bonus * n1 * w1 * 100
}

/// `num / den` rounded half up, for positive values.
pub open spec fn rounded(num: int, den: int) -> int {
    (2 * num + den) / (2 * den)
}

/// A commit is a suspect unless it touches only low-priority paths and none
/// of the stack, and only when its score is above zero.
pub open spec fn is_suspect(f: CommitFacts, config: Config) -> bool {
    !(f.low && f.overlap == 0) && score_num(f, config) > 0
}

/// The evidence strings of a suspect, in order.
pub open spec fn evidence_of(f: CommitFacts, config: Config) -> Seq<Seq<char>> {
    (if f.overlap > 0 {
        seq![
            decimal_text(f.overlap as nat) + "/"@ + decimal_text(f.n as nat)
                + " changed files overlap stack frames"@,
        ]
    } else {
        Seq::empty()
    }) + (if proximate(f.minutes, config) {
        seq![hours_text(f.minutes) + "h after deploy"@]
    } else {
        Seq::empty()
    }) + (if f.risk is Some && config.correlation_risk_weight_milli > 0 {
        seq!["risk score "@ + decimal_text(f.risk.unwrap() as nat)]
    } else {
        Seq::empty()
    }) + (if f.critical {
        seq!["touches critical path"@]
    } else {
        Seq::empty()
    }) + (if f.low {
        seq!["docs/tests only"@]
    } else {
        Seq::empty()
    })
}

/// What a suspect shows: commit id, score in thousandths, evidence.
pub open spec fn cause_view(s: SuspectedCause) -> (Seq<char>, int, Seq<Seq<char>>) {
    (s.commit_id@, s.score_milli as int, strings_view(s.evidence@))
}

/// The suspect a commit yields, if any.
pub open spec fn suspect_of(
    c: CommitInfo,
    frames: Seq<Frame>,
    deploy: Timestamp,
    event_time: Timestamp,
    hints: CorrelationHints,
    config: Config,
) -> Option<(Seq<char>, int, Seq<Seq<char>>)> {
    let f = facts_of(c, frames, deploy, event_time, hints);
    if is_suspect(f, config) {
        Some((c.id@, rounded(score_num(f, config), score_den(f, config)), evidence_of(f, config)))
    } else {
        None
    }
}

/// The suspects of the first commits, in commit order.
pub open spec fn suspects_in_order(
    commits: Seq<CommitInfo>,
    frames: Seq<Frame>,
    deploy: Timestamp,
    event_time: Timestamp,
    hints: CorrelationHints,
    config: Config,
) -> Seq<(Seq<char>, int, Seq<Seq<char>>)>
    decreases commits.len(),
{
    if commits.len() == 0 {
        Seq::empty()
    } else {
        let rest = suspects_in_order(commits.drop_last(), frames, deploy, event_time, hints, config);
        match suspect_of(commits.last(), frames, deploy, event_time, hints, config) {
            Some(s) => rest.push(s),
            None => rest,
        }
    }
}

/// Code-point lexicographic order on texts (the order of `str`).
pub open spec fn text_less(a: Seq<char>, b: Seq<char>) -> bool
    decreases a.len(),
{
    if a.len() == 0 {
        b.len() > 0
    } else if b.len() == 0 {
        false
    } else if a[0] != b[0] {
        (a[0] as u32) < (b[0] as u32)
    } else {
        text_less(a.drop_first(), b.drop_first())
    }
}

/// `a` ranks before `b`: higher score, or equal score and smaller commit id.
pub open spec fn ranks_before(
    a: (Seq<char>, int, Seq<Seq<char>>),
    b: (Seq<char>, int, Seq<Seq<char>>),
) -> bool {
    a.1 > b.1 || (a.1 == b.1 && text_less(a.0, b.0))
}

/// No element ranks before an earlier one.
pub open spec fn ranked(s: Seq<(Seq<char>, int, Seq<Seq<char>>)>) -> bool {
    forall|i: int, j: int| 0 <= i < j < s.len() ==> !ranks_before(#[trigger] s[j], #[trigger] s[i])
}

pub(crate) proof fn lemma_text_less_trans(a: Seq<char>, b: Seq<char>, c: Seq<char>)
    requires
        text_less(a, b),
        text_less(b, c),
    ensures
        text_less(a, c),
    decreases a.len(),
{
    if a.len() > 0 && b.len() > 0 && c.len() > 0 && a[0] == b[0] && b[0] == c[0] {
        lemma_text_less_trans(a.drop_first(), b.drop_first(), c.drop_first());
    }
}

proof fn lemma_ranks_before_trans(
    a: (Seq<char>, int, Seq<Seq<char>>),
    b: (Seq<char>, int, Seq<Seq<char>>),
    c: (Seq<char>, int, Seq<Seq<char>>),
)
    requires
        ranks_before(a, b),
        ranks_before(b, c),
    ensures
        ranks_before(a, c),
{
    if a.1 == b.1 && b.1 == c.1 {
        lemma_text_less_trans(a.0, b.0, c.0);
    }
}

/// Relies on `Ord` for `str`: byte-wise lexicographic order, which on UTF-8
/// is the code-point lexicographic order.
#[verifier::external_body]
pub(crate) fn str_less(a: &str, b: &str) -> (r: bool)
    ensures
        r == text_less(a@, b@),
{
    a < b
}

/// Trailing slashes removed from a string.
fn trim_slashes_end(s: &str) -> (r: String)
    ensures
        r@ == trim_trailing_slashes(s@),
{
    let cs = chars_of(s);
    let mut end: usize = cs.len();
    assert(s@.subrange(0, end as int) =~= s@);
    while end > 0 && cs[end - 1] == '/'
        invariant
            end <= cs@.len(),
            cs@ == s@,
            trim_trailing_slashes(s@) == trim_trailing_slashes(s@.subrange(0, end as int)),
        decreases end,
    {
        proof {
            assert(s@.subrange(0, end as int).drop_last() =~= s@.subrange(0, end - 1));
        }
        end -= 1;
    }
    let mut out: Vec<char> = Vec::new();
    let mut i: usize = 0;
    while i < end
        invariant
            i <= end <= cs@.len(),
            out@ == cs@.subrange(0, i as int),
        decreases end - i,
    {
        out.push(cs[i]);
        i += 1;
        assert(out@ =~= cs@.subrange(0, i as int));
    }
    assert(s@ =~= s@.subrange(0, s@.len() as int));
    string_of(&out)
}

/// Whether a path matches a hint: the hint, lowercased and without trailing
/// slashes, is non-empty and occurs in the lowercased path (prefix,
/// path-segment and substring matches alike).
pub fn path_matches_hint(path: &str, hint: &str) -> (r: bool)
    ensures
        r == hint_matches(path@, hint@),
{
    let p = to_ascii_lower(path);
    let h = to_ascii_lower(hint);
    let h = trim_slashes_end(h.as_str());
    if h.as_str().is_empty() {
        return false;
    }
    contains(p.as_str(), h.as_str())
}

/// Whether the file matches any of the hints.
fn file_matches_any(file: &String, hints: &[String]) -> (r: bool)
    ensures
        r == matches_any(file@, strings_view(hints@)),
{
    let f = to_ascii_lower(file.as_str());
    let mut j: usize = 0;
    while j < hints.len()
        invariant
            j <= hints@.len(),
            f@ == ascii_lower(file@),
            forall|k: int| 0 <= k < j ==> !hint_matches(ascii_lower(file@), #[trigger] hints@[k]@),
        decreases hints@.len() - j,
    {
        if path_matches_hint(f.as_str(), hints[j].as_str()) {
            assert(strings_view(hints@)[j as int] == hints@[j as int]@);
            return true;
        }
        j += 1;
    }
    assert forall|k: int| 0 <= k < hints@.len() implies !hint_matches(
        ascii_lower(file@),
        #[trigger] strings_view(hints@)[k],
    ) by {
        assert(strings_view(hints@)[k] == hints@[k]@);
    }
    false
}

/// Whether the commit touches any of the given path hints.
pub fn commit_touches_paths(files: &[String], paths: &[String]) -> (r: bool)
    ensures
        r == touches_paths(strings_view(files@), strings_view(paths@)),
{
    if paths.len() == 0 {
        return false;
    }
    let mut i: usize = 0;
    while i < files.len()
        invariant
            i <= files@.len(),
            forall|k: int| 0 <= k < i ==> !matches_any(#[trigger] files@[k]@, strings_view(paths@)),
        decreases files@.len() - i,
    {
        if file_matches_any(&files[i], paths) {
            assert(strings_view(files@)[i as int] == files@[i as int]@);
            return true;
        }
        i += 1;
    }
    assert forall|k: int| 0 <= k < files@.len() implies !matches_any(
        #[trigger] strings_view(files@)[k],
        strings_view(paths@),
    ) by {
        assert(strings_view(files@)[k] == files@[k]@);
    }
    false
}

/// Whether the commit touches only low-priority paths (and touches some).
pub fn commit_is_low_priority_only(files: &[String], low_priority: &[String]) -> (r: bool)
    ensures
        r == low_priority_only(strings_view(files@), strings_view(low_priority@)),
{
    if files.len() == 0 || low_priority.len() == 0 {
        return false;
    }
    let mut i: usize = 0;
    while i < files.len()
        invariant
            i <= files@.len(),
            forall|k: int| 0 <= k < i ==> matches_any(#[trigger] files@[k]@, strings_view(low_priority@)),
        decreases files@.len() - i,
    {
        if !file_matches_any(&files[i], low_priority) {
            assert(strings_view(files@)[i as int] == files@[i as int]@);
            return false;
        }
        i += 1;
    }
    assert forall|k: int| 0 <= k < files@.len() implies matches_any(
        #[trigger] strings_view(files@)[k],
        strings_view(low_priority@),
    ) by {
        assert(strings_view(files@)[k] == files@[k]@);
    }
    true
}

/// Whether a commit file overlaps a stack frame's file.
fn file_overlaps(file: &String, frames: &[Frame]) -> (r: bool)
    ensures
        r == overlaps(file@, frames@),
{
    let f = to_ascii_lower(file.as_str());
    let mut j: usize = 0;
    while j < frames.len()
        invariant
            j <= frames@.len(),
            f@ == ascii_lower(file@),
            forall|k: int|
                0 <= k < j ==> !(seq_ends_with((#[trigger] frames@[k]).file@, ascii_lower(file@))
                    || seq_ends_with(ascii_lower(file@), frames@[k].file@)),
        decreases frames@.len() - j,
    {
        let ff = frames[j].file.as_str();
        if ends_with(ff, f.as_str()) || ends_with(f.as_str(), ff) {
            return true;
        }
        j += 1;
    }
    false
}

proof fn lemma_overlap_count_bounded(files: Seq<Seq<char>>, frames: Seq<Frame>)
    ensures
        0 <= overlap_count(files, frames) <= files.len(),
    decreases files.len(),
{
    if files.len() > 0 {
        lemma_overlap_count_bounded(files.drop_last(), frames);
    }
}

/// Number of commit files that overlap the stack.
fn count_overlap(files: &Vec<String>, frames: &[Frame]) -> (r: usize)
    ensures
        r == overlap_count(strings_view(files@), frames@),
{
    let mut n: usize = 0;
    let mut i: usize = 0;
    while i < files.len()
        invariant
            i <= files@.len(),
            n == overlap_count(strings_view(files@.subrange(0, i as int)), frames@),
            n <= i,
        decreases files@.len() - i,
    {
        let o = file_overlaps(&files[i], frames);
        proof {
            let s = strings_view(files@.subrange(0, i + 1));
            assert(s.drop_last() =~= strings_view(files@.subrange(0, i as int)));
            assert(s.last() == files@[i as int]@);
        }
        if o {
            n += 1;
        }
        i += 1;
    }
    assert(files@.subrange(0, files@.len() as int) =~= files@);
    n
}

/// Upper bound on the number of files a commit can hold.
pub const MAX_FILES: u128 = 0x1_0000_0000_0000_0000;

/// Upper bound on the window, in minutes.
pub const MAX_WINDOW: u128 = 257_698_037_700;

proof fn lemma_rounded_small(num: int, den: int)
    requires
        0 < num <= 3150 * den,
        0 < den,
    ensures
        0 <= rounded(num, den) <= 3151,
{
    vstd::arithmetic::div_mod::lemma_div_pos_is_pos(2 * num + den, 2 * den);
    vstd::arithmetic::div_mod::lemma_div_is_ordered(2 * num + den, 3151 * (2 * den), 2 * den);
    vstd::arithmetic::div_mod::lemma_div_by_multiple(3151, 2 * den);
}

/// The evidence strings of a suspect.
fn evidence_for(
    overlap: usize,
    n: usize,
    minutes: u64,
    prox: bool,
    risk: Option<u32>,
    critical: bool,
    low: bool,
    config: &Config,
) -> (r: Vec<String>)
    requires
        prox == proximate(minutes as int, *config),
    ensures
        strings_view(r@) == evidence_of(
            CommitFacts {
                n: n as int,
                overlap: overlap as int,
                minutes: minutes as int,
                risk,
                critical,
                low,
            },
            *config,
        ),
{
    let ghost f = CommitFacts {
        n: n as int,
        overlap: overlap as int,
        minutes: minutes as int,
        risk,
        critical,
        low,
    };
    let mut ev: Vec<String> = Vec::new();
    if overlap > 0 {
        let a = decimal(overlap as u64);
        let b = join2(a.as_str(), "/");
        let c = decimal(n as u64);
        let d = join2(b.as_str(), c.as_str());
        ev.push(join2(d.as_str(), " changed files overlap stack frames"));
    }
    let ghost s1 = strings_view(ev@);
    assert(s1 =~= if f.overlap > 0 {
        seq![
            decimal_text(f.overlap as nat) + "/"@ + decimal_text(f.n as nat)
                + " changed files overlap stack frames"@,
        ]
    } else {
        Seq::<Seq<char>>::empty()
    });
    if prox {
        let t: u64 = (minutes + 3) / 6;
        let a = decimal(t / 10);
        let b = join2(a.as_str(), ".");
        let c = decimal(t % 10);
        let d = join2(b.as_str(), c.as_str());
        ev.push(join2(d.as_str(), "h after deploy"));
    }
    let ghost s2 = strings_view(ev@);
    assert(s2 =~= s1 + if prox {
        seq![hours_text(f.minutes) + "h after deploy"@]
    } else {
        Seq::<Seq<char>>::empty()
    });
    match risk {
        Some(s) => {
            if config.correlation_risk_weight_milli > 0 {
                ev.push(join2("risk score ", decimal(s as u64).as_str()));
            }
        },
        None => {},
    }
    let ghost s3 = strings_view(ev@);
    assert(s3 =~= s2 + if f.risk is Some && config.correlation_risk_weight_milli > 0 {
        seq!["risk score "@ + decimal_text(f.risk.unwrap() as nat)]
    } else {
        Seq::<Seq<char>>::empty()
    });
    if critical {
        ev.push(String::from_str("touches critical path"));
    }
    let ghost s4 = strings_view(ev@);
    assert(s4 =~= s3 + if f.critical {
        seq!["touches critical path"@]
    } else {
        Seq::<Seq<char>>::empty()
    });
    if low {
        ev.push(String::from_str("docs/tests only"));
    }
    assert(strings_view(ev@) =~= s4 + if f.low {
        seq!["docs/tests only"@]
    } else {
        Seq::<Seq<char>>::empty()
    });
    ev
}

/// `x * y`, within the given bounds.
fn mul_within(x: i128, y: i128, Ghost(bx): Ghost<int>, Ghost(by): Ghost<int>) -> (r: i128)
    requires
        0 <= bx,
        0 <= by,
        -bx <= x <= bx,
        -by <= y <= by,
        bx * by <= 0x7fff_ffff_ffff_ffff_ffff_ffff_ffff_ffff,
    ensures
        r == x * y,
        -(bx * by) <= r <= bx * by,
{
    proof {
        assert(-(bx * by) <= x * y <= bx * by) by (nonlinear_arith)
            requires
                0 <= bx,
                0 <= by,
                -bx <= x <= bx,
                -by <= y <= by,
        ;
    }
    x * y
}

proof fn lemma_fraction_bound(f: CommitFacts, config: Config)
    requires
        config.wf(),
        0 <= f.overlap <= f.n,
        0 <= f.minutes,
    ensures
        0 < score_den(f, config),
        score_num(f, config) <= 3150 * score_den(f, config),
{
    let n1 = if f.n == 0 {
        1
    } else {
        f.n
    };
    let prox = proximate(f.minutes, config);
    let w1 = if prox {
        window_minutes(config)
    } else {
        1
    };
    let wf = config.correlation_file_weight_milli as int;
    let wt = config.correlation_time_weight_milli as int;
    let wr = config.correlation_risk_weight_milli as int;
    let tm = if prox {
        window_minutes(config) - f.minutes
    } else {
        0
    };
    let s1 = match f.risk {
        Some(s) => if s > 100 {
            100
        } else {
            s as int
        },
        None => 0,
    };
    let d = n1 * w1 * 100;
    assert(1 <= n1 && 1 <= w1);
    assert(0 < d) by (nonlinear_arith)
        requires
            1 <= n1,
            1 <= w1,
            d == n1 * w1 * 100,
    ;
    assert(wf * f.overlap * w1 * 100 <= 1000 * d) by (nonlinear_arith)
        requires
            0 <= wf <= 1000,
            0 <= f.overlap <= n1,
            1 <= w1,
            d == n1 * w1 * 100,
    ;
    assert(wt * tm * n1 * 100 <= 1000 * d) by (nonlinear_arith)
        requires
            0 <= wt <= 1000,
            0 <= tm <= w1,
            1 <= n1,
            d == n1 * w1 * 100,
    ;
    assert(wr * s1 * n1 * w1 <= 1000 * d) by (nonlinear_arith)
        requires
            0 <= wr <= 1000,
            0 <= s1 <= 100,
            1 <= n1,
            1 <= w1,
            d == n1 * w1 * 100,
    ;
    let bonus = (if f.critical {
        150int
    } else {
        0
    }) - (if f.low {
        200int
    } else {
        0
    });
    assert(bonus * n1 * w1 * 100 <= 150 * d) by (nonlinear_arith)
        requires
            bonus <= 150,
            1 <= n1,
            1 <= w1,
            d == n1 * w1 * 100,
    ;
}

/// The score of a commit as a fraction, in thousandths: `(score_num, score_den)`.
fn score_fraction(
    n: usize,
    overlap: usize,
    minutes: u64,
    risk: Option<u32>,
    critical: bool,
    low: bool,
    config: &Config,
) -> (r: (i128, i128))
    requires
        config.wf(),
        overlap <= n,
    ensures
        ({
            let f = CommitFacts {
                n: n as int,
                overlap: overlap as int,
                minutes: minutes as int,
                risk,
                critical,
                low,
            };
            &&& r.0 == score_num(f, *config)
            &&& r.1 == score_den(f, *config)
            &&& 0 < r.1 <= MAX_FILES * MAX_WINDOW * 100
            &&& r.0 <= 3150 * r.1
        }),
{
    let ghost f = CommitFacts {
        n: n as int,
        overlap: overlap as int,
        minutes: minutes as int,
        risk,
        critical,
        low,
    };
    let ghost mf = MAX_FILES as int;
    let ghost mw = MAX_WINDOW as int;
    let window: u64 = 60 * config.correlation_max_hours as u64;
    let prox = 0 < minutes && minutes <= window;
    let n1: i128 = if n == 0 {
        1
    } else {
        n as i128
    };
    let w1: i128 = if prox {
        window as i128
    } else {
        1
    };
    let wf = config.correlation_file_weight_milli as i128;
    let wt = config.correlation_time_weight_milli as i128;
    let wr = config.correlation_risk_weight_milli as i128;
    let file_term: i128 = if n == 0 {
        0
    } else {
        let x = mul_within(wf, overlap as i128, Ghost(1000), Ghost(mf));
        let y = mul_within(x, w1, Ghost(1000 * mf), Ghost(mw));
        mul_within(y, 100, Ghost(1000 * mf * mw), Ghost(100))
    };
    let time_term: i128 = if prox {
        let tm = (window - minutes) as i128;
        let x = mul_within(wt, tm, Ghost(1000), Ghost(mw));
        let y = mul_within(x, n1, Ghost(1000 * mw), Ghost(mf));
        mul_within(y, 100, Ghost(1000 * mw * mf), Ghost(100))
    } else {
        0
    };
    let risk_term: i128 = match risk {
        Some(s) => {
            let s1: i128 = if s > 100 {
                100
            } else {
                s as i128
            };
            let x = mul_within(wr, s1, Ghost(1000), Ghost(100));
            let y = mul_within(x, n1, Ghost(100_000), Ghost(mf));
            mul_within(y, w1, Ghost(100_000 * mf), Ghost(mw))
        },
        None => 0,
    };
    let bonus: i128 = (if critical {
        CRITICAL_BOOST_MILLI
    } else {
        0
    }) - (if low {
        LOW_PRIORITY_PENALTY_MILLI
    } else {
        0
    });
    let bx = mul_within(bonus, n1, Ghost(200), Ghost(mf));
    let by = mul_within(bx, w1, Ghost(200 * mf), Ghost(mw));
    let bonus_term = mul_within(by, 100, Ghost(200 * mf * mw), Ghost(100));
    let dx = mul_within(n1, w1, Ghost(mf), Ghost(mw));
    let den: i128 = mul_within(dx, 100, Ghost(mf * mw), Ghost(100));
    let num: i128 = file_term + time_term + risk_term + bonus_term;
    proof {
        assert(window_minutes(*config) == window as int);
        assert(num as int == score_num(f, *config));
        assert(den as int == score_den(f, *config));
        lemma_fraction_bound(f, *config);
    }
    (num, den)
}

/// The suspect a commit yields, if any.
fn score_commit(
    commit: &CommitInfo,
    frames: &[Frame],
    minutes: u64,
    hints: &CorrelationHints,
    config: &Config,
) -> (r: Option<SuspectedCause>)
    requires
        config.wf(),
    ensures
        r matches Some(s) ==> Some(cause_view(s)) == {
            let f = CommitFacts {
                minutes: minutes as int,
                ..facts_of_files(*commit, frames@, *hints)
            };
            if is_suspect(f, *config) {
                Some(
                    (
                        commit.id@,
                        rounded(score_num(f, *config), score_den(f, *config)),
                        evidence_of(f, *config),
                    ),
                )
            } else {
                None
            }
        },
        r is None ==> !is_suspect(
            CommitFacts { minutes: minutes as int, ..facts_of_files(*commit, frames@, *hints) },
            *config,
        ),
{
    let ghost f = CommitFacts { minutes: minutes as int, ..facts_of_files(*commit, frames@, *hints) };
    let n = commit.files.len();
    let overlap = count_overlap(&commit.files, frames);
    let critical = commit_touches_paths(commit.files.as_slice(), hints.critical_paths.as_slice());
    let low = commit_is_low_priority_only(
        commit.files.as_slice(),
        hints.low_priority_paths.as_slice(),
    );
    if low && overlap == 0 {
        return None;
    }
    proof {
        lemma_overlap_count_bounded(strings_view(commit.files@), frames@);
    }
    let ghost g = CommitFacts {
        n: n as int,
        overlap: overlap as int,
        minutes: minutes as int,
        risk: commit.risk_score,
        critical,
        low,
    };
    assert(g == f);
    let (num, den) = score_fraction(n, overlap, minutes, commit.risk_score, critical, low, config);
    let window: u64 = 60 * config.correlation_max_hours as u64;
    let prox = 0 < minutes && minutes <= window;
    if num <= 0 {
        return None;
    }
    proof {
        lemma_rounded_small(num as int, den as int);
        assert(2 * num + den <= 6301 * den);
        assert(den as int <= MAX_FILES * MAX_WINDOW * 100);
    }
    let score: i128 = (2 * num + den) / (2 * den);
    let evidence = evidence_for(overlap, n, minutes, prox, commit.risk_score, critical, low, config);
    Some(SuspectedCause { commit_id: commit.id.clone(), score_milli: score as u64, evidence })
}

/// The facts of a commit that do not depend on time.
pub open spec fn facts_of_files(c: CommitInfo, frames: Seq<Frame>, hints: CorrelationHints) -> CommitFacts {
    CommitFacts {
        n: c.files@.len() as int,
        overlap: overlap_count(strings_view(c.files@), frames),
        minutes: 0,
        risk: c.risk_score,
        critical: touches_paths(strings_view(c.files@), strings_view(hints.critical_paths@)),
        low: low_priority_only(strings_view(c.files@), strings_view(hints.low_priority_paths@)),
    }
}

pub(crate) proof fn lemma_text_less_irreflexive(a: Seq<char>)
    ensures
        !text_less(a, a),
    decreases a.len(),
{
    if a.len() > 0 {
        lemma_text_less_irreflexive(a.drop_first());
    }
}

type CauseView = (Seq<char>, int, Seq<Seq<char>>);

proof fn lemma_insert_ranked(s: Seq<CauseView>, pos: int, x: CauseView)
    requires
        ranked(s),
        0 <= pos <= s.len(),
        forall|q: int| 0 <= q < pos ==> !ranks_before(x, #[trigger] s[q]),
        pos < s.len() ==> ranks_before(x, s[pos]),
    ensures
        ranked(s.insert(pos, x)),
{
    let t = s.insert(pos, x);
    assert forall|i: int, j: int| 0 <= i < j < t.len() implies !ranks_before(
        #[trigger] t[j],
        #[trigger] t[i],
    ) by {
        if i == pos {
            let q = j - 1;
            assert(t[j] == s[q]);
            if ranks_before(s[q], x) {
                lemma_ranks_before_trans(s[q], x, s[pos]);
                if q == pos {
                    lemma_text_less_irreflexive(s[pos].0);
                }
            }
        } else if j == pos {
            assert(t[i] == s[i]);
        } else {
            let i0 = if i < pos {
                i
            } else {
                i - 1
            };
            let j0 = if j < pos {
                j
            } else {
                j - 1
            };
            assert(t[i] == s[i0]);
            assert(t[j] == s[j0]);
        }
    }
}

/// Ranks the commits of a change window as suspected causes of an event
/// with the given stack frames at `event_time`: each commit yields at most
/// one suspect (see `suspect_of`), and the suspects come by score, highest
/// first, then by commit id, smallest first.
pub fn rank_suspects(
    frames: &[Frame],
    change_window: &ChangeWindow,
    event_time: &Timestamp,
    hints: &CorrelationHints,
    config: &Config,
) -> (r: Vec<SuspectedCause>)
    requires
        config.wf(),
        change_window.deploy_time.wf(),
        event_time.wf(),
    ensures
        r@.map_values(|s: SuspectedCause| cause_view(s)).to_multiset() == suspects_in_order(
            change_window.commits@,
            frames@,
            change_window.deploy_time,
            *event_time,
            *hints,
            *config,
        ).to_multiset(),
        ranked(r@.map_values(|s: SuspectedCause| cause_view(s))),
        forall|i: int, j: int|
            0 <= i < j < r@.len() && (#[trigger] r@[i]).score_milli == (#[trigger] r@[j]).score_milli
                ==> !text_less(r@[j].commit_id@, r@[i].commit_id@),
{
    let ghost commits = change_window.commits@;
    let ghost deploy = change_window.deploy_time;
    let minutes = event_time.minutes_since(&change_window.deploy_time);
    let mut cands: Vec<SuspectedCause> = Vec::new();
    let mut i: usize = 0;
    while i < change_window.commits.len()
        invariant
            i <= commits.len(),
            commits == change_window.commits@,
            deploy == change_window.deploy_time,
            minutes == minutes_between(deploy, *event_time),
            config.wf(),
            cands@.map_values(|s: SuspectedCause| cause_view(s)) == suspects_in_order(
                commits.take(i as int),
                frames@,
                deploy,
                *event_time,
                *hints,
                *config,
            ),
        decreases commits.len() - i,
    {
        let c = &change_window.commits[i];
        let o = score_commit(c, frames, minutes, hints, config);
        proof {
            assert(commits.take(i + 1).drop_last() =~= commits.take(i as int));
            assert(commits.take(i + 1).last() == *c);
        }
        match o {
            Some(x) => {
                cands.push(x);
                assert(cands@.map_values(|s: SuspectedCause| cause_view(s)) =~= suspects_in_order(
                    commits.take(i as int),
                    frames@,
                    deploy,
                    *event_time,
                    *hints,
                    *config,
                ).push(cause_view(x)));
            },
            None => {},
        }
        i += 1;
    }
    assert(commits.take(commits.len() as int) =~= commits);
    let ghost cv = cands@.map_values(|s: SuspectedCause| cause_view(s));
    let mut out: Vec<SuspectedCause> = Vec::new();
    let mut k: usize = 0;
    assert(out@.map_values(|s: SuspectedCause| cause_view(s)) =~= cv.take(0));
    while k < cands.len()
        invariant
            k <= cands@.len(),
            cv == cands@.map_values(|s: SuspectedCause| cause_view(s)),
            ranked(out@.map_values(|s: SuspectedCause| cause_view(s))),
            out@.map_values(|s: SuspectedCause| cause_view(s)).to_multiset() == cv.take(
                k as int,
            ).to_multiset(),
        decreases cands@.len() - k,
    {
        let x = cands[k].clone_cause();
        let ghost ov = out@.map_values(|s: SuspectedCause| cause_view(s));
        let mut pos: usize = 0;
        while pos < out.len() && !before(&x, &out[pos])
            invariant
                pos <= out@.len(),
                ov == out@.map_values(|s: SuspectedCause| cause_view(s)),
                forall|q: int| 0 <= q < pos ==> !ranks_before(cause_view(x), #[trigger] ov[q]),
            decreases out@.len() - pos,
        {
            pos += 1;
        }
        proof {
            lemma_insert_ranked(ov, pos as int, cause_view(x));
            assert(cv.take(k + 1) =~= cv.take(k as int).push(cv[k as int]));
            vstd::seq_lib::to_multiset_insert(ov, pos as int, cause_view(x));
            vstd::seq_lib::to_multiset_build(cv.take(k as int), cv[k as int]);
        }
        out.insert(pos, x);
        assert(out@.map_values(|s: SuspectedCause| cause_view(s)) =~= ov.insert(
            pos as int,
            cause_view(x),
        ));
        k += 1;
    }
    assert(cv.take(cands@.len() as int) =~= cv);
    let ghost rv = out@.map_values(|s: SuspectedCause| cause_view(s));
    assert forall|i: int, j: int|
        0 <= i < j < out@.len() && (#[trigger] out@[i]).score_milli == (
        #[trigger] out@[j]).score_milli implies !text_less(out@[j].commit_id@, out@[i].commit_id@) by {
        assert(!ranks_before(rv[j], rv[i]));
    }
    out
}

/// `a` ranks before `b`.
fn before(a: &SuspectedCause, b: &SuspectedCause) -> (r: bool)
    ensures
        r == ranks_before(cause_view(*a), cause_view(*b)),
{
    a.score_milli > b.score_milli || (a.score_milli == b.score_milli && str_less(
        a.commit_id.as_str(),
        b.commit_id.as_str(),
    ))
}

impl SuspectedCause {
    /// A copy with the same id, score and evidence.
    pub fn clone_cause(&self) -> (r: SuspectedCause)
        ensures
            cause_view(r) == cause_view(*self),
    {
        let mut evidence: Vec<String> = Vec::new();
        let mut i: usize = 0;
        while i < self.evidence.len()
            invariant
                i <= self.evidence@.len(),
                evidence@.len() == i,
                forall|j: int| 0 <= j < i ==> (#[trigger] evidence@[j])@ == self.evidence@[j]@,
            decreases self.evidence@.len() - i,
        {
            evidence.push(self.evidence[i].clone());
            i += 1;
        }
        assert(strings_view(evidence@) =~= strings_view(self.evidence@));
        SuspectedCause { commit_id: self.commit_id.clone(), score_milli: self.score_milli, evidence }
    }
}

/// A commit that touches only low-priority paths and no stack-frame file is
/// never a suspect, whatever its score would be.
pub proof fn low_priority_only_never_suspected(
    c: CommitInfo,
    frames: Seq<Frame>,
    deploy: Timestamp,
    event_time: Timestamp,
    hints: CorrelationHints,
    config: Config,
)
    requires
        low_priority_only(strings_view(c.files@), strings_view(hints.low_priority_paths@)),
        overlap_count(strings_view(c.files@), frames) == 0,
    ensures
        suspect_of(c, frames, deploy, event_time, hints, config) is None,
{
}

/// Every suspect listed comes from a commit of the window that yields it.
pub proof fn suspects_come_from_commits(
    commits: Seq<CommitInfo>,
    frames: Seq<Frame>,
    deploy: Timestamp,
    event_time: Timestamp,
    hints: CorrelationHints,
    config: Config,
    x: CauseView,
)
    requires
        suspects_in_order(commits, frames, deploy, event_time, hints, config).contains(x),
    ensures
        exists|i: int|
            0 <= i < commits.len() && suspect_of(#[trigger] commits[i], frames, deploy, event_time, hints, config)
                == Some(x),
    decreases commits.len(),
{
    let rest = suspects_in_order(commits.drop_last(), frames, deploy, event_time, hints, config);
    let last = suspect_of(commits.last(), frames, deploy, event_time, hints, config);
    if rest.contains(x) {
        suspects_come_from_commits(commits.drop_last(), frames, deploy, event_time, hints, config, x);
        let i = choose|i: int|
            0 <= i < commits.drop_last().len() && suspect_of(
                #[trigger] commits.drop_last()[i],
                frames,
                deploy,
                event_time,
                hints,
                config,
            ) == Some(x);
        assert(commits[i] == commits.drop_last()[i]);
    } else {
        assert(last == Some(x));
        assert(commits[commits.len() - 1] == commits.last());
    }
}

} // verus!
