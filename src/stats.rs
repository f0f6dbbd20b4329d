//! Streaming per-group statistics: minute buckets, an EWMA baseline, spike
//! factors and regression detection. Spike factors are in thousandths and the
//! baseline in millionths, both rounded down.
use vstd::prelude::*;

use crate::config::Config;
use crate::time::{minutes_between, Timestamp, MAX_SECS, MIN_MINUTE, MIN_SECS};
use crate::types::{Bucket, StatsState};

pub use crate::time::minute_bucket;

verus! {

/// Bound on the baseline, in millionths: the mean of `u64` counts stays below it.
pub const MAX_BASELINE_MICRO: u128 = 18_446_744_073_709_551_616_000_000;

/// Sum of all bucket counts.
pub open spec fn bucket_sum(s: Seq<Bucket>) -> int
    decreases s.len(),
{
    if s.len() == 0 {
        0
    } else {
        bucket_sum(s.drop_last()) + s.last().count
    }
}

/// Occurrences recorded for one minute.
pub open spec fn count_at(s: Seq<Bucket>, minute: int) -> int
    decreases s.len(),
{
    if s.len() == 0 {
        0
    } else {
        count_at(s.drop_last(), minute) + if s.last().minute == minute {
            s.last().count as int
        } else {
            0
        }
    }
}

/// No two buckets share a minute.
pub open spec fn distinct_minutes(s: Seq<Bucket>) -> bool {
    forall|i: int, j: int| 0 <= i < j < s.len() ==> s[i].minute != s[j].minute
}

/// Mean of `sum` over `n` buckets, in millionths, rounded down.
pub open spec fn mean_micro(sum: int, n: int) -> int {
    sum * 1_000_000 / n
}

/// One EWMA step: `alpha * mean + (1 - alpha) * baseline`, alpha in thousandths, rounded down.
pub open spec fn ewma_step(alpha_milli: int, mean: int, baseline: int) -> int {
    (alpha_milli * mean + (1000 - alpha_milli) * baseline) / 1000
}

/// Spike factor in thousandths: the current bucket's count over the baseline;
/// the count itself while the baseline is zero but history exists; exactly 1
/// for the very first occurrence.
pub open spec fn spike_milli(current: int, baseline_micro: int, total: int) -> int {
    if baseline_micro > 0 {
        current * 1_000_000_000 / baseline_micro
    } else if total > 1 {
        current * 1000
    } else {
        1000
    }
}

impl StatsState {
    /// Buckets keyed uniquely and non-empty, the total their sum, the baseline bounded.
    pub open spec fn wf(&self) -> bool {
        &&& distinct_minutes(self.buckets@)
        &&& forall|i: int| 0 <= i < self.buckets@.len() ==> (#[trigger] self.buckets@[i]).count > 0
        &&& forall|i: int|
            0 <= i < self.buckets@.len() ==> MIN_MINUTE <= (#[trigger] self.buckets@[i]).minute
                <= MAX_SECS / 60
        &&& self.total_count == bucket_sum(self.buckets@)
        &&& self.baseline_micro <= MAX_BASELINE_MICRO
        &&& self.first_seen.wf()
        &&& self.last_seen.wf()
    }

    /// Empty statistics first and last seen at `ts`.
    pub fn new(ts: Timestamp) -> (r: StatsState)
        requires
            ts.wf(),
        ensures
            r.wf(),
            r.buckets@.len() == 0,
            r.total_count == 0,
            r.first_seen == ts,
            r.last_seen == ts,
            r.baseline_micro == 0,
            r.quiet_minutes == 0,
    {
        StatsState {
            buckets: Vec::new(),
            total_count: 0,
            first_seen: ts,
            last_seen: ts,
            baseline_micro: 0,
            quiet_minutes: 0,
        }
    }
}

proof fn lemma_count_push(s: Seq<Bucket>, b: Bucket, m: int)
    ensures
        count_at(s.push(b), m) == count_at(s, m) + if b.minute == m {
            b.count as int
        } else {
            0
        },
        bucket_sum(s.push(b)) == bucket_sum(s) + b.count,
{
    assert(s.push(b).drop_last() =~= s);
}

proof fn lemma_count_update(s: Seq<Bucket>, i: int, b: Bucket, m: int)
    requires
        0 <= i < s.len(),
        s[i].minute == b.minute,
    ensures
        count_at(s.update(i, b), m) == count_at(s, m) + if b.minute == m {
            b.count - s[i].count
        } else {
            0
        },
        bucket_sum(s.update(i, b)) == bucket_sum(s) + b.count - s[i].count,
    decreases s.len(),
{
    let t = s.update(i, b);
    if i == s.len() - 1 {
        assert(t.drop_last() =~= s.drop_last());
    } else {
        assert(t.drop_last() =~= s.drop_last().update(i, b));
        lemma_count_update(s.drop_last(), i, b, m);
    }
}

proof fn lemma_count_absent(s: Seq<Bucket>, m: int)
    requires
        forall|j: int| 0 <= j < s.len() ==> (#[trigger] s[j]).minute != m,
    ensures
        count_at(s, m) == 0,
    decreases s.len(),
{
    if s.len() > 0 {
        lemma_count_absent(s.drop_last(), m);
    }
}

proof fn lemma_count_present(s: Seq<Bucket>, i: int)
    requires
        distinct_minutes(s),
        0 <= i < s.len(),
    ensures
        count_at(s, s[i].minute as int) == s[i].count,
    decreases s.len(),
{
    if i == s.len() - 1 {
        lemma_count_absent(s.drop_last(), s[i].minute as int);
    } else {
        lemma_count_present(s.drop_last(), i);
    }
}

proof fn lemma_count_le_sum(s: Seq<Bucket>, i: int)
    requires
        0 <= i < s.len(),
    ensures
        s[i].count <= bucket_sum(s),
        bucket_sum(s) >= 0,
    decreases s.len(),
{
    lemma_sum_nonneg(s.drop_last());
    if i < s.len() - 1 {
        lemma_count_le_sum(s.drop_last(), i);
    }
}

proof fn lemma_sum_nonneg(s: Seq<Bucket>)
    ensures
        bucket_sum(s) >= 0,
    decreases s.len(),
{
    if s.len() > 0 {
        lemma_sum_nonneg(s.drop_last());
    }
}

proof fn lemma_len_le_sum(s: Seq<Bucket>)
    requires
        forall|i: int| 0 <= i < s.len() ==> (#[trigger] s[i]).count > 0,
    ensures
        s.len() <= bucket_sum(s),
    decreases s.len(),
{
    if s.len() > 0 {
        lemma_len_le_sum(s.drop_last());
    }
}

/// Index of the bucket for `minute`, if there is one.
fn find_bucket(buckets: &Vec<Bucket>, minute: i64) -> (r: Option<usize>)
    ensures
        r matches Some(i) ==> i < buckets@.len() && buckets@[i as int].minute == minute,
        r is None ==> forall|j: int| 0 <= j < buckets@.len() ==> (#[trigger] buckets@[j]).minute != minute,
{
    let mut i: usize = 0;
    while i < buckets.len()
        invariant
            i <= buckets@.len(),
            forall|j: int| 0 <= j < i ==> (#[trigger] buckets@[j]).minute != minute,
        decreases buckets@.len() - i,
    {
        if buckets[i].minute == minute {
            return Some(i);
        }
        i += 1;
    }
    None
}

/// `after` is `before` with one occurrence at `ts` recorded, and `r` is the
/// spike factor (thousandths) and regression flag that the recording reports.
pub open spec fn recorded(before: StatsState, after: StatsState, ts: Timestamp, config: Config, r: (u128, bool)) -> bool {
    let elapsed = minutes_between(before.last_seen, ts);
    let minute = ts.minute();
    let opens_bucket = count_at(before.buckets@, minute) == 0;
    &&& after.wf()
    &&& r.1 == (before.total_count > 0 && elapsed >= config.regression_quiet_minutes)
    &&& after.quiet_minutes == if elapsed > 0 {
        elapsed
    } else {
        before.quiet_minutes as int
    }
    &&& forall|m: int|
        #![trigger count_at(after.buckets@, m)]
        count_at(after.buckets@, m) == count_at(before.buckets@, m) + if m == minute {
            1int
        } else {
            0
        }
    &&& after.buckets@.len() == before.buckets@.len() + if opens_bucket {
        1int
    } else {
        0
    }
    &&& after.total_count == before.total_count + 1
    &&& after.first_seen == before.first_seen
    &&& after.last_seen == ts
    &&& after.baseline_micro == if opens_bucket && before.buckets@.len() > 0 {
        ewma_step(
            config.ewma_alpha_milli as int,
            mean_micro(before.total_count as int, before.buckets@.len() as int),
            before.baseline_micro as int,
        )
    } else {
        before.baseline_micro as int
    }
    &&& r.0 == spike_milli(count_at(after.buckets@, minute), after.baseline_micro as int, after.total_count as int)
}

/// Records one occurrence at `ts` and returns `(spike factor in thousandths, is_regression)`.
///
/// The occurrence is a regression when the group has history and at least
/// `regression_quiet_minutes` whole minutes passed since it was last seen.
/// Its minute bucket grows by one. When it opens a new bucket and older
/// buckets exist, the baseline takes one EWMA step towards their mean count.
pub fn record_event(stats: &mut StatsState, ts: Timestamp, config: &Config) -> (r: (u128, bool))
    requires
        old(stats).wf(),
        ts.wf(),
        config.wf(),
        old(stats).total_count < u64::MAX,
    ensures
        recorded(*old(stats), *final(stats), ts, *config, r),
{
    let minute = ts.minute_index();
    proof {
        assert(ts.secs as int / 60 <= MAX_SECS as int / 60) by {
            vstd::arithmetic::div_mod::lemma_div_is_ordered(ts.secs as int, MAX_SECS as int, 60);
        }
        assert(MIN_SECS as int / 60 <= ts.secs as int / 60) by {
            vstd::arithmetic::div_mod::lemma_div_is_ordered(MIN_SECS as int, ts.secs as int, 60);
        }
    }
    let elapsed = ts.minutes_since(&stats.last_seen);
    let is_regression = stats.total_count > 0 && elapsed >= config.regression_quiet_minutes;
    if elapsed > 0 {
        stats.quiet_minutes = elapsed;
    }
    let ghost old_buckets = stats.buckets@;
    let prev_buckets = stats.buckets.len();
    let prev_total = stats.total_count;
    let current: u64 = match find_bucket(&stats.buckets, minute) {
        Some(i) => {
            let b = stats.buckets[i];
            proof {
                lemma_count_le_sum(old_buckets, i as int);
                lemma_count_present(old_buckets, i as int);
            }
            let nb = Bucket { minute, count: b.count + 1 };
            stats.buckets.set(i, nb);
            proof {
                assert forall|m: int| #![trigger count_at(stats.buckets@, m)]
                    count_at(stats.buckets@, m) == count_at(old_buckets, m) + if m
                        == minute as int {
                        1int
                    } else {
                        0
                    } by {
                    lemma_count_update(old_buckets, i as int, nb, m);
                }
                lemma_count_update(old_buckets, i as int, nb, 0);
                assert(distinct_minutes(stats.buckets@));
            }
            b.count + 1
        },
        None => {
            let nb = Bucket { minute, count: 1 };
            stats.buckets.push(nb);
            proof {
                lemma_count_absent(old_buckets, minute as int);
                assert forall|m: int| #![trigger count_at(stats.buckets@, m)]
                    count_at(stats.buckets@, m) == count_at(old_buckets, m) + if m
                        == minute as int {
                        1int
                    } else {
                        0
                    } by {
                    lemma_count_push(old_buckets, nb, m);
                }
                lemma_count_push(old_buckets, nb, 0);
                assert(distinct_minutes(stats.buckets@));
            }
            1
        },
    };
    stats.total_count = prev_total + 1;
    stats.last_seen = ts;
    if current == 1 && prev_buckets > 0 {
        let mean: u128 = (prev_total as u128 * 1_000_000) / prev_buckets as u128;
        let alpha: u128 = config.ewma_alpha_milli as u128;
        let b: u128 = stats.baseline_micro;
        proof {
            lemma_ewma_bounded(alpha as int, prev_total as int, prev_buckets as int, b as int);
        }
        stats.baseline_micro = (alpha * mean + (1000 - alpha) * b) / 1000;
    }
    let base = stats.baseline_micro;
    let spike: u128 = if base > 0 {
        proof {
            assert(current as int * 1_000_000_000 <= 0xffff_ffff_ffff_ffff * 1_000_000_000) by (nonlinear_arith)
                requires current <= 0xffff_ffff_ffff_ffffu64;
        }
        (current as u128 * 1_000_000_000) / base
    } else if stats.total_count > 1 {
        current as u128 * 1000
    } else {
        1000
    };
    (spike, is_regression)
}

proof fn lemma_ewma_bounded(alpha: int, total: int, n: int, b: int)
    requires
        0 <= alpha <= 1000,
        0 <= total <= 0xffff_ffff_ffff_ffff,
        0 < n,
        0 <= b <= MAX_BASELINE_MICRO,
    ensures
        0 <= total * 1_000_000 / n <= MAX_BASELINE_MICRO,
        0 <= alpha * (total * 1_000_000 / n) <= 1000 * MAX_BASELINE_MICRO,
        0 <= (1000 - alpha) * b <= 1000 * MAX_BASELINE_MICRO,
        0 <= ewma_step(alpha, total * 1_000_000 / n, b) <= MAX_BASELINE_MICRO,
{
    let m = total * 1_000_000 / n;
    assert(0 <= total * 1_000_000) by (nonlinear_arith)
        requires
            0 <= total,
    ;
    assert(m <= total * 1_000_000) by {
        vstd::arithmetic::div_mod::lemma_div_is_ordered_by_denominator(total * 1_000_000, 1, n);
    }
    assert(0 <= m) by {
        vstd::arithmetic::div_mod::lemma_div_pos_is_pos(total * 1_000_000, n);
    }
    assert(0 <= alpha * m <= 1000 * MAX_BASELINE_MICRO) by (nonlinear_arith)
        requires
            0 <= alpha <= 1000,
            0 <= m <= MAX_BASELINE_MICRO,
    ;
    assert(0 <= (1000 - alpha) * b <= 1000 * MAX_BASELINE_MICRO) by (nonlinear_arith)
        requires
            0 <= alpha <= 1000,
            0 <= b <= MAX_BASELINE_MICRO,
    ;
    assert(alpha * m + (1000 - alpha) * b <= 1000 * MAX_BASELINE_MICRO) by (nonlinear_arith)
        requires
            0 <= alpha <= 1000,
            0 <= b <= MAX_BASELINE_MICRO,
            0 <= m <= MAX_BASELINE_MICRO,
    ;
    assert(ewma_step(alpha, m, b) <= MAX_BASELINE_MICRO) by {
        vstd::arithmetic::div_mod::lemma_div_is_ordered(
            alpha * m + (1000 - alpha) * b,
            1000 * MAX_BASELINE_MICRO,
            1000,
        );
        vstd::arithmetic::div_mod::lemma_div_by_multiple(MAX_BASELINE_MICRO as int, 1000);
    }
    assert(0 <= ewma_step(alpha, m, b)) by {
        vstd::arithmetic::div_mod::lemma_div_pos_is_pos(alpha * m + (1000 - alpha) * b, 1000);
    }
}

/// The busiest bucket; among equally busy ones, the earliest minute.
pub fn peak_bucket(buckets: &Vec<Bucket>) -> (r: Option<Bucket>)
    ensures
        r is None <==> buckets@.len() == 0,
        r matches Some(b) ==> buckets@.contains(b) && forall|j: int|
            0 <= j < buckets@.len() ==> (#[trigger] buckets@[j]).count < b.count || (
            buckets@[j].count == b.count && b.minute <= buckets@[j].minute),
{
    if buckets.len() == 0 {
        return None;
    }
    let mut best = buckets[0];
    let mut i: usize = 1;
    while i < buckets.len()
        invariant
            1 <= i <= buckets@.len(),
            buckets@.contains(best),
            forall|j: int|
                0 <= j < i ==> (#[trigger] buckets@[j]).count < best.count || (buckets@[j].count
                    == best.count && best.minute <= buckets@[j].minute),
        decreases buckets@.len() - i,
    {
        let b = buckets[i];
        if b.count > best.count || (b.count == best.count && b.minute < best.minute) {
            best = b;
        }
        i += 1;
    }
    Some(best)
}

/// The very first occurrence of a group has a spike factor of exactly one.
pub proof fn first_occurrence_never_spikes(
    before: StatsState,
    after: StatsState,
    ts: Timestamp,
    config: Config,
    r: (u128, bool),
)
    requires
        before.wf(),
        before.total_count == 0,
        before.baseline_micro == 0,
        recorded(before, after, ts, config, r),
    ensures
        r.0 == 1000,
        !r.1,
{
    lemma_len_le_sum(before.buckets@);
}

/// After a first occurrence at `t1`, a second one at `t2` is a regression
/// exactly when at least `regression_quiet_minutes` whole minutes lie between them.
pub proof fn regression_after_quiet_window(
    s0: StatsState,
    s1: StatsState,
    s2: StatsState,
    t1: Timestamp,
    t2: Timestamp,
    config: Config,
    r1: (u128, bool),
    r2: (u128, bool),
)
    requires
        s0.total_count == 0,
        recorded(s0, s1, t1, config, r1),
        recorded(s1, s2, t2, config, r2),
    ensures
        r2.1 == (minutes_between(t1, t2) >= config.regression_quiet_minutes),
{
}

} // verus!
