//! UTC instants as plain numbers, with parsing and rendering delegated to chrono.
use vstd::prelude::*;

verus! {

/// Earliest Unix second an RFC 3339 text can denote (year 0000, offset +23:59), rounded down to a day.
pub const MIN_SECS: i64 = -62_167_305_600;

/// Latest Unix second an RFC 3339 text can denote (year 9999, offset -23:59), rounded up to a day.
pub const MAX_SECS: i64 = 253_402_387_200;

/// `MIN_SECS / 60`.
pub const MIN_MINUTE: i64 = -1_036_121_760;

pub const NANOS_PER_SEC: u32 = 1_000_000_000;

/// A UTC instant: whole Unix seconds and the nanoseconds past them. As in
/// chrono, a leap second is the 59th second with `nanos` of a billion or more.
#[derive(Clone, Copy, Debug, PartialEq, Eq)]
pub struct Timestamp {
    pub secs: i64,
    pub nanos: u32,
}

/// What chrono's RFC 3339 parser makes of a text: Unix seconds and subsecond nanoseconds.
pub uninterp spec fn rfc3339_parts(s: Seq<char>) -> Option<(i64, u32)>;

/// chrono's `%Y-%m-%dT%H:%M` rendering of the minute that starts at Unix second `60 * minute`.
pub uninterp spec fn minute_text(minute: int) -> Seq<char>;

/// chrono's `to_rfc3339` rendering of an instant in UTC.
pub uninterp spec fn rfc3339_text(secs: int, nanos: int) -> Seq<char>;

/// The timestamp that a text denotes, if it is RFC 3339.
pub open spec fn parse_spec(s: Seq<char>) -> Option<Timestamp> {
    match rfc3339_parts(s) {
        Some(p) => Some(Timestamp { secs: p.0, nanos: p.1 }),
        None => None,
    }
}

impl Timestamp {
    /// Within the range of RFC 3339 texts; leap nanoseconds only on a 59th second.
    pub open spec fn wf(&self) -> bool {
        &&& MIN_SECS <= self.secs <= MAX_SECS
        &&& self.nanos < 2 * NANOS_PER_SEC
        &&& (self.nanos < NANOS_PER_SEC || self.secs as int % 60 == 59)
    }

    /// Nanoseconds since the Unix epoch.
    pub open spec fn instant(&self) -> int {
        self.secs * 1_000_000_000 + self.nanos
    }

    /// Index of the UTC minute holding this instant.
    pub open spec fn minute(&self) -> int {
        self.secs as int / 60
    }

    /// Builds a timestamp from Unix seconds and nanoseconds, if they are in range.
    pub fn from_unix(secs: i64, nanos: u32) -> (r: Option<Timestamp>)
        ensures
            r == (if (Timestamp { secs, nanos }).wf() {
                Some(Timestamp { secs, nanos })
            } else {
                None
            }),
    {
        let t = Timestamp { secs, nanos };
        if MIN_SECS <= secs && secs <= MAX_SECS && nanos < 2 * NANOS_PER_SEC {
            let off: u64 = (secs - MIN_SECS) as u64;
            proof {
                let s = secs as int;
                vstd::arithmetic::div_mod::lemma_fundamental_div_mod(s, 60);
                vstd::arithmetic::div_mod::lemma_mod_bound(s, 60);
                vstd::arithmetic::div_mod::lemma_fundamental_div_mod_converse_mod(
                    s + 1_036_121_760 * 60,
                    60,
                    s / 60 + 1_036_121_760,
                    s % 60,
                );
            }
            if nanos < NANOS_PER_SEC || off % 60 == 59 {
                Some(t)
            } else {
                None
            }
        } else {
            None
        }
    }

    /// Index of the UTC minute holding this instant.
    pub fn minute_index(&self) -> (r: i64)
        requires
            self.wf(),
        ensures
            r == self.minute(),
    {
        let off: u64 = (self.secs - MIN_SECS) as u64;
        let q: u64 = off / 60;
        proof {
            let s = self.secs as int;
            assert(off as int == s + 62_167_305_600);
            assert((s + 1_036_121_760 * 60) / 60 == s / 60 + 1_036_121_760) by {
                vstd::arithmetic::div_mod::lemma_fundamental_div_mod(s, 60);
                vstd::arithmetic::div_mod::lemma_mod_bound(s, 60);
                vstd::arithmetic::div_mod::lemma_fundamental_div_mod_converse_div(
                    s + 1_036_121_760 * 60,
                    60,
                    s / 60 + 1_036_121_760,
                    s % 60,
                );
            }
        }
        q as i64 + MIN_MINUTE
    }

    /// Whole minutes from `earlier` to `self`, or 0 when `self` is not later.
    pub fn minutes_since(&self, earlier: &Timestamp) -> (r: u64)
        requires
            self.wf(),
            earlier.wf(),
        ensures
            r == minutes_between(*earlier, *self),
    {
        let d: i128 = (self.secs as i128 - earlier.secs as i128) * 1_000_000_000i128 + (
        self.nanos as i128 - earlier.nanos as i128);
        if d <= 0 {
            0
        } else {
            let m: i128 = d / 60_000_000_000i128;
            proof {
                vstd::arithmetic::div_mod::lemma_div_is_ordered(d as int, 400_000_000_000_000_000_000int, 60_000_000_000int);
                assert(400_000_000_000_000_000_000int / 60_000_000_000int < 0xffff_ffff_ffff_ffffint);
            }
            m as u64
        }
    }
}

/// Whole minutes from `a` to `b`, rounded down, or 0 when `b` is not later than `a`.
pub open spec fn minutes_between(a: Timestamp, b: Timestamp) -> int {
    let d = b.instant() - a.instant();
    if d <= 0 {
        0
    } else {
        d / 60_000_000_000
    }
}

/// Relies on chrono's `DateTime::parse_from_rfc3339`, read back as Unix seconds
/// (`timestamp`) and subsecond nanoseconds (`timestamp_subsec_nanos`). Its
/// parser takes four-digit years and offsets within ±23:59, and keeps leap
/// nanoseconds on a 59th second, so every result is well formed.
#[verifier::external_body]
fn chrono_parse_rfc3339(s: &str) -> (r: Option<Timestamp>)
    ensures
        r is Some <==> rfc3339_parts(s@) is Some,
        r matches Some(t) ==> (t.secs, t.nanos) == rfc3339_parts(s@).unwrap() && t.wf(),
{
    chrono::DateTime::parse_from_rfc3339(s).ok().map(
        |d| Timestamp { secs: d.timestamp(), nanos: d.timestamp_subsec_nanos() },
    )
}

/// The timestamp an RFC 3339 text denotes, if it is one.
pub fn parse_rfc3339(s: &str) -> (r: Option<Timestamp>)
    ensures
        r == parse_spec(s@),
        r matches Some(t) ==> t.wf(),
{
    chrono_parse_rfc3339(s)
}

/// Relies on chrono's `DateTime::from_timestamp` (which succeeds within the
/// RFC 3339 range) and `format("%Y-%m-%dT%H:%M")`.
#[verifier::external_body]
pub(crate) fn minute_label(minute: i64) -> (r: String)
    requires
        MIN_MINUTE <= minute <= MAX_SECS / 60,
    ensures
        r@ == minute_text(minute as int),
{
    chrono::DateTime::from_timestamp(minute * 60, 0).map(
        |d| d.format("%Y-%m-%dT%H:%M").to_string(),
    ).unwrap_or_default()
}

/// Relies on chrono's `DateTime::from_timestamp` (which succeeds for a well-formed
/// timestamp) and `to_rfc3339`.
#[verifier::external_body]
pub(crate) fn to_rfc3339(t: &Timestamp) -> (r: String)
    requires
        t.wf(),
    ensures
        r@ == rfc3339_text(t.secs as int, t.nanos as int),
{
    chrono::DateTime::from_timestamp(t.secs, t.nanos).map(|d| d.to_rfc3339()).unwrap_or_default()
}

/// Minute bucket key of a timestamp: `YYYY-MM-DDTHH:MM` in UTC.
pub fn minute_bucket(ts: &Timestamp) -> (r: String)
    requires
        ts.wf(),
    ensures
        r@ == minute_text(ts.minute()),
{
    let m = ts.minute_index();
    proof {
        assert(ts.secs as int / 60 <= MAX_SECS as int / 60) by {
            vstd::arithmetic::div_mod::lemma_div_is_ordered(ts.secs as int, MAX_SECS as int, 60);
        }
        assert(MIN_SECS as int / 60 <= ts.secs as int / 60) by {
            vstd::arithmetic::div_mod::lemma_div_is_ordered(MIN_SECS as int, ts.secs as int, 60);
        }
    }
    minute_label(m)
}

/// chrono's `%Y-%m-%d` rendering of the UTC day that starts at Unix second `86400 * day`.
pub uninterp spec fn day_text(day: int) -> Seq<char>;

/// Relies on chrono's `DateTime::from_timestamp` (which succeeds within the
/// RFC 3339 range) and `format("%Y-%m-%d")`.
#[verifier::external_body]
fn day_label(day: i64) -> (r: String)
    requires
        MIN_SECS / 86400 <= day <= MAX_SECS / 86400,
    ensures
        r@ == day_text(day as int),
{
    chrono::DateTime::from_timestamp(day * 86400, 0).map(|d| d.format("%Y-%m-%d").to_string()).unwrap_or_default()
}

/// The UTC calendar day (`YYYY-MM-DD`) of an RFC 3339 timestamp, if it parses.
pub fn parse_stat_date(s: &str) -> (r: Option<String>)
    ensures
        r is Some <==> rfc3339_parts(s@) is Some,
        r matches Some(d) ==> d@ == day_text(rfc3339_parts(s@).unwrap().0 as int / 86400),
{
    match parse_rfc3339(s) {
        Some(t) => {
            let off: u64 = (t.secs - MIN_SECS) as u64;
            let q: u64 = off / 86400;
            proof {
                let x = t.secs as int;
                vstd::arithmetic::div_mod::lemma_fundamental_div_mod(x, 86400);
                vstd::arithmetic::div_mod::lemma_mod_bound(x, 86400);
                vstd::arithmetic::div_mod::lemma_fundamental_div_mod_converse_div(
                    x + 719_529 * 86400,
                    86400,
                    x / 86400 + 719_529,
                    x % 86400,
                );
                vstd::arithmetic::div_mod::lemma_div_is_ordered(x, MAX_SECS as int, 86400);
                vstd::arithmetic::div_mod::lemma_div_is_ordered(MIN_SECS as int, x, 86400);
            }
            let day: i64 = q as i64 - 719_529;
            Some(day_label(day))
        },
        None => None,
    }
}

} // verus!
