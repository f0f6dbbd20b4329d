//! Daily push-statistics ingestion: what one push adds to a user's day.
use vstd::prelude::*;

use crate::time::{day_text, parse_stat_date, rfc3339_parts};

verus! {

/// What one push adds to the daily statistics: its UTC day and its impact score.
#[derive(Debug, Clone)]
pub struct DailyIncrement {
    pub stat_date: String,
    pub impact_score: i32,
}

/// An impact score clamped to 0..=100.
pub open spec fn clamped_impact(score: int) -> int {
    if score < 0 {
        0
    } else if score > 100 {
        100
    } else {
        score
    }
}

/// The increment for a push at `timestamp` with `impact_score`, or `None`
/// when the timestamp is not RFC 3339 (the push is then rejected).
pub fn daily_increment(timestamp: &str, impact_score: i32) -> (r: Option<DailyIncrement>)
    ensures
        r is Some <==> rfc3339_parts(timestamp@) is Some,
        r matches Some(d) ==> d.stat_date@ == day_text(rfc3339_parts(timestamp@).unwrap().0 as int / 86400)
            && d.impact_score == clamped_impact(impact_score as int),
{
    match parse_stat_date(timestamp) {
        Some(stat_date) => {
            let s = if impact_score < 0 {
                0
            } else if impact_score > 100 {
                100
            } else {
                impact_score
            };
            Some(DailyIncrement { stat_date, impact_score: s })
        },
        None => None,
    }
}

} // verus!
