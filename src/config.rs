//! Engine configuration. Fractions are held in thousandths.
use vstd::prelude::*;

verus! {

/// Tunable thresholds for incident detection and correlation.
#[derive(Debug, Clone)]
pub struct Config {
    /// Spike factor at or above which an event is a spike, in thousandths.
    pub spike_threshold_milli: u64,
    /// EWMA smoothing factor in thousandths (0..=1000); higher reacts faster.
    pub ewma_alpha_milli: u64,
    /// Minutes of silence after which a recurrence is a regression.
    pub regression_quiet_minutes: u64,
    /// Stack frames that enter the fingerprint.
    pub fingerprint_max_frames: usize,
    /// Weight of deploy proximity in a suspect's score, in thousandths (0..=1000).
    pub correlation_time_weight_milli: u64,
    /// Weight of stack-frame file overlap, in thousandths (0..=1000).
    pub correlation_file_weight_milli: u64,
    /// Weight of a commit's risk score, in thousandths (0..=1000); 0 turns it off.
    pub correlation_risk_weight_milli: u64,
    /// Hours after a deploy within which its commits are proximate.
    pub correlation_max_hours: u32,
}

impl Config {
    /// Fractions within their ranges.
    pub open spec fn wf(&self) -> bool {
        &&& self.ewma_alpha_milli <= 1000
        &&& self.correlation_time_weight_milli <= 1000
        &&& self.correlation_file_weight_milli <= 1000
        &&& self.correlation_risk_weight_milli <= 1000
    }

    /// The defaults with the three correlation weights replaced where given,
    /// each clamped to 0..=1000 thousandths.
    pub fn with_correlation_weights(
        file_milli: Option<i64>,
        time_milli: Option<i64>,
        risk_milli: Option<i64>,
    ) -> (r: Config)
        ensures
            r.wf(),
            r.correlation_file_weight_milli == weight_or(file_milli, 700),
            r.correlation_time_weight_milli == weight_or(time_milli, 300),
            r.correlation_risk_weight_milli == weight_or(risk_milli, 0),
            r.spike_threshold_milli == 3000,
            r.ewma_alpha_milli == 300,
            r.regression_quiet_minutes == 60,
            r.fingerprint_max_frames == 5,
            r.correlation_max_hours == 24,
    {
        let d = Config::default();
        Config {
            correlation_file_weight_milli: clamp_weight(file_milli, d.correlation_file_weight_milli),
            correlation_time_weight_milli: clamp_weight(time_milli, d.correlation_time_weight_milli),
            correlation_risk_weight_milli: clamp_weight(risk_milli, d.correlation_risk_weight_milli),
            ..d
        }
    }
}

/// A given weight clamped to 0..=1000, or the default.
pub open spec fn weight_or(w: Option<i64>, default: u64) -> u64 {
    match w {
        Some(v) => if v < 0 {
            0
        } else if v > 1000 {
            1000
        } else {
            v as u64
        },
        None => default,
    }
}

fn clamp_weight(w: Option<i64>, default: u64) -> (r: u64)
    ensures
        r == weight_or(w, default),
{
    match w {
        Some(v) => if v < 0 {
            0
        } else if v > 1000 {
            1000
        } else {
            v as u64
        },
        None => default,
    }
}

impl Default for Config {
    fn default() -> (r: Config)
        ensures
            r.wf(),
            r.spike_threshold_milli == 3000,
            r.ewma_alpha_milli == 300,
            r.regression_quiet_minutes == 60,
            r.fingerprint_max_frames == 5,
            r.correlation_time_weight_milli == 300,
            r.correlation_file_weight_milli == 700,
            r.correlation_risk_weight_milli == 0,
            r.correlation_max_hours == 24,
    {
        Config {
            spike_threshold_milli: 3000,
            ewma_alpha_milli: 300,
            regression_quiet_minutes: 60,
            fingerprint_max_frames: 5,
            correlation_time_weight_milli: 300,
            correlation_file_weight_milli: 700,
            correlation_risk_weight_milli: 0,
            correlation_max_hours: 24,
        }
    }
}

} // verus!
