//! Incident correlation engine: normalizes error events, groups them by a
//! stable fingerprint, keeps streaming per-group statistics, decides when an
//! event opens an incident, and ranks the commits of a recent deploy as
//! suspected causes. Also holds the commit risk scorer, the daily-stats
//! ingestion rules and the dependency-manifest comparison that surround it.
use vstd::prelude::*;

pub mod config;
pub mod correlation;
pub mod deps;
pub mod engine;
pub mod error;
pub mod fingerprint;
pub mod hashing;
pub mod ingest;
pub mod normalize;
pub mod risk;
pub mod stats;
pub mod text;
pub mod time;
pub mod types;

pub use config::Config;
pub use engine::Engine;
pub use error::EngineError;
pub use types::{InboundEvent, IncidentSummary};

verus! {

} // verus!
