//! The signal analyzers. Each one reads the whole history and the list of
//! candidate files and returns one record per candidate, in the order of
//! the candidates.

pub mod blame;
pub mod bug_correlation;
pub mod burst_detector;
pub mod churn;
pub mod commit_quality;
pub mod coupling;
pub mod revert_tracker;
pub mod security;
