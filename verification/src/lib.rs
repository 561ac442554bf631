//! History-driven hotspot scoring: a log parser, a noise filter, a set of
//! independent signal analyzers and a score aggregator, each with a proved
//! contract.

pub mod analyzers;
pub mod animation;
pub mod cli;
pub mod config;
pub mod error;
pub mod file_map;
pub mod filters;
pub mod git;
pub mod order;
pub mod patterns;
pub mod pipeline;
pub mod report;
pub mod scoring;
pub mod tally;
pub mod text;
pub mod types;
