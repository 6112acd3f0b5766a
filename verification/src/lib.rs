//! A declarative rule-matching engine for threat detection over batches of
//! structured log records. Rules carry a selection condition tree, a severity
//! and an optional windowed-count aggregation clause; the engine evaluates
//! every rule against every record, emits one alert per direct match, groups
//! matches of aggregating rules into (key, window) buckets, and summarizes
//! unique per-severity results.

pub mod strutil;
pub mod severity;
pub mod record;
pub mod selection;
pub mod message;
pub mod agg;
pub mod rule;
pub mod detection;
pub mod powershell;
