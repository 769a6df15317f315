//! Time-bucketed retention of timestamped files: a small filename template
//! language that recovers a calendar timestamp from a name, and a retention
//! evaluator that splits a newest-first list of files into those to keep and
//! those to drop.
pub mod timestamp;
pub mod pattern;
pub mod policy;
pub mod config;
pub mod args;

pub use timestamp::Timestamp;
pub use pattern::{ExtractError, RetentionFile, RetentionFilePattern};
pub use policy::{Granularity, RetentionPolicy};
pub use config::{Config, RetentionPath};
pub use args::{Args, ExecutionContext, FileSource, SubCommand};
