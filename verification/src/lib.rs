//! Run coordination for a coverage-guided fuzzing campaign: the shared
//! campaign log with crash deduplication, the on-disk layout of a campaign's
//! workspace, and the resolution of a target's command line.

pub mod platform;
pub mod conf;
pub mod layout;
pub mod log;
