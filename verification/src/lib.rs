//! Verified core of a disk-space reclaimer: a classifier and crawler that
//! find regenerable or stale artifacts, an archiver with an atomic
//! commit-or-discard protocol, and a single-writer job orchestrator.

pub mod analytics;
pub mod archiver;
pub mod bytes;
pub mod codec;
pub mod config;
pub mod crawler;
pub mod fmt;
pub mod scanner;
pub mod fsmodel;
pub mod orchestrator;
