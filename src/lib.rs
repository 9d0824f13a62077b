//! A log-collection agent's ingestion core: a best-effort syslog line parser,
//! the per-message decisions of the TCP and UDP listener workers, and the
//! registry of running listener tasks that a supervisor keeps.
pub mod config;
pub mod parser;
pub mod search;
pub mod supervisor;
pub mod worker;
