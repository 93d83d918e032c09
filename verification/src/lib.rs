//! Monthly-partitioned storage of user registration records.
//!
//! Records are grouped into one physical partition per calendar month.
//! This crate holds the partition-management core: the policy that maps a
//! date to its partition key and canonical identifier, the rolling hot-window
//! calculation, the catalog of attached partitions, and the builders that
//! produce the attach, insert and merged-read statements. Executing those
//! statements against the storage engine, and serving them over HTTP, is the
//! surrounding application's job.

pub mod catalog;
pub mod date;
pub mod entity;
pub mod partition;
pub mod repository;
pub mod statements;
pub mod window;
