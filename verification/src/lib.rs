//! Verified core of a Linux disk-space management daemon: policy
//! normalisation, usage figures, threshold state tracking, lifecycle
//! decisions and log-level filtering.

mod text;

pub mod config;
pub mod disk;
pub mod lifecycle;
pub mod monitor;
pub mod runner;

pub mod logger;

pub use logger::{Level, Severity};
