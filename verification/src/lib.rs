//! A concurrent task-orchestration library for I/O-bound network probes,
//! with verified core logic: input sanitisation, URL parsing, DNS message
//! encoding and name compression, and the scanner engine's queue, counter
//! and formatting rules.

pub mod dns;
pub mod scanner;
pub mod utils;
