//! A simulated multi-threaded web crawler: a coordinator that remembers which
//! URLs were visited, producers that "crawl" URLs and discover new ones, and a
//! consumer that registers the discovered URLs.
//!
//! This crate holds the verified decision logic of every actor; the threads,
//! the blocking receives and the simulated latency are driven by the caller.

pub mod constants;
pub mod url_table;
pub mod channel;
pub mod entities_system;
