//! Verified core of a concurrent content-discovery scanner.
//!
//! Given a base URL and a wordlist, the scanner probes `base/word[.ext]`
//! for every word/extension combination and reports the responses that a
//! user-defined filter does not hide. This crate holds the verified logic:
//! how the wordlist is partitioned across workers, how probe URLs are
//! built, and how responses are classified as interesting or hidden.
//! The I/O around it (argument handling, wordlist loading, the HTTP
//! requests themselves, and the result sink) lives outside the library.

pub mod args;
pub mod classify;
pub mod config;
pub mod partition;
pub mod probe;
