//! Verified core of a concurrent web-endpoint reconnaissance tool.
//!
//! Given a URL template with a placeholder and a wordlist, the tool probes
//! each substituted target under bounded concurrency, filters the responses,
//! enriches the kept ones with a heuristic interest score and a technology
//! fingerprint, and renders a terminal, JSON or plain-text report.
//!
//! This crate holds the verified logic: target expansion, response
//! normalization, the filter predicate, the scorer, the fingerprinter, the
//! concurrency governor's state machine, and the report renderers. The
//! unverified shell around it (argument parsing, the HTTP transport, file
//! output) lives outside and hands the library plain values.

pub mod args;
pub mod expand;
pub mod filter;
pub mod governor;
pub mod json;
pub mod patterns;
pub mod pipeline;
pub mod score;
pub mod tech;
pub mod probe;
pub mod report;
pub mod text;
