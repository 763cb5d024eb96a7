//! Detection and remediation core of a small endpoint-protection engine.
//!
//! The crate verifies the logic that decides verdicts and drives remediation:
//! a layered per-file scanner (pattern rules, then known-bad hashes, then a
//! remote classifier's opinion), the scan-session orchestrator with its
//! progress and counter discipline, and the quarantine lifecycle over a
//! modelled directory tree. Network transport, real filesystem traffic and
//! the HTTP surface live in the embedding program, which feeds this library
//! plain values and mirrors its decisions onto the outside world.

pub mod ai;
pub mod api;
pub mod crypto;
pub mod detection;
pub mod disk;
pub mod engine;
pub mod errors;
pub mod events;
pub mod file_monitor;
pub mod logging;
pub mod pattern;
pub mod quarantine;
pub mod scanner;
pub mod settings;
pub mod signature;
pub mod text;
pub mod watcher;
pub mod web;
