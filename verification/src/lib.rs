//! Orchestration core for running a user script inside Roblox Studio and
//! turning the resulting log stream into a process exit code.
//!
//! The library models the run as data: log events and an explicit end marker
//! travel over a message channel from the bridge server to the orchestrator,
//! which tallies severities and derives the exit code. The bridge itself is a
//! state machine that validates a per-run session token before forwarding
//! anything. Process cleanup is a pure selection over process records, with
//! the operating-system calls kept behind a thin trusted boundary.

pub mod bridge;
pub mod bytes;
pub mod codec;
pub mod events;
pub mod launcher;
pub mod orchestrator;
pub mod reaper;
pub mod system;
pub mod token;
