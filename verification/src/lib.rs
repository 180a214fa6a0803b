//! Verified core of a desktop control surface for a container runtime.
//!
//! The library turns noisy external signals into stable, UI-consumable
//! facts: it parses disk-usage diagnostic text into a per-volume size
//! table, derives container statistics from pairs of raw counter
//! snapshots, and runs the per-container log-stream session state
//! machine that strips transport framing and republishes lines as
//! events.  All I/O (the runtime socket, external processes, the event
//! channel toward the UI) stays outside; the functions here work on
//! plain values and carry contracts for everything they compute.

pub mod errors;
pub mod inventory;
pub mod logs;
pub mod sizes;
pub mod stats;
pub mod telemetry;
pub mod text;
pub mod volumes;
