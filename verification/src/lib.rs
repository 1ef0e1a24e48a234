//! A signal-to-indicator decision engine: each cycle it matches configured
//! wireless clients against a snapshot of associated stations, classifies
//! every client's signal (unseen, low, normal), resolves the effective
//! trigger mode and timing with per-client overrides falling back to global
//! defaults, and plans idempotent writes to the client's indicator device.

pub mod actuator;
pub mod config;
pub mod engine;
pub mod parse;
pub mod snapshot;
