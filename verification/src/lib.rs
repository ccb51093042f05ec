//! Verified core of a gRPC text-to-speech provider that relays audio from a
//! VibeVoice server: configuration lookup, the server-sent-event decoder, the
//! per-request relay state machine and the state behind the terminal monitor.

pub mod cli;
pub mod clock;
pub mod config;
pub mod service;
pub mod sse;
pub mod strings;
pub mod tui;
pub mod vibevoice;
