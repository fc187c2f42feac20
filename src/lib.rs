//! Core of a host-side tool that checks memory-isolation guarantees of a
//! confidential-computing platform: guest registry and launch arguments,
//! probe address parsing, probe verdicts and the guest agent protocol.
pub mod hex;
pub mod text;
pub mod vmm;
pub mod manager;
pub mod probe;
pub mod client;
pub mod commands;
pub mod scenario;
