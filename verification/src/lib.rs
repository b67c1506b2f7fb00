//! A verified core for a GDB Remote Serial Protocol (RSP) stub targeting the
//! BPF architecture: packet framing and checksumming, command parsing, the
//! register-file serialization contract, and a push-driven session state
//! machine.

pub mod bpf;
pub mod commands;
pub mod hex;
pub mod packet;
pub mod session;
pub mod wire;
