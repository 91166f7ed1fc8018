//! Quote generation and command execution core of a TPM attestation agent.

pub mod codec;
pub mod command;
pub mod encode;
pub mod mask;
pub mod metadata;
pub mod quote;
pub mod runner;
pub mod text;
