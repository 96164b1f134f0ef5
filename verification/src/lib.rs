//! Invocation harness for a sandboxed module runner: typed marshalling of
//! textual call arguments, capability assembly with a fixed attachment order,
//! and the externally observed contract of the outbound-HTTP capability
//! (host allowlist and bounded concurrency).

pub mod assembler;
pub mod capability;
pub mod codec;
pub mod config;
pub mod numeric;
