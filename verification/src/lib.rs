//! A pipeline filter that forwards standard input to standard output while
//! mirroring every chunk to the controlling terminal device.
//!
//! The crate verifies the filter's logic: resolving the command-line
//! configuration, the chunked read-duplicate-write semantics of the copy
//! loop, and the mapping from failures to exit codes and diagnostics.
//! The thin shell that performs the actual stream I/O lives outside the
//! verified library and drives it with plain values.

pub mod config;
pub mod status;
pub mod stream;
