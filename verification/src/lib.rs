//! Build-time bytecode packaging and a runtime engine-value pinning cache.
//!
//! The build half turns compiled module bytecode into small versioned
//! containers (optionally compressed against a shared dictionary) and collects
//! them into an immutable name-to-bytes registry.  The runtime half pins a
//! fixed set of engine values once per process and serves duplicated handles
//! to concurrent readers.

pub mod cache;
pub mod codec;
pub mod collector;
pub mod compiler;
pub mod compression;
pub mod keys;
pub mod registry;
