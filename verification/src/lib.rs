//! Build-time generator that turns declarative WebAssembly test scripts into
//! Rust test source text.
//!
//! A script is parsed upstream into a stream of commands (module definitions,
//! assertions, directives). The generator walks that stream once per script,
//! appending source fragments to a buffer: a factory function per module, an
//! invocation wrapper per `assert_return`, a standalone test per
//! `assert_invalid` / `assert_malformed`, and one aggregating test per module
//! that calls the module's wrappers in script order. A small controller layer
//! decides which scripts are stale and what the aggregating index file holds.
//!
//! Everything here is pure: reading scripts, converting module binaries to
//! their text form, and writing files are the caller's business. The caller
//! hands over plain command values and receives the finished source text.

pub mod text;
pub mod values;
pub mod commands;
pub mod gen;
pub mod controller;
pub mod laws;
pub mod harness;
