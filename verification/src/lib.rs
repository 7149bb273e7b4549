//! A small in-memory data store with a textual command protocol.
//!
//! The engine keeps three independent keyspaces (strings, lists and hashes),
//! executes one command line at a time and reads and writes its whole state
//! as a JSON snapshot document.
pub mod redis_engine;
