//! Transfer orchestration for a peer-to-peer file sharing client.
//!
//! The library turns a filesystem path into an immutable, content-addressed
//! collection of named blobs, drives the progress-reporting state machines
//! for import, transfer and export, and keeps every name that is written
//! back to disk traversal-safe.

pub mod collection;
pub mod export;
pub mod hexstr;
pub mod import;
pub mod nums;
pub mod paths;
pub mod receive;
pub mod send;
pub mod status;
