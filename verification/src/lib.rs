//! Core of a cloud-storage sync engine: reconciliation and resumable,
//! optionally-encrypted chunked upload.
//!
//! The library holds the decision logic — what to re-synchronize and how
//! deep, which chunk to upload next, how to back off after failures — as
//! verified functions over plain values.  Network transports, the
//! filesystem driver and the inventory store live outside and hand the
//! library snapshots and outcomes.

pub mod api;
pub mod approot;
pub mod b64;
pub mod boolset;
pub mod chunk;
pub mod commands;
pub mod encrypt;
pub mod errors;
pub mod events;
pub mod listener;
pub mod logging;
pub mod progress;
pub mod providers;
pub mod reconcile;
pub mod remote;
pub mod session;
pub mod status;
pub mod uploader;
