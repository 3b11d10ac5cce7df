//! The event records the engine publishes.
//!
//! Every record is a plain value, copied at emission. The channel that
//! carries them (and any serialization) belongs to the host process, not
//! to the engine.

use vstd::prelude::*;

verus! {

/// Periodic throughput snapshot for one download.
#[derive(Clone, Debug)]
pub struct ProgressPayload {
    pub id: String,
    /// Bytes written so far.
    pub received: u64,
    /// Advertised size, or 0 when unknown.
    pub total: u64,
    /// Bytes per second since the previous snapshot.
    pub speed: u64,
}

/// A transfer has begun.
#[derive(Clone, Debug)]
pub struct StartedPayload {
    pub id: String,
    pub url: String,
    pub file_name: String,
    pub dest_dir: String,
    pub total: Option<u64>,
}

/// A transfer reached its destination file.
#[derive(Clone, Debug)]
pub struct CompletedPayload {
    pub id: String,
    pub path: String,
}

/// A transfer failed; the `.part` file is retained.
#[derive(Clone, Debug)]
pub struct FailedPayload {
    pub id: String,
    pub error: String,
}

/// A transfer was canceled by the user.
#[derive(Clone, Debug)]
pub struct CanceledPayload {
    pub id: String,
}

/// What a URL probe learned before any transfer.
#[derive(Clone, Debug)]
pub struct ProbeResult {
    /// Advertised byte count, when the server gave one.
    pub total: Option<u64>,
    /// The chosen output file name.
    pub file_name: String,
    /// Category the file name's extension falls under.
    pub category: String,
    /// Default directory downloads would land in.
    pub download_dir: String,
}

} // verus!
