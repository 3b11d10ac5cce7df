//! Core of a multi-connection HTTP download engine.
//!
//! Given a URL probed for length and range support, the engine splits the
//! byte interval into disjoint worker segments, tracks shared progress,
//! publishes lifecycle events, and supports resuming an interrupted
//! transfer from a partial on-disk artifact. All decisions and bookkeeping
//! live here, verified; the surrounding process performs the actual
//! network and file input/output.

pub mod bridge;
pub mod category;
pub mod engine;
pub mod errors;
pub mod events;
pub mod headers;
pub mod paths;
pub mod payloads;
pub mod plan;
pub mod probe;
pub mod resume;
pub mod scan;
pub mod state;
pub mod text;
