//! Supervision of external media-processing jobs and a minimal local
//! range-serving HTTP file server.
//!
//! The crate parses the textual progress output of external download and
//! cut tools into typed progress updates, enforces a single-active-job
//! rule with explicit cancellation, shapes tool metadata into typed
//! records, and computes byte-range responses for serving one local file
//! over HTTP. Process spawning, sockets and disk access live outside the
//! library; the library makes every decision on plain values.

pub mod errors;
pub mod format;
pub mod jobs;
pub mod lineparse;
pub mod media;
pub mod paths;
pub mod progress;
pub mod server;
pub mod shim;
pub mod timestamps;
pub mod text;
pub mod urlcheck;
