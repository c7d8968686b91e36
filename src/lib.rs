//! Fetch a batch of URLs, or reuse copies of them cached on disk.
//!
//! The library holds the decisions of a download batch: where a body is
//! stored, when a cached copy is used, how one HTTP call ends, and how the
//! batch moves from one URL to the next. The program around it performs the
//! reads, writes and network calls that those decisions ask for.

pub mod destination;
pub mod error;
pub mod response;
pub mod target;
pub mod result_map;
pub mod driver;
pub mod batch;
pub mod world;
pub mod archive;
