//! Descriptors for the capture sources of the device catalog.
//!
//! The catalog itself (enumeration of the system's sources and of its
//! default source) is queried by the surrounding application once at
//! startup; this module only holds the data the pipeline keeps of it.

use vstd::prelude::*;

verus! {

/// One capture source, as enumerated by the device catalog.  A source sits
/// at a stable index in a sparse table; an absent source is a `None` entry
/// of that table.
#[derive(Clone)]
pub struct PaSourceInfo {
    /// The name the sound server knows the source by.
    pub name: String,
    /// A human-readable description of the source.
    pub description: String,
    /// Samples per second and channel.
    pub rate: u32,
    /// Number of interleaved channels the source captures.
    pub channels: u8,
}

} // verus!
