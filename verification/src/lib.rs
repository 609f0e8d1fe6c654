//! Verified core of an event-log extraction pipeline.
//!
//! The library models the decisions a disk-image artifact extractor makes:
//! how a source descriptor is classified, which partitions of a volume are
//! visited, which directory entries are selected, how content is streamed
//! in fixed-size chunks, and how failures are classified. The surrounding
//! binary performs the actual disk, network and filesystem work and defers
//! every decision to the functions here.

pub mod artifacts;
pub mod pipeline;
pub mod source;
pub mod status;
pub mod stream;
pub mod traverse;
