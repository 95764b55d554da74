pub mod config;
pub mod encode;
pub mod predicate;
pub mod scan;
pub mod tags;
pub mod text;

use vstd::prelude::*;

verus! {

/// The position of one chunk in container-local chunk-grid space.
#[derive(Clone, Copy, Debug, PartialEq, Eq, Structural)]
pub struct ChunkCoordinate {
    pub x: i32,
    pub z: i32,
}

/// What can go wrong while scanning a world save.
///
/// The first three arise while reading and decoding container files,
/// `MalformedChunk` while inspecting a decoded chunk's tag tree, and
/// `EncodingError` while writing the output artifact.
#[derive(Clone, Copy, Debug, PartialEq, Eq, Structural)]
pub enum ScanError {
    /// A container file could not be read.
    IoError,
    /// A container's header or offset table is corrupt.
    ContainerFormatError,
    /// A chunk's raw bytes are corrupt or truncated.
    TagTreeFormatError,
    /// A chunk's tag tree lacks the expected fields or types.
    MalformedChunk,
    /// The output artifact could not be written.
    EncodingError,
}

} // verus!
