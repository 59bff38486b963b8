//! Errors reported while scanning a container or decoding its contents.

use vstd::prelude::*;

verus! {

/// Everything that can go wrong while opening a container or reading from it.
#[derive(Debug, Clone, Copy, PartialEq, Eq, Structural)]
pub enum Error {
    /// The byte window does not begin with a `RIFF` chunk.
    NoRiffChunkFound,
    /// The root chunk is not followed by the `WAVE` identifier.
    NoWaveTagFound,
    /// A nested container does not begin with a `LIST` chunk.
    NoListTagFound,
    /// A nested container is not of the `INFO` kind.
    NoInfoTagFound,
    /// No `fmt ` chunk is among the scanned chunks.
    NoFmtChunkFound,
    /// No `data` chunk is among the scanned chunks.
    NoDataChunkFound,
    /// The format tag names a codec other than linear PCM; carries the tag.
    UnsupportedFormat(u16),
    /// The bit depth is not one the reader can decode; carries the depth.
    UnsupportedBitDepth(u16),
    /// Fewer bytes are at hand than the value to be decoded occupies.
    CantParseSliceInto,
    /// The container holds more chunks than the bounded list can take.
    TooManyChunks,
    /// A chunk's byte range does not fit the platform's offsets.
    ChunkOutOfRange,
    /// The device handed back fewer bytes than a whole block.
    DeviceReadShort,
}

} // verus!
