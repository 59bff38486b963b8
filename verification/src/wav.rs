//! The unbuffered session: one sample per device read.

use vstd::prelude::*;
use crate::chunk::{Chunk, MAX_CHUNKS, chunk_list, chunks_as_slice, parse_chunks, spec_parse_riff};
use crate::error::Error;
use crate::fmt::{AudioCodec, BitDepth, Fmt};
use crate::locate::{
    ancillary_of,
    find_chunk,
    fmt_at,
    lemma_find_from,
    spec_ancillary,
    spec_find,
    spec_fmt_at,
};
use crate::scan_laws::lemma_scan_layout;
use crate::sample::Data;
use crate::tag::ChunkTag;

verus! {

/// Bytes at the head of a file that opening a session reads.
pub const HEADER_SIZE: usize = 44;

/// What a header window says of a container.
pub struct Layout {
    /// The decoded format.
    pub fmt: Fmt,
    /// The byte range of the sample data.
    pub data: Chunk,
    /// The chunks that are neither format nor sample data.
    pub others: Seq<Chunk>,
}

/// A session over the sample data of one file. The session keeps where the
/// file's cursor stands; the caller owns the file handle, reads from it the
/// bytes that the session asks for and hands them in.
pub struct Wav {
    /// The offset in the file of the next byte to be read.
    pub read: usize,
    /// The byte range of the sample data.
    pub data: Chunk,
    /// What the `fmt ` chunk says.
    pub fmt: Fmt,
    /// The chunks that are neither format nor sample data.
    pub chunks: heapless::Vec<Chunk, MAX_CHUNKS>,
}

impl Wav {
    /// The offset in the file of the next byte to be read.
    pub open spec fn spec_position(&self) -> int {
        self.read as int
    }

    /// The cursor stands inside the sample data or at its end.
    pub open spec fn wf(&self) -> bool {
        self.data.start <= self.spec_position() <= self.data.end
    }

    /// Bytes of sample data read so far.
    pub open spec fn spec_consumed(&self) -> int {
        self.spec_position() - self.data.start
    }

    /// Whether all of the sample data has been read.
    pub open spec fn spec_is_end(&self) -> bool {
        self.spec_consumed() == self.data.spec_len()
    }

    /// The session's layout.
    pub open spec fn spec_layout(&self) -> Layout {
        Layout { fmt: self.fmt, data: self.data, others: chunk_list(self.chunks) }
    }

    /// What the header window `s` says of a container: the scan's failure if
    /// it fails, `NoFmtChunkFound` without a `fmt ` chunk, the decoder's
    /// failure if the format does not decode, `NoDataChunkFound` without a
    /// `data` chunk.
    pub open spec fn spec_new(s: Seq<u8>) -> Result<Layout, Error> {
        match spec_parse_riff(s) {
            Err(e) => Err(e),
            Ok(chunks) => match spec_find(chunks, ChunkTag::Fmt) {
                None => Err(Error::NoFmtChunkFound),
                Some(at) => match spec_fmt_at(s, at) {
                    Err(e) => Err(e),
                    Ok(fmt) => match spec_find(chunks, ChunkTag::Data) {
                        None => Err(Error::NoDataChunkFound),
                        Some(data) => Ok(Layout { fmt, data, others: spec_ancillary(chunks) }),
                    },
                },
            },
        }
    }

    /// The outcome of opening, with the session seen as its layout.
    pub open spec fn spec_opened(r: Result<Wav, Error>) -> Result<Layout, Error> {
        match r {
            Ok(wav) => Ok(wav.spec_layout()),
            Err(e) => Err(e),
        }
    }

    /// Opens a session from the first bytes of a file. The caller then moves
    /// the file's cursor to `position()`, the start of the sample data.
    pub fn new(header: &[u8]) -> (r: Result<Wav, Error>)
        ensures
            Wav::spec_opened(r) == Wav::spec_new(header@),
            r matches Ok(wav) ==> wav.spec_position() == wav.data.start && wav.wf(),
    {
        let parsed = match parse_chunks(header) {
            Ok(parsed) => parsed,
            Err(e) => {
                return Err(e);
            },
        };
        let chunks = chunks_as_slice(&parsed);
        let fmt = match find_chunk(chunks, ChunkTag::Fmt) {
            None => {
                return Err(Error::NoFmtChunkFound);
            },
            Some(at) => match fmt_at(header, at) {
                Ok(fmt) => fmt,
                Err(e) => {
                    return Err(e);
                },
            },
        };
        let data = match find_chunk(chunks, ChunkTag::Data) {
            None => {
                return Err(Error::NoDataChunkFound);
            },
            Some(data) => data,
        };
        let others = ancillary_of(chunks);
        proof {
            lemma_scan_layout(header@, 12, MAX_CHUNKS as int);
            lemma_find_from(chunks@, ChunkTag::Data, 0);
        }
        Ok(Wav { read: data.start, data, fmt, chunks: others })
    }

    /// The sample rate.
    pub fn sample_rate(&self) -> (rate: u32)
        ensures
            rate == self.fmt.sample_rate,
    {
        self.fmt.sample_rate
    }

    /// The number of interleaved channels.
    pub fn num_channels(&self) -> (channels: u16)
        ensures
            channels == self.fmt.num_channels,
    {
        self.fmt.num_channels
    }

    /// The bits of one sample.
    pub fn bit_depth(&self) -> (bits: u16)
        ensures
            bits == self.fmt.bit_depth,
    {
        self.fmt.bit_depth
    }

    /// The codec of the sample data.
    pub fn audio_codec(&self) -> (codec: AudioCodec)
        ensures
            codec == self.fmt.audio_format,
    {
        self.fmt.audio_format
    }

    /// The chunks that are neither format nor sample data, in their order.
    pub fn ancillary_chunks(&self) -> (chunks: &[Chunk])
        ensures
            chunks@ == chunk_list(self.chunks),
    {
        chunks_as_slice(&self.chunks)
    }

    /// The offset in the file of the next byte to be read.
    pub fn position(&self) -> (at: usize)
        ensures
            at == self.spec_position(),
    {
        self.read
    }

    /// Whether all of the sample data has been read: true exactly when the
    /// bytes read so far are as many as the sample data holds.
    pub fn is_end(&self) -> (end: bool)
        requires
            self.wf(),
        ensures
            end == self.spec_is_end(),
    {
        self.read == self.data.end
    }

    /// Bytes that the next sample occupies, for the caller to read from the
    /// file; fails with `UnsupportedBitDepth` for a depth other than 8, 16
    /// and 24.
    pub fn sample_len(&self) -> (r: Result<usize, Error>)
        ensures
            match BitDepth::spec_from_bits(self.fmt.bit_depth) {
                Ok(depth) => r == Ok::<usize, Error>(depth.spec_sample_len() as usize),
                Err(e) => r == Err::<usize, Error>(e),
            },
    {
        match BitDepth::from_bits(self.fmt.bit_depth) {
            Ok(depth) => Ok(depth.sample_len()),
            Err(e) => Err(e),
        }
    }

    /// What `next` gives for the bytes `s`, when `left` bytes of sample data
    /// are still unread.
    pub open spec fn spec_next(bits: u16, left: int, s: Seq<u8>) -> Result<Data, Error> {
        match Data::spec_decode(bits, s) {
            Err(e) => Err(e),
            Ok(sample) => if s.len() > left {
                Err(Error::CantParseSliceInto)
            } else {
                Ok(sample)
            },
        }
    }

    /// Decodes the next sample from `bytes`, which the caller has read from
    /// the file at `position()`, and moves the cursor past them.
    ///
    /// Fails with `UnsupportedBitDepth` for a depth other than 8, 16 and 24,
    /// and with `CantParseSliceInto` when `bytes` is not exactly one sample or
    /// reaches past the end of the sample data. A failure leaves the session
    /// as it was.
    pub fn next(&mut self, bytes: &[u8]) -> (r: Result<Data, Error>)
        requires
            old(self).wf(),
            !old(self).spec_is_end(),
        ensures
            r == Wav::spec_next(
                old(self).fmt.bit_depth,
                old(self).data.end - old(self).spec_position(),
                bytes@,
            ),
            final(self).wf(),
            final(self).spec_layout() == old(self).spec_layout(),
            r is Ok ==> final(self).spec_position() == old(self).spec_position() + bytes@.len(),
            r is Err ==> final(self).spec_position() == old(self).spec_position(),
    {
        let sample = match Data::decode(self.fmt.bit_depth, bytes) {
            Ok(sample) => sample,
            Err(e) => {
                return Err(e);
            },
        };
        if bytes.len() > self.data.end - self.read {
            return Err(Error::CantParseSliceInto);
        }
        self.read = self.read + bytes.len();
        Ok(sample)
    }

    /// What `next_n` gives for a block of `len` bytes, when `left` bytes of
    /// sample data are still unread: the number of samples in the block.
    pub open spec fn spec_next_n(bits: u16, left: int, len: int) -> Result<usize, Error> {
        if bits != 8 {
            Err(Error::UnsupportedBitDepth(bits))
        } else if len > left {
            Err(Error::CantParseSliceInto)
        } else {
            Ok(len as usize)
        }
    }

    /// Takes a block of 8-bit samples, which the caller has read from the
    /// file at `position()`, and moves the cursor past it. Each byte of the
    /// block is one sample; the result is their number.
    ///
    /// Fails with `UnsupportedBitDepth` for any other depth, and with
    /// `CantParseSliceInto` when the block reaches past the end of the sample
    /// data. A failure leaves the session as it was.
    pub fn next_n(&mut self, bytes: &[u8]) -> (r: Result<usize, Error>)
        requires
            old(self).wf(),
            !old(self).spec_is_end(),
        ensures
            r == Wav::spec_next_n(
                old(self).fmt.bit_depth,
                old(self).data.end - old(self).spec_position(),
                bytes@.len() as int,
            ),
            final(self).wf(),
            final(self).spec_layout() == old(self).spec_layout(),
            r is Ok ==> final(self).spec_position() == old(self).spec_position() + bytes@.len(),
            r is Err ==> final(self).spec_position() == old(self).spec_position(),
    {
        if self.fmt.bit_depth != 8 {
            return Err(Error::UnsupportedBitDepth(self.fmt.bit_depth));
        }
        if bytes.len() > self.data.end - self.read {
            return Err(Error::CantParseSliceInto);
        }
        self.read = self.read + bytes.len();
        Ok(bytes.len())
    }
}

} // verus!
