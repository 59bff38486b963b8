//! The buffered session: reads of any length, served from a block-sized
//! read-ahead buffer.

use vstd::prelude::*;
use crate::chunk::{
    Chunk,
    MAX_CHUNKS,
    chunk_list,
    chunks_as_slice,
    parse_list,
    parse_riff,
    spec_parse_list,
    spec_parse_riff,
};
use crate::error::Error;
use crate::fmt::{AudioCodec, Fmt};
use crate::locate::{
    ancillary_of,
    find_chunk,
    fmt_at,
    lemma_find_from,
    rebase_chunk,
    rebase_chunks,
    spec_ancillary,
    spec_find,
    spec_fits,
    spec_fmt_at,
    spec_rebased,
};
use crate::tag::ChunkTag;
use crate::wav::Layout;

verus! {

/// A session over the sample data of one file, with a read-ahead buffer of
/// `CHUNK_LEN` bytes, the size of one device block. The caller owns the file
/// handle: the session serves reads from its buffer and says when the caller
/// has to fetch the next block from the device.
pub struct AudioFile<const CHUNK_LEN: usize> {
    /// The offset in the file of the next byte that a read hands out.
    pub read: usize,
    /// The start of the sample data.
    pub start: usize,
    /// The end of the sample data.
    pub end: usize,
    /// The codec of the sample data.
    pub audio_codec: AudioCodec,
    /// Sample rate; typical values are `44_100`, `48_000` or `96_000`.
    pub sample_rate: u32,
    /// Number of channels in the sample data; channels are interleaved.
    pub num_channels: u16,
    /// Bit depth of each sample; typical values are `16` or `24`.
    pub bit_depth: u16,
    /// The chunks that are neither format nor sample data.
    pub chunks: heapless::Vec<Chunk, MAX_CHUNKS>,
    /// The block fetched last.
    pub buffer: [u8; CHUNK_LEN],
    /// Index in `buffer` of the first byte not handed out yet; `CHUNK_LEN`
    /// when the buffer is used up.
    pub cursor: usize,
}

/// Where opening a buffered session stands after the header window.
pub enum Opening<const CHUNK_LEN: usize> {
    /// The sample data was found. The caller moves the file's cursor to the
    /// session's `start`.
    Ready(AudioFile<CHUNK_LEN>),
    /// No `data` chunk is among the top-level chunks of the window. The
    /// caller moves the file's cursor to `offset`, where the `fmt ` chunk
    /// ends, reads a window there and hands it to `new_wav_in_list`.
    List {
        /// The decoded format.
        fmt: Fmt,
        /// The offset in the file at which the `fmt ` chunk ends.
        offset: usize,
    },
}

/// What a header window says of a container whose sample data may stand
/// behind a nested container.
pub enum Found {
    /// The sample data was found.
    Ready(Layout),
    /// The sample data is to be looked for in the window at `offset`.
    List {
        /// The decoded format.
        fmt: Fmt,
        /// The offset in the file at which the `fmt ` chunk ends.
        offset: usize,
    },
}

/// The smaller of two numbers.
pub open spec fn spec_min(a: int, b: int) -> int {
    if a <= b {
        a
    } else {
        b
    }
}

impl<const CHUNK_LEN: usize> AudioFile<CHUNK_LEN> {
    /// The buffer's cursor stands inside the buffer or at its end.
    pub open spec fn wf(&self) -> bool {
        self.cursor <= CHUNK_LEN
    }

    /// The bytes fetched from the device and not handed out yet.
    pub open spec fn spec_pending(&self) -> Seq<u8> {
        self.buffer@.skip(self.cursor as int)
    }

    /// Whether the reads have reached the end of the sample data.
    pub open spec fn spec_is_end(&self) -> bool {
        self.read >= self.end
    }

    /// Two sessions describe the same sample data.
    pub open spec fn spec_same_stream(&self, other: &AudioFile<CHUNK_LEN>) -> bool {
        &&& self.start == other.start
        &&& self.end == other.end
        &&& self.audio_codec == other.audio_codec
        &&& self.sample_rate == other.sample_rate
        &&& self.num_channels == other.num_channels
        &&& self.bit_depth == other.bit_depth
        &&& chunk_list(self.chunks) == chunk_list(other.chunks)
    }

    /// The sample rate.
    pub fn sample_rate(&self) -> (rate: u32)
        ensures
            rate == self.sample_rate,
    {
        self.sample_rate
    }

    /// The number of interleaved channels.
    pub fn num_channels(&self) -> (channels: u16)
        ensures
            channels == self.num_channels,
    {
        self.num_channels
    }

    /// The bits of one sample.
    pub fn bit_depth(&self) -> (bits: u16)
        ensures
            bits == self.bit_depth,
    {
        self.bit_depth
    }

    /// The codec of the sample data.
    pub fn audio_codec(&self) -> (codec: AudioCodec)
        ensures
            codec == self.audio_codec,
    {
        self.audio_codec
    }

    /// The chunks that are neither format nor sample data, in their order.
    pub fn ancillary_chunks(&self) -> (chunks: &[Chunk])
        ensures
            chunks@ == chunk_list(self.chunks),
    {
        chunks_as_slice(&self.chunks)
    }

    /// Whether the reads have reached the end of the sample data.
    pub fn is_end(&self) -> (end: bool)
        ensures
            end == self.spec_is_end(),
    {
        self.read >= self.end
    }

    /// Fills the front of `buf` from the buffer, as far as the buffered bytes
    /// reach, and says how many bytes it placed there. When that is all of
    /// `buf` the read is complete, with no device read. Otherwise the buffer
    /// is used up: the caller fetches the next block from the device and
    /// hands it to `refill`, which completes the read.
    pub fn read_exact(&mut self, buf: &mut [u8]) -> (copied: usize)
        requires
            old(self).wf(),
            !old(self).spec_is_end(),
            old(buf)@.len() <= CHUNK_LEN,
            old(self).read + old(buf)@.len() <= usize::MAX,
        ensures
            copied == spec_min(old(self).spec_pending().len() as int, old(buf)@.len() as int),
            final(buf)@ == old(self).spec_pending().take(copied as int) + old(buf)@.skip(
                copied as int,
            ),
            final(self).wf(),
            final(self).spec_pending() == old(self).spec_pending().skip(copied as int),
            final(self).read == old(self).read + copied,
            final(self).spec_same_stream(old(self)),
    {
        let have: usize = CHUNK_LEN - self.cursor;
        let copied: usize = if buf.len() <= have {
            buf.len()
        } else {
            have
        };
        let from: usize = self.cursor;
        let mut i: usize = 0;
        while i < copied
            invariant
                i <= copied,
                from + copied <= CHUNK_LEN,
                copied <= buf@.len(),
                buf@.len() == old(buf)@.len(),
                *self == *old(self),
                from == self.cursor,
                buf@ == old(self).buffer@.subrange(from as int, from + i) + old(buf)@.skip(
                    i as int,
                ),
            decreases copied - i,
        {
            buf[i] = self.buffer[from + i];
            assert(buf@ =~= old(self).buffer@.subrange(from as int, from + i + 1) + old(buf)@.skip(
                i + 1,
            ));
            i += 1;
        }
        self.cursor = from + copied;
        self.read = self.read + copied;
        assert(old(self).spec_pending().take(copied as int) =~= old(self).buffer@.subrange(
            from as int,
            from + copied,
        ));
        assert(self.spec_pending() =~= old(self).spec_pending().skip(copied as int));
        copied
    }

    /// Completes a read that used up the buffer. `block` is what the device
    /// gave for a read of one whole block, and `copied` is how much of `buf`
    /// `read_exact` has filled. The block becomes the buffer, and its first
    /// bytes fill the rest of `buf`.
    ///
    /// A block shorter than `CHUNK_LEN` fails with `DeviceReadShort`, and
    /// leaves the session and `buf` as they were.
    pub fn refill(&mut self, block: &[u8], buf: &mut [u8], copied: usize) -> (r: Result<(), Error>)
        requires
            old(self).wf(),
            old(self).spec_pending().len() == 0,
            block@.len() <= CHUNK_LEN,
            copied <= old(buf)@.len() <= CHUNK_LEN,
            old(self).read + old(buf)@.len() - copied <= usize::MAX,
        ensures
            r is Ok <==> block@.len() == CHUNK_LEN,
            r is Err ==> r == Err::<(), Error>(Error::DeviceReadShort) && *final(self) == *old(
                self,
            ) && final(buf)@ == old(buf)@,
            r is Ok ==> {
                &&& final(buf)@ == old(buf)@.take(copied as int) + block@.take(
                    old(buf)@.len() - copied,
                )
                &&& final(self).wf()
                &&& final(self).spec_pending() == block@.skip(old(buf)@.len() - copied)
                &&& final(self).read == old(self).read + old(buf)@.len() - copied
                &&& final(self).spec_same_stream(old(self))
            },
    {
        if block.len() < CHUNK_LEN {
            return Err(Error::DeviceReadShort);
        }
        let mut i: usize = 0;
        while i < CHUNK_LEN
            invariant
                i <= CHUNK_LEN,
                block@.len() == CHUNK_LEN,
                self.buffer@.take(i as int) == block@.take(i as int),
                self.read == old(self).read,
                self.spec_same_stream(old(self)),
            decreases CHUNK_LEN - i,
        {
            self.buffer[i] = block[i];
            assert(self.buffer@.take(i + 1) =~= block@.take(i + 1));
            i += 1;
        }
        assert(self.buffer@.len() == CHUNK_LEN);
        assert(self.buffer@.take(CHUNK_LEN as int) =~= self.buffer@);
        assert(block@.take(CHUNK_LEN as int) =~= block@);
        let rest: usize = buf.len() - copied;
        let mut j: usize = 0;
        while j < rest
            invariant
                j <= rest,
                rest == old(buf)@.len() - copied,
                copied + rest == buf@.len(),
                copied + rest <= CHUNK_LEN,
                buf@.len() == old(buf)@.len(),
                rest <= CHUNK_LEN,
                block@.len() == CHUNK_LEN,
                buf@ == old(buf)@.take(copied as int) + block@.take(j as int) + old(buf)@.skip(
                    copied + j,
                ),
            decreases rest - j,
        {
            buf[copied + j] = block[j];
            assert(buf@ =~= old(buf)@.take(copied as int) + block@.take(j + 1) + old(buf)@.skip(
                copied + j + 1,
            ));
            j += 1;
        }
        assert(buf@ =~= old(buf)@.take(copied as int) + block@.take(rest as int));
        self.cursor = rest;
        self.read = self.read + rest;
        Ok(())
    }

    /// The session's layout.
    pub open spec fn spec_layout(&self) -> Layout {
        Layout {
            fmt: Fmt {
                audio_format: self.audio_codec,
                sample_rate: self.sample_rate,
                num_channels: self.num_channels,
                bit_depth: self.bit_depth,
            },
            data: Chunk { id: ChunkTag::Data, start: self.start, end: self.end },
            others: chunk_list(self.chunks),
        }
    }

    /// A session that has handed out nothing yet: the next read begins at
    /// the start of the sample data, and nothing is buffered.
    pub open spec fn spec_fresh(&self) -> bool {
        &&& self.wf()
        &&& self.read == self.start
        &&& self.start <= self.end
        &&& self.spec_pending().len() == 0
    }

    /// What the header window `s` says of a container: the scan's failure if
    /// it fails, `NoFmtChunkFound` without a `fmt ` chunk, the decoder's
    /// failure if the format does not decode; then the layout, or, without a
    /// `data` chunk, where to look for one.
    pub open spec fn spec_new_wav(s: Seq<u8>) -> Result<Found, Error> {
        match spec_parse_riff(s) {
            Err(e) => Err(e),
            Ok(chunks) => match spec_find(chunks, ChunkTag::Fmt) {
                None => Err(Error::NoFmtChunkFound),
                Some(at) => match spec_fmt_at(s, at) {
                    Err(e) => Err(e),
                    Ok(fmt) => match spec_find(chunks, ChunkTag::Data) {
                        None => Ok(Found::List { fmt, offset: at.end }),
                        Some(data) => Ok(
                            Found::Ready(Layout { fmt, data, others: spec_ancillary(chunks) }),
                        ),
                    },
                },
            },
        }
    }

    /// The outcome of the first step of opening, with the session seen as
    /// its layout.
    pub open spec fn spec_found(r: Result<Opening<CHUNK_LEN>, Error>) -> Result<Found, Error> {
        match r {
            Ok(Opening::Ready(file)) => Ok(Found::Ready(file.spec_layout())),
            Ok(Opening::List { fmt, offset }) => Ok(Found::List { fmt, offset }),
            Err(e) => Err(e),
        }
    }

    /// What the window `s`, read at `offset` of the file, says of a nested
    /// container: the scan's failure if it fails, `NoDataChunkFound` without
    /// a `data` chunk, `ChunkOutOfRange` when a chunk's place in the file is no
    /// offset of this platform; else the layout, in offsets of the file.
    pub open spec fn spec_new_wav_in_list(fmt: Fmt, offset: int, s: Seq<u8>) -> Result<
        Layout,
        Error,
    > {
        match spec_parse_list(s) {
            Err(e) => Err(e),
            Ok(chunks) => match spec_find(chunks, ChunkTag::Data) {
                None => Err(Error::NoDataChunkFound),
                Some(data) => if !spec_fits(data, offset) {
                    Err(Error::ChunkOutOfRange)
                } else {
                    match spec_rebased(spec_ancillary(chunks), offset) {
                        Err(e) => Err(e),
                        Ok(others) => Ok(Layout { fmt, data: data.spec_shifted(offset), others }),
                    }
                },
            },
        }
    }

    /// The outcome of opening, with the session seen as its layout.
    pub open spec fn spec_opened(r: Result<AudioFile<CHUNK_LEN>, Error>) -> Result<Layout, Error> {
        match r {
            Ok(file) => Ok(file.spec_layout()),
            Err(e) => Err(e),
        }
    }

    /// A session over the sample data `data` in the format `fmt`.
    fn fresh(fmt: Fmt, data: Chunk, others: heapless::Vec<Chunk, MAX_CHUNKS>) -> (file: AudioFile<
        CHUNK_LEN,
    >)
        requires
            data.start <= data.end,
            data.id == ChunkTag::Data,
        ensures
            file.spec_layout() == (Layout { fmt, data, others: chunk_list(others) }),
            file.spec_fresh(),
    {
        AudioFile {
            read: data.start,
            start: data.start,
            end: data.end,
            audio_codec: fmt.audio_format,
            sample_rate: fmt.sample_rate,
            num_channels: fmt.num_channels,
            bit_depth: fmt.bit_depth,
            chunks: others,
            buffer: [0u8; CHUNK_LEN],
            cursor: CHUNK_LEN,
        }
    }

    /// Begins to open a session from the first bytes of a file.
    pub fn new_wav(header: &[u8]) -> (r: Result<Opening<CHUNK_LEN>, Error>)
        ensures
            Self::spec_found(r) == Self::spec_new_wav(header@),
            r matches Ok(Opening::Ready(file)) ==> file.spec_fresh(),
    {
        let parsed = match parse_riff(header) {
            Ok(parsed) => parsed,
            Err(e) => {
                return Err(e);
            },
        };
        let chunks = chunks_as_slice(&parsed);
        let at = match find_chunk(chunks, ChunkTag::Fmt) {
            None => {
                return Err(Error::NoFmtChunkFound);
            },
            Some(at) => at,
        };
        let fmt = match fmt_at(header, at) {
            Ok(fmt) => fmt,
            Err(e) => {
                return Err(e);
            },
        };
        match find_chunk(chunks, ChunkTag::Data) {
            None => Ok(Opening::List { fmt, offset: at.end }),
            Some(data) => {
                let others = ancillary_of(chunks);
                proof {
                    crate::scan_laws::lemma_scan_layout(header@, 12, MAX_CHUNKS as int);
                    lemma_find_from(chunks@, ChunkTag::Data, 0);
                }
                Ok(Opening::Ready(Self::fresh(fmt, data, others)))
            },
        }
    }

    /// Completes opening from the window read at `offset` of the file, where
    /// a nested container is expected that holds the sample data.
    pub fn new_wav_in_list(fmt: Fmt, offset: usize, window: &[u8]) -> (r: Result<
        AudioFile<CHUNK_LEN>,
        Error,
    >)
        ensures
            Self::spec_opened(r) == Self::spec_new_wav_in_list(fmt, offset as int, window@),
            r matches Ok(file) ==> file.spec_fresh(),
    {
        let parsed = match parse_list(window) {
            Ok(parsed) => parsed,
            Err(e) => {
                return Err(e);
            },
        };
        let chunks = chunks_as_slice(&parsed);
        let found = match find_chunk(chunks, ChunkTag::Data) {
            None => {
                return Err(Error::NoDataChunkFound);
            },
            Some(found) => found,
        };
        let data = match rebase_chunk(found, offset) {
            Ok(data) => data,
            Err(e) => {
                return Err(e);
            },
        };
        let kept = ancillary_of(chunks);
        let others = match rebase_chunks(chunks_as_slice(&kept), offset) {
            Ok(others) => others,
            Err(e) => {
                return Err(e);
            },
        };
        proof {
            crate::scan_laws::lemma_scan_layout(window@, 12, MAX_CHUNKS as int);
            lemma_find_from(chunks@, ChunkTag::Data, 0);
        }
        Ok(Self::fresh(fmt, data, others))
    }
}

} // verus!
