//! Chunk descriptors and the container scanner.

use vstd::prelude::*;
use crate::error::Error;
use crate::tag::ChunkTag;

verus! {

/// Most chunks a scan can report.
pub const MAX_CHUNKS: usize = 20;

/// Bytes of a chunk header: the tag and the little-endian size.
pub const CHUNK_HEADER_LEN: usize = 8;

/// Bytes before the first chunk of a container: its header and its kind.
pub const CONTAINER_HEADER_LEN: usize = 12;

/// `heapless::Vec`, a list of at most `N` items that lives in place.
#[verifier::external_type_specification]
#[verifier::external_body]
#[verifier::reject_recursive_types(T)]
pub struct ExHeaplessVec<T, const N: usize>(heapless::Vec<T, N>);

/// A located chunk: its tag and the byte range of its content.
#[derive(Debug, Clone, Copy)]
pub struct Chunk {
    /// Chunk tag.
    pub id: ChunkTag,
    /// Offset of the first content byte, just past the header.
    pub start: usize,
    /// Offset just past the last content byte, padding not counted.
    pub end: usize,
}

/// The chunks that a bounded list holds, first to last.
pub uninterp spec fn chunk_list(v: heapless::Vec<Chunk, MAX_CHUNKS>) -> Seq<Chunk>;

/// `heapless::Vec::new`: the new list holds nothing.
#[verifier::external_body]
pub(crate) fn chunks_new() -> (v: heapless::Vec<Chunk, MAX_CHUNKS>)
    ensures
        chunk_list(v) == Seq::<Chunk>::empty(),
{
    heapless::Vec::new()
}

/// `heapless::Vec::push`: below capacity the item is appended at the back and
/// the call succeeds; at capacity the list stays as it is and the call fails.
#[verifier::external_body]
pub(crate) fn chunks_push(v: &mut heapless::Vec<Chunk, MAX_CHUNKS>, item: Chunk) -> (pushed: bool)
    ensures
        pushed == (chunk_list(*old(v)).len() < MAX_CHUNKS),
        pushed ==> chunk_list(*final(v)) == chunk_list(*old(v)).push(item),
        !pushed ==> chunk_list(*final(v)) == chunk_list(*old(v)),
{
    v.push(item).is_ok()
}

/// `heapless::Vec::as_slice`: the slice is the list's contents in order, and
/// a list never holds more than its capacity.
#[verifier::external_body]
pub(crate) fn chunks_as_slice(v: &heapless::Vec<Chunk, MAX_CHUNKS>) -> (s: &[Chunk])
    ensures
        s@ == chunk_list(*v),
        s@.len() <= MAX_CHUNKS,
{
    v.as_slice()
}

/// The unsigned 32-bit little-endian number at `at`.
pub open spec fn spec_u32_le(s: Seq<u8>, at: int) -> nat {
    (s[at] + 0x100 * s[at + 1] + 0x1_0000 * s[at + 2] + 0x100_0000 * s[at + 3]) as nat
}

/// The tag of the header at `at`.
pub open spec fn spec_tag_at(s: Seq<u8>, at: int) -> ChunkTag {
    ChunkTag::spec_from_bytes(s.subrange(at, at + 4))
}

/// The size that the header at `at` declares.
pub open spec fn spec_size_at(s: Seq<u8>, at: int) -> nat {
    spec_u32_le(s, at + 4)
}

/// One byte of padding follows content of odd size.
pub open spec fn spec_padding(size: nat) -> nat {
    size % 2
}

/// Where the chunk after the one at `at` begins.
pub open spec fn spec_next_at(s: Seq<u8>, at: int) -> int {
    at + 8 + spec_size_at(s, at) + spec_padding(spec_size_at(s, at))
}

/// The descriptor of the chunk whose header is at `at`.
pub open spec fn spec_chunk_at(s: Seq<u8>, at: int) -> Chunk {
    Chunk {
        id: spec_tag_at(s, at),
        start: (at + 8) as usize,
        end: (at + 8 + spec_size_at(s, at)) as usize,
    }
}

/// What scanning `s` from `at` on gives when `room` more chunks can be taken:
/// the chunks in order, or the first failure met.
pub open spec fn spec_scan(s: Seq<u8>, at: int, room: int) -> Result<Seq<Chunk>, Error>
    decreases
        if at < s.len() {
            s.len() - at
        } else {
            0
        },
{
    if at < 0 || at >= s.len() {
        Ok(Seq::empty())
    } else if at + 8 > s.len() {
        Err(Error::CantParseSliceInto)
    } else if spec_next_at(s, at) > usize::MAX {
        Err(Error::ChunkOutOfRange)
    } else if room <= 0 {
        Err(Error::TooManyChunks)
    } else {
        match spec_scan(s, spec_next_at(s, at), room - 1) {
            Ok(rest) => Ok(seq![spec_chunk_at(s, at)] + rest),
            Err(e) => Err(e),
        }
    }
}

/// `found` in front of what a scan of the rest gives.
pub open spec fn spec_prepend(found: Seq<Chunk>, rest: Result<Seq<Chunk>, Error>) -> Result<
    Seq<Chunk>,
    Error,
> {
    match rest {
        Ok(more) => Ok(found + more),
        Err(e) => Err(e),
    }
}

/// What scanning a container gives whose header must carry `outer` and whose
/// kind must be `kind`; `no_outer` and `no_kind` are the failures for a
/// header that carries something else.
pub open spec fn spec_scan_container(
    s: Seq<u8>,
    outer: ChunkTag,
    kind: ChunkTag,
    no_outer: Error,
    no_kind: Error,
) -> Result<Seq<Chunk>, Error> {
    if s.len() < 8 {
        Err(Error::CantParseSliceInto)
    } else if spec_tag_at(s, 0) != outer {
        Err(no_outer)
    } else if s.len() < 12 {
        Err(Error::CantParseSliceInto)
    } else if s.subrange(8, 12) != kind.spec_bytes() {
        Err(no_kind)
    } else {
        spec_scan(s, 12, MAX_CHUNKS as int)
    }
}

/// What scanning a RIFF/WAVE container gives.
pub open spec fn spec_parse_riff(s: Seq<u8>) -> Result<Seq<Chunk>, Error> {
    spec_scan_container(
        s,
        ChunkTag::Riff,
        ChunkTag::Wave,
        Error::NoRiffChunkFound,
        Error::NoWaveTagFound,
    )
}

/// What scanning a LIST/INFO container gives.
pub open spec fn spec_parse_list(s: Seq<u8>) -> Result<Seq<Chunk>, Error> {
    spec_scan_container(
        s,
        ChunkTag::List,
        ChunkTag::Info,
        Error::NoListTagFound,
        Error::NoInfoTagFound,
    )
}

/// A scan's outcome, with the list seen as the sequence it holds.
pub open spec fn spec_listed(r: Result<heapless::Vec<Chunk, MAX_CHUNKS>, Error>) -> Result<
    Seq<Chunk>,
    Error,
> {
    match r {
        Ok(v) => Ok(chunk_list(v)),
        Err(e) => Err(e),
    }
}

/// Reads the little-endian `u32` at `at`.
pub fn read_u32_le(bytes: &[u8], at: usize) -> (v: u32)
    requires
        at + 4 <= bytes.len(),
    ensures
        v == spec_u32_le(bytes@, at as int),
{
    let b0: u32 = bytes[at] as u32;
    let b1: u32 = bytes[at + 1] as u32;
    let b2: u32 = bytes[at + 2] as u32;
    let b3: u32 = bytes[at + 3] as u32;
    b0 + 0x100 * b1 + 0x1_0000 * b2 + 0x100_0000 * b3
}

/// Reads the tag at `at`.
pub fn read_tag(bytes: &[u8], at: usize) -> (tag: ChunkTag)
    requires
        at + 4 <= bytes.len(),
    ensures
        tag == spec_tag_at(bytes@, at as int),
        tag.spec_bytes() == bytes@.subrange(at as int, at + 4),
{
    let raw: [u8; 4] = [bytes[at], bytes[at + 1], bytes[at + 2], bytes[at + 3]];
    assert(raw@ =~= bytes@.subrange(at as int, at + 4));
    ChunkTag::from_bytes(&raw)
}

/// Whether the four bytes at `at` spell `tag`.
pub fn tag_bytes_at(bytes: &[u8], at: usize, tag: ChunkTag) -> (same: bool)
    requires
        at + 4 <= bytes.len(),
    ensures
        same == (bytes@.subrange(at as int, at + 4) == tag.spec_bytes()),
{
    let want = tag.to_bytes();
    let same = bytes[at] == want[0] && bytes[at + 1] == want[1] && bytes[at + 2] == want[2]
        && bytes[at + 3] == want[3];
    proof {
        let have = bytes@.subrange(at as int, at + 4);
        assert(have[0] == bytes[at as int] && have[1] == bytes[at + 1] && have[2] == bytes[at + 2]
            && have[3] == bytes[at + 3]);
        if same {
            assert(have =~= want@);
        }
    }
    same
}

impl Chunk {
    /// Bytes of content.
    pub open spec fn spec_len(self) -> int {
        self.end - self.start
    }

    /// What `from_bytes` gives for the window `s`.
    pub open spec fn spec_from_bytes(s: Seq<u8>) -> Result<Chunk, Error> {
        if s.len() < 8 {
            Err(Error::CantParseSliceInto)
        } else if 8 + spec_size_at(s, 0) > usize::MAX {
            Err(Error::ChunkOutOfRange)
        } else {
            Ok(spec_chunk_at(s, 0))
        }
    }

    /// Describes the chunk whose header opens `bytes`, with offsets counted
    /// from the start of `bytes`. Fails when `bytes` is shorter than a header
    /// or the content's end is no offset of this platform.
    pub fn from_bytes(bytes: &[u8]) -> (r: Result<Chunk, Error>)
        ensures
            r == Chunk::spec_from_bytes(bytes@),
    {
        if bytes.len() < CHUNK_HEADER_LEN {
            return Err(Error::CantParseSliceInto);
        }
        let id = read_tag(bytes, 0);
        let size: u32 = read_u32_le(bytes, 4);
        if size as usize > usize::MAX - CHUNK_HEADER_LEN {
            return Err(Error::ChunkOutOfRange);
        }
        Ok(Chunk { id, start: CHUNK_HEADER_LEN, end: CHUNK_HEADER_LEN + size as usize })
    }

    /// The same chunk seen from a window that begins `base` bytes earlier.
    pub open spec fn spec_shifted(self, base: int) -> Chunk {
        Chunk { id: self.id, start: (self.start + base) as usize, end: (self.end + base) as usize }
    }
}

/// A header reads the same in the bytes as in the window that begins with it.
pub proof fn lemma_header_in_window(s: Seq<u8>, at: int)
    requires
        0 <= at,
        at + 8 <= s.len(),
    ensures
        spec_tag_at(s.subrange(at, s.len() as int), 0) == spec_tag_at(s, at),
        spec_size_at(s.subrange(at, s.len() as int), 0) == spec_size_at(s, at),
{
    let window = s.subrange(at, s.len() as int);
    assert(window.subrange(0, 4) =~= s.subrange(at, at + 4));
    assert(window[4] == s[at + 4] && window[5] == s[at + 5] && window[6] == s[at + 6] && window[7]
        == s[at + 7]);
}

/// Scans the chunks of `bytes` from `from` on.
fn scan(bytes: &[u8], from: usize) -> (r: Result<heapless::Vec<Chunk, MAX_CHUNKS>, Error>)
    ensures
        spec_listed(r) == spec_scan(bytes@, from as int, MAX_CHUNKS as int),
{
    let mut chunks = chunks_new();
    let mut index: usize = from;
    let ghost whole = spec_scan(bytes@, from as int, MAX_CHUNKS as int);
    assert(spec_prepend(Seq::<Chunk>::empty(), whole) == whole) by {
        if let Ok(more) = whole {
            assert(Seq::<Chunk>::empty() + more =~= more);
        }
    }
    while index < bytes.len()
        invariant
            chunk_list(chunks).len() <= MAX_CHUNKS,
            whole == spec_scan(bytes@, from as int, MAX_CHUNKS as int),
            whole == spec_prepend(
                chunk_list(chunks),
                spec_scan(bytes@, index as int, MAX_CHUNKS - chunk_list(chunks).len()),
            ),
        decreases
            if index < bytes.len() {
                bytes.len() - index
            } else {
                0
            },
    {
        let ghost found = chunk_list(chunks);
        let window = vstd::slice::slice_subrange(bytes, index, bytes.len());
        proof {
            if index + 8 <= bytes.len() {
                lemma_header_in_window(bytes@, index as int);
            }
        }
        let local = match Chunk::from_bytes(window) {
            Ok(local) => local,
            Err(e) => {
                return Err(e);
            },
        };
        let size: usize = local.end - local.start;
        let padding: usize = size % 2;
        let room: usize = usize::MAX - index - CHUNK_HEADER_LEN;
        if size > room || size + padding > room {
            return Err(Error::ChunkOutOfRange);
        }
        let chunk = Chunk { id: local.id, start: local.start + index, end: local.end + index };
        assert(chunk == spec_chunk_at(bytes@, index as int));
        if !chunks_push(&mut chunks, chunk) {
            return Err(Error::TooManyChunks);
        }
        proof {
            let next = spec_next_at(bytes@, index as int);
            let rest = spec_scan(bytes@, next, MAX_CHUNKS - found.len() - 1);
            if let Ok(more) = rest {
                assert(found + (seq![chunk] + more) =~= found.push(chunk) + more);
            }
        }
        index = chunk.end + padding;
    }
    assert(chunk_list(chunks) + Seq::<Chunk>::empty() =~= chunk_list(chunks));
    Ok(chunks)
}

/// Checks the head of a container and scans the chunks that follow it.
fn scan_container(
    bytes: &[u8],
    outer: ChunkTag,
    kind: ChunkTag,
    no_outer: Error,
    no_kind: Error,
) -> (r: Result<heapless::Vec<Chunk, MAX_CHUNKS>, Error>)
    ensures
        spec_listed(r) == spec_scan_container(bytes@, outer, kind, no_outer, no_kind),
{
    if bytes.len() < CHUNK_HEADER_LEN {
        return Err(Error::CantParseSliceInto);
    }
    let id = read_tag(bytes, 0);
    if id != outer {
        return Err(no_outer);
    }
    if bytes.len() < CONTAINER_HEADER_LEN {
        return Err(Error::CantParseSliceInto);
    }
    if !tag_bytes_at(bytes, 8, kind) {
        return Err(no_kind);
    }
    scan(bytes, CONTAINER_HEADER_LEN)
}

/// Scans a RIFF/WAVE container: checks the root header and the `WAVE`
/// identifier, then lists the chunks that follow, each with the byte range of
/// its content counted from the start of `bytes`.
///
/// Fails with `NoRiffChunkFound` or `NoWaveTagFound` when the head is
/// something else, with `CantParseSliceInto` when a header is cut short, with
/// `ChunkOutOfRange` when a chunk ends past the platform's offsets, and with
/// `TooManyChunks` when more than `MAX_CHUNKS` chunks are met. A declared size
/// that runs past the end of `bytes` is taken as it is.
pub fn parse_riff(bytes: &[u8]) -> (r: Result<heapless::Vec<Chunk, MAX_CHUNKS>, Error>)
    ensures
        spec_listed(r) == spec_parse_riff(bytes@),
{
    scan_container(
        bytes,
        ChunkTag::Riff,
        ChunkTag::Wave,
        Error::NoRiffChunkFound,
        Error::NoWaveTagFound,
    )
}

/// Scans a nested LIST container of the `INFO` kind in the same way.
///
/// Fails with `NoListTagFound` or `NoInfoTagFound` when the head is something
/// else, and otherwise as `parse_riff` does.
pub fn parse_list(bytes: &[u8]) -> (r: Result<heapless::Vec<Chunk, MAX_CHUNKS>, Error>)
    ensures
        spec_listed(r) == spec_parse_list(bytes@),
{
    scan_container(
        bytes,
        ChunkTag::List,
        ChunkTag::Info,
        Error::NoListTagFound,
        Error::NoInfoTagFound,
    )
}

/// Scans the top-level chunks of a RIFF/WAVE container; the same scan as
/// `parse_riff`.
pub fn parse_chunks(bytes: &[u8]) -> (r: Result<heapless::Vec<Chunk, MAX_CHUNKS>, Error>)
    ensures
        spec_listed(r) == spec_parse_riff(bytes@),
{
    parse_riff(bytes)
}

} // verus!
