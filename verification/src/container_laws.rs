//! Scanning a container that was laid out chunk by chunk gives those chunks
//! back.

use vstd::prelude::*;
use crate::chunk::{
    Chunk,
    MAX_CHUNKS,
    spec_chunk_at,
    spec_next_at,
    spec_parse_riff,
    spec_scan,
    spec_size_at,
    spec_tag_at,
    spec_u32_le,
};
use crate::audio::{AudioFile, Found};
use crate::error::Error;
use crate::tag::ChunkTag;
use crate::wav::{Layout, Wav};

verus! {

/// One chunk to be laid out: its tag, its content, and the byte that pads
/// content of odd length.
pub struct Piece {
    /// The chunk's tag.
    pub tag: ChunkTag,
    /// The chunk's content.
    pub content: Seq<u8>,
    /// The padding byte, written only after content of odd length.
    pub pad: u8,
}

/// The four little-endian bytes of `n`.
pub open spec fn spec_u32_bytes(n: nat) -> Seq<u8> {
    seq![
        (n % 0x100) as u8,
        (n / 0x100 % 0x100) as u8,
        (n / 0x1_0000 % 0x100) as u8,
        (n / 0x100_0000 % 0x100) as u8,
    ]
}

/// The padding after `p`'s content.
pub open spec fn spec_piece_padding(p: Piece) -> Seq<u8> {
    if p.content.len() % 2 == 1 {
        seq![p.pad]
    } else {
        Seq::empty()
    }
}

/// The bytes of one chunk: tag, size, content, padding.
pub open spec fn spec_piece_bytes(p: Piece) -> Seq<u8> {
    p.tag.spec_bytes() + spec_u32_bytes(p.content.len()) + p.content + spec_piece_padding(p)
}

/// The bytes of the chunks `ps`, one after the other.
pub open spec fn spec_pieces_bytes(ps: Seq<Piece>) -> Seq<u8>
    decreases ps.len(),
{
    if ps.len() == 0 {
        Seq::empty()
    } else {
        spec_piece_bytes(ps[0]) + spec_pieces_bytes(ps.drop_first())
    }
}

/// A chunk that can be laid out: its size fits the size field, and its tag is
/// the one that its four bytes are read as.
pub open spec fn spec_piece_ok(p: Piece) -> bool {
    &&& p.content.len() <= u32::MAX
    &&& ChunkTag::spec_from_bytes(p.tag.spec_bytes()) == p.tag
}

/// The descriptors of the chunks `ps` laid out from offset `at` on.
pub open spec fn spec_described(ps: Seq<Piece>, at: int) -> Seq<Chunk>
    decreases ps.len(),
{
    if ps.len() == 0 {
        Seq::empty()
    } else {
        seq![
            Chunk {
                id: ps[0].tag,
                start: (at + 8) as usize,
                end: (at + 8 + ps[0].content.len()) as usize,
            },
        ] + spec_described(ps.drop_first(), at + spec_piece_bytes(ps[0]).len())
    }
}

/// Exactly one chunk of `chunks` carries `tag`.
pub open spec fn spec_exactly_one(chunks: Seq<Chunk>, tag: ChunkTag) -> bool {
    exists|i: int|
        {
            &&& 0 <= i < chunks.len()
            &&& (#[trigger] chunks[i]).id == tag
            &&& forall|j: int| 0 <= j < chunks.len() && (#[trigger] chunks[j]).id == tag ==> j == i
        }
}

/// Exactly one chunk of `ps` carries `tag`.
pub open spec fn spec_exactly_one_piece(ps: Seq<Piece>, tag: ChunkTag) -> bool {
    exists|i: int|
        {
            &&& 0 <= i < ps.len()
            &&& (#[trigger] ps[i]).tag == tag
            &&& forall|j: int| 0 <= j < ps.len() && (#[trigger] ps[j]).tag == tag ==> j == i
        }
}

/// A tag stands in four bytes.
pub proof fn lemma_tag_bytes_len(tag: ChunkTag)
    ensures
        tag.spec_bytes().len() == 4,
{
    match tag {
        ChunkTag::Unknown(raw) => {
            assert(raw@.len() == 4);
        },
        _ => {},
    }
}

/// The size field reads back the number that was written to it.
pub proof fn lemma_u32_bytes_read_back(s: Seq<u8>, at: int, n: nat)
    requires
        n <= u32::MAX,
        0 <= at,
        at + 4 <= s.len(),
        s.subrange(at, at + 4) == spec_u32_bytes(n),
    ensures
        spec_u32_le(s, at) == n,
{
    let b = spec_u32_bytes(n);
    let w = s.subrange(at, at + 4);
    assert(w[0] == s[at] && w[1] == s[at + 1] && w[2] == s[at + 2] && w[3] == s[at + 3]);
    assert(b[0] == (n % 0x100) as u8);
    assert(b[1] == (n / 0x100 % 0x100) as u8);
    assert(b[2] == (n / 0x1_0000 % 0x100) as u8);
    assert(b[3] == (n / 0x100_0000 % 0x100) as u8);
    assert(n / 0x100_0000 < 0x100);
}

/// The descriptors are as many as the chunks laid out; each carries its
/// chunk's tag, spans as many bytes as its chunk's content, and stands past
/// the offset at which the layout began.
pub proof fn lemma_described(ps: Seq<Piece>, at: int)
    requires
        0 <= at,
        at + spec_pieces_bytes(ps).len() <= usize::MAX,
    ensures
        spec_described(ps, at).len() == ps.len(),
        forall|i: int|
            0 <= i < ps.len() ==> {
                let c = #[trigger] spec_described(ps, at)[i];
                &&& c.id == ps[i].tag
                &&& c.spec_len() == ps[i].content.len()
                &&& at + 8 <= c.start
            },
    decreases ps.len(),
{
    if ps.len() > 0 {
        let p = ps[0];
        let tail = ps.drop_first();
        lemma_tag_bytes_len(p.tag);
        let next = at + spec_piece_bytes(p).len();
        lemma_described(tail, next);
        let all = spec_described(ps, at);
        assert forall|i: int| 0 <= i < ps.len() implies {
            let c = #[trigger] all[i];
            &&& c.id == ps[i].tag
            &&& c.spec_len() == ps[i].content.len()
            &&& at + 8 <= c.start
        } by {
            if i > 0 {
                assert(all[i] == spec_described(tail, next)[i - 1]);
                assert(tail[i - 1] == ps[i]);
            }
        }
    }
}

/// Scanning bytes that hold the chunks `ps` from `at` to their end reports
/// those chunks when there is room for all of them, and fails with
/// `TooManyChunks` when there is not.
pub proof fn lemma_scan_pieces(s: Seq<u8>, at: int, ps: Seq<Piece>, room: int)
    requires
        0 <= at <= s.len() <= usize::MAX,
        0 <= room,
        s.skip(at) == spec_pieces_bytes(ps),
        forall|i: int| 0 <= i < ps.len() ==> spec_piece_ok(#[trigger] ps[i]),
    ensures
        ps.len() <= room ==> spec_scan(s, at, room) == Ok::<Seq<Chunk>, Error>(
            spec_described(ps, at),
        ),
        ps.len() > room ==> spec_scan(s, at, room) == Err::<Seq<Chunk>, Error>(
            Error::TooManyChunks,
        ),
    decreases ps.len(),
{
    if ps.len() == 0 {
        assert(s.skip(at).len() == 0);
    } else {
        let p = ps[0];
        let tail = ps.drop_first();
        let bytes = spec_piece_bytes(p);
        let later = spec_pieces_bytes(tail);
        let n = p.content.len();
        lemma_tag_bytes_len(p.tag);
        assert(spec_piece_ok(p));
        assert(s.skip(at) == bytes + later);
        assert(s.skip(at).len() == s.len() - at);
        assert(bytes.len() == 8 + n + n % 2);
        assert(s.subrange(at, at + 4) =~= p.tag.spec_bytes()) by {
            assert forall|k: int| 0 <= k < 4 implies s.subrange(at, at + 4)[k]
                == p.tag.spec_bytes()[k] by {
                assert(s[at + k] == s.skip(at)[k]);
                assert((bytes + later)[k] == bytes[k]);
            }
        }
        assert(s.subrange(at + 4, at + 8) =~= spec_u32_bytes(n)) by {
            assert forall|k: int| 0 <= k < 4 implies s.subrange(at + 4, at + 8)[k]
                == spec_u32_bytes(n)[k] by {
                assert(s[at + 4 + k] == s.skip(at)[4 + k]);
                assert((bytes + later)[4 + k] == bytes[4 + k]);
            }
        }
        lemma_u32_bytes_read_back(s, at + 4, n);
        assert(spec_tag_at(s, at) == p.tag);
        assert(spec_size_at(s, at) == n);
        let next = spec_next_at(s, at);
        assert(next == at + bytes.len());
        assert(s.skip(next) =~= later) by {
            assert forall|k: int| 0 <= k < later.len() implies s.skip(next)[k] == later[k] by {
                assert(s[next + k] == s.skip(at)[bytes.len() + k]);
                assert((bytes + later)[bytes.len() + k] == later[k]);
            }
        }
        assert forall|i: int| 0 <= i < tail.len() implies spec_piece_ok(#[trigger] tail[i]) by {
            assert(tail[i] == ps[i + 1]);
        }
        if room > 0 {
            lemma_scan_pieces(s, next, tail, room - 1);
            assert(spec_chunk_at(s, at) == Chunk {
                id: p.tag,
                start: (at + 8) as usize,
                end: (at + 8 + n) as usize,
            });
        }
    }
}

/// A container head of twelve bytes: the root tag, a size, the `WAVE`
/// identifier.
pub open spec fn spec_is_wave_head(head: Seq<u8>) -> bool {
    &&& head.len() == 12
    &&& head.subrange(0, 4) == ChunkTag::Riff.spec_bytes()
    &&& head.subrange(8, 12) == ChunkTag::Wave.spec_bytes()
}

/// A well-formed RIFF/WAVE stream of N chunks, N no more than the list
/// takes, scans to exactly N descriptors. The i-th carries the i-th chunk's
/// tag and spans as many bytes as its content. So where exactly one chunk is
/// the format and exactly one the sample data, exactly one descriptor carries
/// each of these tags.
pub proof fn lemma_parse_riff_of_pieces(head: Seq<u8>, ps: Seq<Piece>)
    requires
        spec_is_wave_head(head),
        forall|i: int| 0 <= i < ps.len() ==> spec_piece_ok(#[trigger] ps[i]),
        ps.len() <= MAX_CHUNKS,
        12 + spec_pieces_bytes(ps).len() <= usize::MAX,
    ensures
        spec_parse_riff(head + spec_pieces_bytes(ps)) matches Ok(chunks) && {
            &&& chunks == spec_described(ps, 12)
            &&& chunks.len() == ps.len()
            &&& forall|i: int|
                0 <= i < ps.len() ==> (#[trigger] chunks[i]).id == ps[i].tag && chunks[i].spec_len()
                    == ps[i].content.len()
            &&& spec_exactly_one_piece(ps, ChunkTag::Fmt) ==> spec_exactly_one(
                chunks,
                ChunkTag::Fmt,
            )
            &&& spec_exactly_one_piece(ps, ChunkTag::Data) ==> spec_exactly_one(
                chunks,
                ChunkTag::Data,
            )
        },
{
    let body = spec_pieces_bytes(ps);
    let s = head + body;
    lemma_head_is_checked(head, body);
    assert(s.skip(12) =~= body);
    lemma_scan_pieces(s, 12, ps, MAX_CHUNKS as int);
    lemma_described(ps, 12);
    let chunks = spec_described(ps, 12);
    lemma_exactly_one(ps, chunks, ChunkTag::Fmt);
    lemma_exactly_one(ps, chunks, ChunkTag::Data);
}

/// A stream of more chunks than the list takes fails to scan, with
/// `TooManyChunks`.
pub proof fn lemma_parse_riff_overfull(head: Seq<u8>, ps: Seq<Piece>)
    requires
        spec_is_wave_head(head),
        forall|i: int| 0 <= i < ps.len() ==> spec_piece_ok(#[trigger] ps[i]),
        ps.len() > MAX_CHUNKS,
        12 + spec_pieces_bytes(ps).len() <= usize::MAX,
    ensures
        spec_parse_riff(head + spec_pieces_bytes(ps)) == Err::<Seq<Chunk>, Error>(
            Error::TooManyChunks,
        ),
{
    let body = spec_pieces_bytes(ps);
    let s = head + body;
    lemma_head_is_checked(head, body);
    assert(s.skip(12) =~= body);
    lemma_scan_pieces(s, 12, ps, MAX_CHUNKS as int);
}

/// Behind a container head the scan of a RIFF/WAVE stream is the scan of
/// what follows the head.
pub proof fn lemma_head_is_checked(head: Seq<u8>, body: Seq<u8>)
    requires
        spec_is_wave_head(head),
    ensures
        spec_parse_riff(head + body) == spec_scan(head + body, 12, MAX_CHUNKS as int),
{
    let s = head + body;
    assert(s.subrange(0, 4) =~= head.subrange(0, 4));
    assert(s.subrange(8, 12) =~= head.subrange(8, 12));
}

/// Where tags agree chunk by chunk, a tag that exactly one chunk laid out
/// carries is a tag that exactly one descriptor carries.
pub proof fn lemma_exactly_one(ps: Seq<Piece>, chunks: Seq<Chunk>, tag: ChunkTag)
    requires
        chunks.len() == ps.len(),
        forall|i: int| 0 <= i < ps.len() ==> (#[trigger] chunks[i]).id == ps[i].tag,
    ensures
        spec_exactly_one_piece(ps, tag) ==> spec_exactly_one(chunks, tag),
{
    if spec_exactly_one_piece(ps, tag) {
        let i = choose|i: int|
            {
                &&& 0 <= i < ps.len()
                &&& (#[trigger] ps[i]).tag == tag
                &&& forall|j: int|
                    0 <= j < ps.len() && (#[trigger] ps[j]).tag == tag ==> j == i
            };
        assert(chunks[i].id == tag);
        assert forall|j: int| 0 <= j < chunks.len() && (#[trigger] chunks[j]).id == tag implies j
            == i by {
            assert(ps[j].tag == tag);
        }
    }
}

/// Opening names what is wrong with the head of a file: a window that does
/// not begin with the root tag fails with `NoRiffChunkFound`, and one whose
/// root header is not followed by the `WAVE` identifier fails with
/// `NoWaveTagFound`, whatever else the window holds.
pub proof fn lemma_open_names_bad_head<const CHUNK_LEN: usize>(s: Seq<u8>)
    ensures
        s.len() >= 8 && s.subrange(0, 4) != ChunkTag::Riff.spec_bytes() ==> {
            &&& spec_parse_riff(s) == Err::<Seq<Chunk>, Error>(Error::NoRiffChunkFound)
            &&& Wav::spec_new(s) == Err::<Layout, Error>(Error::NoRiffChunkFound)
            &&& AudioFile::<CHUNK_LEN>::spec_new_wav(s) == Err::<Found, Error>(
                Error::NoRiffChunkFound,
            )
        },
        s.len() >= 12 && s.subrange(0, 4) == ChunkTag::Riff.spec_bytes() && s.subrange(8, 12)
            != ChunkTag::Wave.spec_bytes() ==> {
            &&& spec_parse_riff(s) == Err::<Seq<Chunk>, Error>(Error::NoWaveTagFound)
            &&& Wav::spec_new(s) == Err::<Layout, Error>(Error::NoWaveTagFound)
            &&& AudioFile::<CHUNK_LEN>::spec_new_wav(s) == Err::<Found, Error>(
                Error::NoWaveTagFound,
            )
        },
{
}

} // verus!
