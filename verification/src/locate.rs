//! Finding the chunks that a session needs among those a scan reported.

use vstd::prelude::*;
use crate::chunk::{Chunk, MAX_CHUNKS, chunk_list, chunks_new, chunks_push};
use crate::error::Error;
use crate::fmt::Fmt;
use crate::tag::ChunkTag;

verus! {

/// The first chunk tagged `tag` among `chunks[from..]`.
pub open spec fn spec_find_from(chunks: Seq<Chunk>, tag: ChunkTag, from: int) -> Option<Chunk>
    decreases
        if from < chunks.len() {
            chunks.len() - from
        } else {
            0
        },
{
    if from < 0 || from >= chunks.len() {
        None
    } else if chunks[from].id == tag {
        Some(chunks[from])
    } else {
        spec_find_from(chunks, tag, from + 1)
    }
}

/// The first chunk tagged `tag`.
pub open spec fn spec_find(chunks: Seq<Chunk>, tag: ChunkTag) -> Option<Chunk> {
    spec_find_from(chunks, tag, 0)
}

/// A chunk is ancillary when it is neither the format nor the sample data.
pub open spec fn spec_is_ancillary(c: Chunk) -> bool {
    c.id != ChunkTag::Data && c.id != ChunkTag::Fmt
}

/// The ancillary chunks among `chunks`, in their order.
pub open spec fn spec_ancillary(chunks: Seq<Chunk>) -> Seq<Chunk> {
    chunks.filter(|c: Chunk| spec_is_ancillary(c))
}

/// What decoding the format from window `s` gives, when `at` is where a scan
/// found the `fmt ` chunk.
pub open spec fn spec_fmt_at(s: Seq<u8>, at: Chunk) -> Result<Fmt, Error> {
    if at.start > at.end || at.end > s.len() {
        Err(Error::CantParseSliceInto)
    } else {
        Fmt::spec_from_chunk(s.subrange(at.start as int, at.end as int))
    }
}

/// A chunk that is found carries the tag and stands in the list, with no
/// chunk of that tag before it; where none is found, no chunk carries the tag.
pub proof fn lemma_find_from(chunks: Seq<Chunk>, tag: ChunkTag, from: int)
    requires
        0 <= from,
    ensures
        match spec_find_from(chunks, tag, from) {
            Some(c) => exists|i: int|
                {
                    &&& from <= i < chunks.len()
                    &&& #[trigger] chunks[i] == c
                    &&& c.id == tag
                    &&& forall|j: int| from <= j < i ==> (#[trigger] chunks[j]).id != tag
                },
            None => forall|i: int| from <= i < chunks.len() ==> (#[trigger] chunks[i]).id != tag,
        },
    decreases
        if from < chunks.len() {
            chunks.len() - from
        } else {
            0
        },
{
    if from < chunks.len() {
        if chunks[from].id == tag {
            assert(chunks[from] == chunks[from]);
        } else {
            lemma_find_from(chunks, tag, from + 1);
            match spec_find_from(chunks, tag, from + 1) {
                Some(c) => {
                    let i = choose|i: int|
                        {
                            &&& from + 1 <= i < chunks.len()
                            &&& #[trigger] chunks[i] == c
                            &&& c.id == tag
                            &&& forall|j: int|
                                from + 1 <= j < i ==> (#[trigger] chunks[j]).id != tag
                        };
                    assert(chunks[i] == c);
                    assert forall|j: int| from <= j < i implies (#[trigger] chunks[j]).id
                        != tag by {
                        if j > from {
                        }
                    }
                },
                None => {
                    assert forall|i: int| from <= i < chunks.len() implies (
                    #[trigger] chunks[i]).id != tag by {
                        if i > from {
                        }
                    }
                },
            }
        }
    }
}

/// Finds the first chunk tagged `tag`.
pub fn find_chunk(chunks: &[Chunk], tag: ChunkTag) -> (r: Option<Chunk>)
    ensures
        r == spec_find(chunks@, tag),
{
    let mut i: usize = 0;
    while i < chunks.len()
        invariant
            i <= chunks.len(),
            spec_find(chunks@, tag) == spec_find_from(chunks@, tag, i as int),
        decreases chunks.len() - i,
    {
        if chunks[i].id == tag {
            return Some(chunks[i]);
        }
        i += 1;
    }
    None
}

/// Keeps the ancillary chunks of a scan, in their order.
pub fn ancillary_of(chunks: &[Chunk]) -> (kept: heapless::Vec<Chunk, MAX_CHUNKS>)
    requires
        chunks.len() <= MAX_CHUNKS,
    ensures
        chunk_list(kept) == spec_ancillary(chunks@),
{
    let mut kept = chunks_new();
    let mut i: usize = 0;
    proof {
        reveal(Seq::filter);
        assert(chunks@.take(0) =~= Seq::<Chunk>::empty());
    }
    while i < chunks.len()
        invariant
            i <= chunks.len() <= MAX_CHUNKS,
            chunk_list(kept) == spec_ancillary(chunks@.take(i as int)),
            chunk_list(kept).len() <= i,
        decreases chunks.len() - i,
    {
        let c = chunks[i];
        proof {
            reveal(Seq::filter);
            assert(chunks@.take(i + 1).drop_last() =~= chunks@.take(i as int));
            assert(chunks@.take(i + 1).last() == c);
        }
        if c.id != ChunkTag::Data && c.id != ChunkTag::Fmt {
            let pushed = chunks_push(&mut kept, c);
            assert(pushed);
        }
        i += 1;
    }
    assert(chunks@.take(i as int) =~= chunks@);
    kept
}

/// Decodes the format from the window in which a scan found its chunk. A
/// chunk that ends past the window fails with `CantParseSliceInto`.
pub fn fmt_at(bytes: &[u8], at: Chunk) -> (r: Result<Fmt, Error>)
    ensures
        r == spec_fmt_at(bytes@, at),
{
    if at.start > at.end || at.end > bytes.len() {
        return Err(Error::CantParseSliceInto);
    }
    Fmt::from_chunk(vstd::slice::slice_subrange(bytes, at.start, at.end))
}

/// Whether the chunk `c` can be counted from `base` bytes earlier.
pub open spec fn spec_fits(c: Chunk, base: int) -> bool {
    c.start + base <= usize::MAX && c.end + base <= usize::MAX
}

/// The chunks `chunks`, each counted from `base` bytes earlier; fails with
/// `ChunkOutOfRange` when one of them then ends past the platform's offsets.
pub open spec fn spec_rebased(chunks: Seq<Chunk>, base: int) -> Result<Seq<Chunk>, Error> {
    if forall|i: int| 0 <= i < chunks.len() ==> spec_fits(#[trigger] chunks[i], base) {
        Ok(chunks.map_values(|c: Chunk| c.spec_shifted(base)))
    } else {
        Err(Error::ChunkOutOfRange)
    }
}

/// Counts one chunk from `base` bytes earlier.
pub fn rebase_chunk(c: Chunk, base: usize) -> (r: Result<Chunk, Error>)
    ensures
        spec_fits(c, base as int) ==> r == Ok::<Chunk, Error>(c.spec_shifted(base as int)),
        !spec_fits(c, base as int) ==> r == Err::<Chunk, Error>(Error::ChunkOutOfRange),
{
    if c.start > usize::MAX - base || c.end > usize::MAX - base {
        return Err(Error::ChunkOutOfRange);
    }
    Ok(Chunk { id: c.id, start: c.start + base, end: c.end + base })
}

/// Counts the chunks of a scan from `base` bytes earlier: a scan of a window
/// that begins at offset `base` of a file reports offsets in the window, and
/// this turns them into offsets in the file.
pub fn rebase_chunks(chunks: &[Chunk], base: usize) -> (r: Result<heapless::Vec<Chunk, MAX_CHUNKS>, Error>)
    requires
        chunks.len() <= MAX_CHUNKS,
    ensures
        crate::chunk::spec_listed(r) == spec_rebased(chunks@, base as int),
{
    let mut moved = chunks_new();
    let mut i: usize = 0;
    while i < chunks.len()
        invariant
            i <= chunks.len() <= MAX_CHUNKS,
            forall|j: int| 0 <= j < i ==> spec_fits(#[trigger] chunks@[j], base as int),
            chunk_list(moved) == chunks@.take(i as int).map_values(
                |c: Chunk| c.spec_shifted(base as int),
            ),
        decreases chunks.len() - i,
    {
        let c = match rebase_chunk(chunks[i], base) {
            Ok(c) => c,
            Err(e) => {
                assert(!spec_fits(chunks@[i as int], base as int));
                return Err(e);
            },
        };
        let pushed = chunks_push(&mut moved, c);
        assert(pushed);
        assert(chunks@.take(i + 1).map_values(|c: Chunk| c.spec_shifted(base as int))
            =~= chunks@.take(i as int).map_values(|c: Chunk| c.spec_shifted(base as int)).push(c));
        i += 1;
    }
    assert(chunks@.take(i as int) =~= chunks@);
    Ok(moved)
}

} // verus!
