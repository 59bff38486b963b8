//! What holds of every scan.

use vstd::prelude::*;
use crate::chunk::{
    Chunk,
    spec_chunk_at,
    spec_next_at,
    spec_padding,
    spec_scan,
    spec_size_at,
    spec_tag_at,
};

verus! {

/// `offset` rounded up to the nearest even number.
pub open spec fn spec_round_up_even(offset: int) -> int {
    offset + offset % 2
}

/// Where the header of the chunk `c` stands.
pub open spec fn spec_header_of(c: Chunk) -> int {
    c.start - 8
}

/// The chunk `c` is the one whose header stands in `s` eight bytes before its
/// content: it carries that header's tag, and its content is as long as that
/// header declares.
pub open spec fn spec_describes(s: Seq<u8>, c: Chunk) -> bool {
    &&& 0 <= spec_header_of(c)
    &&& spec_header_of(c) + 8 <= s.len()
    &&& c.id == spec_tag_at(s, spec_header_of(c))
    &&& c.start <= c.end
    &&& c.end - c.start == spec_size_at(s, spec_header_of(c))
}

/// Every chunk of a scan has the tag and the size that its header declares,
/// so `end - start` is the declared size. The first header stands where the
/// scan began, and each next header stands where the content before it ends,
/// one byte later if that content's size is odd. A scan reports no more chunks
/// than it has room for.
pub proof fn lemma_scan_layout(s: Seq<u8>, at: int, room: int)
    requires
        0 <= at,
        0 <= room,
    ensures
        spec_scan(s, at, room) matches Ok(chunks) ==> {
            &&& chunks.len() <= room
            &&& chunks.len() > 0 ==> spec_header_of(chunks[0]) == at
            &&& chunks.len() == 0 <==> at >= s.len()
            &&& forall|i: int|
                0 <= i < chunks.len() ==> spec_describes(s, #[trigger] chunks[i])
            &&& forall|i: int|
                0 <= i < chunks.len() - 1 ==> spec_header_of(#[trigger] chunks[i + 1])
                    == chunks[i].end + spec_padding(chunks[i].spec_len() as nat)
        },
    decreases
        if at < s.len() {
            s.len() - at
        } else {
            0
        },
{
    if at < s.len() && at + 8 <= s.len() && spec_next_at(s, at) <= usize::MAX && room > 0 {
        let next = spec_next_at(s, at);
        lemma_scan_layout(s, next, room - 1);
        if let Ok(rest) = spec_scan(s, next, room - 1) {
            let first = spec_chunk_at(s, at);
            let chunks = seq![first] + rest;
            assert(spec_scan(s, at, room) == Ok::<Seq<Chunk>, crate::error::Error>(chunks));
            assert(chunks[0] == first);
            assert(spec_describes(s, first));
            assert forall|i: int| 0 <= i < chunks.len() implies spec_describes(
                s,
                #[trigger] chunks[i],
            ) by {
                if i > 0 {
                    assert(chunks[i] == rest[i - 1]);
                }
            }
            assert forall|i: int| 0 <= i < chunks.len() - 1 implies spec_header_of(
                #[trigger] chunks[i + 1],
            ) == chunks[i].end + spec_padding(chunks[i].spec_len() as nat) by {
                assert(chunks[i + 1] == rest[i]);
                if i > 0 {
                    assert(chunks[i] == rest[i - 1]);
                    assert(rest[i - 1 + 1] == rest[i]);
                } else {
                    assert(spec_header_of(rest[0]) == next);
                }
            }
        }
    }
}

/// In a scan that began at an even offset, each next header stands at the end
/// of the content before it, rounded up to the nearest even offset.
pub proof fn lemma_scan_even(s: Seq<u8>, at: int, room: int)
    requires
        0 <= at,
        0 <= room,
        at % 2 == 0,
    ensures
        spec_scan(s, at, room) matches Ok(chunks) ==> {
            &&& forall|i: int|
                0 <= i < chunks.len() ==> spec_header_of(#[trigger] chunks[i]) % 2 == 0
            &&& forall|i: int|
                0 <= i < chunks.len() - 1 ==> spec_header_of(#[trigger] chunks[i + 1])
                    == spec_round_up_even(chunks[i].end as int)
        },
    decreases
        if at < s.len() {
            s.len() - at
        } else {
            0
        },
{
    lemma_scan_layout(s, at, room);
    if at < s.len() && at + 8 <= s.len() && spec_next_at(s, at) <= usize::MAX && room > 0 {
        let next = spec_next_at(s, at);
        lemma_scan_even(s, next, room - 1);
        lemma_scan_layout(s, next, room - 1);
        if let Ok(rest) = spec_scan(s, next, room - 1) {
            let first = spec_chunk_at(s, at);
            let chunks = seq![first] + rest;
            assert(chunks[0] == first);
            assert forall|i: int| 0 <= i < chunks.len() implies spec_header_of(
                #[trigger] chunks[i],
            ) % 2 == 0 by {
                if i > 0 {
                    assert(chunks[i] == rest[i - 1]);
                }
            }
            assert forall|i: int| 0 <= i < chunks.len() - 1 implies spec_header_of(
                #[trigger] chunks[i + 1],
            ) == spec_round_up_even(chunks[i].end as int) by {
                assert(chunks[i + 1] == rest[i]);
                if i > 0 {
                    assert(chunks[i] == rest[i - 1]);
                    assert(rest[i - 1 + 1] == rest[i]);
                } else {
                    assert(spec_header_of(rest[0]) == next);
                }
            }
        }
    }
}

} // verus!
