//! The read-ahead buffer hands out the device's bytes unchanged.
//!
//! The model below serves reads from the bytes that are buffered and, when
//! they run out, from the next whole block of the device. The buffered
//! session's `read_exact` and `refill` perform one such read between them.

use vstd::prelude::*;
use crate::audio::spec_min;

verus! {

/// The state of a buffered reader after some reads.
pub struct Served {
    /// The bytes handed out, in order.
    pub out: Seq<u8>,
    /// The bytes fetched from the device and not handed out yet.
    pub pending: Seq<u8>,
    /// What the device still holds.
    pub device: Seq<u8>,
    /// How many blocks were fetched from the device.
    pub refills: nat,
}

/// One read of `n` bytes: from the buffered bytes alone if they suffice, else
/// from them and the front of the next block of `cap` bytes.
pub open spec fn spec_serve(pending: Seq<u8>, device: Seq<u8>, cap: nat, n: nat) -> Served {
    if n <= pending.len() {
        Served { out: pending.take(n as int), pending: pending.skip(n as int), device, refills: 0 }
    } else {
        let block = device.take(cap as int);
        let need = n - pending.len();
        Served {
            out: pending + block.take(need),
            pending: block.skip(need),
            device: device.skip(cap as int),
            refills: 1,
        }
    }
}

/// Whether the device has a whole block for the read of `n` bytes, should
/// that read need one.
pub open spec fn spec_whole(pending: Seq<u8>, device: Seq<u8>, cap: nat, n: nat) -> bool {
    n <= pending.len() || cap <= device.len()
}

/// The reads of `sizes` bytes, one after the other.
pub open spec fn spec_serve_all(pending: Seq<u8>, device: Seq<u8>, cap: nat, sizes: Seq<nat>) -> Served
    decreases sizes.len(),
{
    if sizes.len() == 0 {
        Served { out: Seq::empty(), pending, device, refills: 0 }
    } else {
        let first = spec_serve(pending, device, cap, sizes[0]);
        let rest = spec_serve_all(first.pending, first.device, cap, sizes.drop_first());
        Served {
            out: first.out + rest.out,
            pending: rest.pending,
            device: rest.device,
            refills: first.refills + rest.refills,
        }
    }
}

/// Whether the device has a whole block for each of the reads that need one.
pub open spec fn spec_all_whole(pending: Seq<u8>, device: Seq<u8>, cap: nat, sizes: Seq<nat>) -> bool
    decreases sizes.len(),
{
    if sizes.len() == 0 {
        true
    } else {
        let first = spec_serve(pending, device, cap, sizes[0]);
        spec_whole(pending, device, cap, sizes[0]) && spec_all_whole(
            first.pending,
            first.device,
            cap,
            sizes.drop_first(),
        )
    }
}

/// The sum of `sizes`.
pub open spec fn spec_total(sizes: Seq<nat>) -> nat
    decreases sizes.len(),
{
    if sizes.len() == 0 {
        0
    } else {
        sizes[0] + spec_total(sizes.drop_first())
    }
}

/// One read hands out the next `n` bytes of what is buffered followed by what
/// the device holds, and leaves the rest to come, in order. It fetches a
/// block exactly when the buffered bytes do not suffice.
pub proof fn lemma_serve_transparent(pending: Seq<u8>, device: Seq<u8>, cap: nat, n: nat)
    requires
        pending.len() <= cap,
        n <= cap,
        spec_whole(pending, device, cap, n),
    ensures
        ({
            let served = spec_serve(pending, device, cap, n);
            &&& n <= pending.len() + device.len()
            &&& served.out == (pending + device).take(n as int)
            &&& served.out.len() == n
            &&& served.pending + served.device == (pending + device).skip(n as int)
            &&& served.pending.len() <= cap
            &&& served.refills == if n > pending.len() {
                1nat
            } else {
                0nat
            }
        }),
{
    let served = spec_serve(pending, device, cap, n);
    assert(served.out =~= (pending + device).take(n as int));
    assert(served.pending + served.device =~= (pending + device).skip(n as int));
}

/// Reads of any sizes up to the buffer's capacity hand out, put together in
/// order, exactly the bytes that one read of their total length would have
/// handed out with no buffer in between; and when they ask for more than was
/// buffered, at least one block was fetched from the device.
pub proof fn lemma_serve_all_transparent(
    pending: Seq<u8>,
    device: Seq<u8>,
    cap: nat,
    sizes: Seq<nat>,
)
    requires
        pending.len() <= cap,
        forall|i: int| 0 <= i < sizes.len() ==> #[trigger] sizes[i] <= cap,
        spec_all_whole(pending, device, cap, sizes),
    ensures
        ({
            let served = spec_serve_all(pending, device, cap, sizes);
            let total = spec_total(sizes);
            &&& total <= pending.len() + device.len()
            &&& served.out == (pending + device).take(total as int)
            &&& served.out.len() == total
            &&& served.pending + served.device == (pending + device).skip(total as int)
            &&& served.pending.len() <= cap
            &&& total > pending.len() ==> served.refills >= 1
            &&& total > cap ==> served.refills >= 1
        }),
    decreases sizes.len(),
{
    if sizes.len() == 0 {
        assert((pending + device).take(0) =~= Seq::<u8>::empty());
        assert((pending + device).skip(0) =~= pending + device);
    } else {
        let n = sizes[0];
        let tail = sizes.drop_first();
        let first = spec_serve(pending, device, cap, n);
        lemma_serve_transparent(pending, device, cap, n);
        assert forall|i: int| 0 <= i < tail.len() implies #[trigger] tail[i] <= cap by {
            assert(tail[i] == sizes[i + 1]);
        }
        lemma_serve_all_transparent(first.pending, first.device, cap, tail);
        let rest = spec_serve_all(first.pending, first.device, cap, tail);
        let all = pending + device;
        let later = spec_total(tail);
        let middle = first.pending + first.device;
        assert(middle == all.skip(n as int));
        assert(middle.len() == all.len() - n);
        assert(rest.out == middle.take(later as int));
        assert(first.out + rest.out =~= all.take((n + later) as int));
        assert(rest.pending + rest.device == middle.skip(later as int));
        assert(middle.skip(later as int) =~= all.skip((n + later) as int));
    }
}

/// What `read_exact` and, where the buffered bytes do not suffice, `refill`
/// put into a caller's buffer `buf` is what the model's read of `buf.len()`
/// bytes hands out, and what they leave buffered is what the model leaves
/// buffered. `block` is the block that the device gave.
pub proof fn lemma_read_exact_serves(pending: Seq<u8>, block: Seq<u8>, buf: Seq<u8>)
    requires
        buf.len() <= block.len(),
        pending.len() <= block.len(),
    ensures
        ({
            let cap = block.len();
            let n = buf.len();
            let copied = spec_min(pending.len() as int, n as int);
            let after_read = pending.take(copied) + buf.skip(copied);
            let served = spec_serve(pending, block, cap, n);
            if copied == n {
                &&& after_read == served.out
                &&& pending.skip(copied) == served.pending
                &&& served.refills == 0
            } else {
                &&& after_read.take(copied) + block.take(n - copied) == served.out
                &&& block.skip(n - copied) == served.pending
                &&& served.refills == 1
            }
        }),
{
    let cap = block.len();
    let n = buf.len();
    let copied = spec_min(pending.len() as int, n as int);
    let after_read = pending.take(copied) + buf.skip(copied);
    let served = spec_serve(pending, block, cap, n);
    if copied == n {
        assert(after_read =~= served.out);
    } else {
        assert(block.take(cap as int) =~= block);
        assert(after_read.take(copied) =~= pending);
    }
}

} // verus!
