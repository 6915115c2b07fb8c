//! How a buffer is cut into consecutive pieces of a fixed maximum size, as
//! chunked bulk writes and DFU downloads do.
use vstd::prelude::*;

verus! {

/// Length of the piece that starts at `offset` of a `total`-byte buffer.
pub open spec fn block_len(total: nat, offset: nat, size: nat) -> nat {
    if total - offset < size { (total - offset) as nat } else { size }
}

/// The end offsets of the pieces of a `total`-byte buffer cut into pieces
/// of `size` bytes, from `offset` on. A DFU download reports exactly these
/// as its progress.
pub open spec fn chunk_ends(total: nat, offset: nat, size: nat) -> Seq<nat>
    decreases total - offset,
{
    if offset >= total || size == 0 {
        seq![]
    } else {
        let next = offset + block_len(total, offset, size);
        seq![next].add(chunk_ends(total, next, size))
    }
}

/// The pieces rise strictly, none is longer than `size`, and the last ends
/// at `total`: the byte counts that a download reports rise once per block
/// up to the image length.
pub proof fn chunk_ends_rise_to_total(total: nat, offset: nat, size: nat)
    requires
        size > 0,
        offset < total,
    ensures
        ({
            let p = chunk_ends(total, offset, size);
            &&& p.len() > 0
            &&& p.last() == total
            &&& offset < p[0] <= offset + size
            &&& forall|i: int| 0 <= i < p.len() - 1 ==> #[trigger] p[i] < p[i + 1] && p[i + 1] <= p[i] + size
        }),
    decreases total - offset,
{
    let next = offset + block_len(total, offset, size);
    let p = chunk_ends(total, offset, size);
    let rest = chunk_ends(total, next, size);
    assert(p == seq![next].add(rest));
    if next < total {
        chunk_ends_rise_to_total(total, next, size);
        assert forall|i: int| 0 <= i < p.len() - 1 implies #[trigger] p[i] < p[i + 1] && p[i + 1] <= p[i] + size by {
            if i == 0 {
                assert(p[1] == rest[0]);
            } else {
                assert(p[i] == rest[i - 1]);
                assert(p[i + 1] == rest[i]);
            }
        }
    } else {
        assert(rest.len() == 0);
    }
}

/// Where the piece that starts at `offset` of a `total`-byte buffer ends,
/// pieces being `size` bytes long but for a shorter last one.
pub fn block_end(total: usize, offset: usize, size: usize) -> (r: usize)
    requires
        offset < total,
        size > 0,
    ensures
        r == offset + block_len(total as nat, offset as nat, size as nat),
        offset < r <= total,
{
    if total - offset < size {
        total
    } else {
        offset + size
    }
}

} // verus!
