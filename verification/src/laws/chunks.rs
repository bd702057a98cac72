//! What holds of lists that are cut into chunks.
use crate::chunks::{chunk_len, chunks};
use vstd::prelude::*;

verus! {

/// No chunk is empty and none is over `size`; all but the last hold `size` items.
pub proof fn law_chunks_are_bounded<T>(items: Seq<T>, size: nat, k: int)
    requires
        size > 0,
        0 <= k < chunks(items, size).len(),
    ensures
        0 < chunks(items, size)[k].len() <= size,
        k < chunks(items, size).len() - 1 ==> chunks(items, size)[k].len() == size,
    decreases items.len(),
{
    let len = chunk_len(items.len(), size) as int;
    let rest = items.skip(len);
    if k > 0 {
        assert(chunks(items, size)[k] == chunks(rest, size)[k - 1]);
        law_chunks_are_bounded(rest, size, k - 1);
    } else if chunks(items, size).len() > 1 {
        assert(chunks(rest, size).len() > 0);
    }
}

/// The chunks hold every item once, in order.
pub proof fn law_chunks_hold_every_item_once<T>(items: Seq<T>, size: nat)
    requires
        size > 0,
    ensures
        chunks(items, size).flatten() == items,
    decreases items.len(),
{
    if items.len() > 0 {
        let len = chunk_len(items.len(), size) as int;
        let rest = items.skip(len);
        law_chunks_hold_every_item_once(rest, size);
        assert(chunks(items, size).drop_first() =~= chunks(rest, size));
        assert(items.take(len) + rest =~= items);
    }
}

/// A list that fits into one chunk is one chunk; of a longer one the first chunk is full.
pub proof fn law_first_chunk_is_as_long_as_can_be(len: nat, size: nat)
    ensures
        len <= size ==> chunk_len(len, size) == len,
        len >= size ==> chunk_len(len, size) == size,
{
}

} // verus!
