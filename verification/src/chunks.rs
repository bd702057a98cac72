//! Cutting a list into bounded batches.
use vstd::prelude::*;
use vstd::slice::slice_subrange;

verus! {

/// The length of the first chunk of a list of `len` items cut into chunks of `size`.
pub open spec fn chunk_len(len: nat, size: nat) -> nat {
    if len < size {
        len
    } else {
        size
    }
}

/// `items` cut into chunks of `size`; the last one holds what is left.
pub open spec fn chunks<T>(items: Seq<T>, size: nat) -> Seq<Seq<T>>
    decreases items.len(),
{
    if items.len() == 0 || size == 0 {
        Seq::empty()
    } else {
        let len = chunk_len(items.len(), size) as int;
        seq![items.take(len)] + chunks(items.skip(len), size)
    }
}

/// The first chunk of `items` and the items behind it.
pub fn split_chunk<T>(items: &[T], size: usize) -> (parts: (&[T], &[T]))
    ensures
        ({
            let len = chunk_len(items@.len(), size as nat) as int;
            parts.0@ == items@.take(len) && parts.1@ == items@.skip(len)
        }),
{
    let len: usize = if items.len() < size {
        items.len()
    } else {
        size
    };
    (slice_subrange(items, 0, len), slice_subrange(items, len, items.len()))
}

} // verus!
