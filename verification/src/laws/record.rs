//! What holds of lists of records.
use crate::record::{ids_of, list_of, Record, HISTORY_TAG};
use vstd::prelude::*;

verus! {

/// The ids of records are their own ids: one for each record, in the order of the records.
pub proof fn law_ids_are_the_records_own<D>(records: Seq<Record<D>>)
    ensures
        ids_of(records).len() == records.len(),
        forall|i: int| 0 <= i < records.len() ==> #[trigger] ids_of(records)[i] == records[i].id,
{
}

/// The ids of two lists one behind the other are the ids of the one and then of the other.
pub proof fn law_ids_follow_the_records<D>(first: Seq<Record<D>>, second: Seq<Record<D>>)
    ensures
        ids_of(first + second) == ids_of(first) + ids_of(second),
{
    assert(ids_of(first + second) =~= ids_of(first) + ids_of(second));
}

/// A list that came stands for its items, all and in order; one that did not come for its error.
pub proof fn law_list_stands_for_its_items<T, E>(items: Vec<T>, error: E)
    ensures
        list_of(Ok::<Vec<T>, E>(items)) == Ok::<Seq<T>, E>(items@),
        list_of(Err::<Vec<T>, E>(error)) == Err::<Seq<T>, E>(error),
{
}

/// History stands under the tag `history`.
pub proof fn law_history_tag()
    ensures
        HISTORY_TAG@ == seq!['h', 'i', 's', 't', 'o', 'r', 'y'],
{
    reveal_strlit("history");
    assert(HISTORY_TAG@ =~= seq!['h', 'i', 's', 't', 'o', 'r', 'y']);
}

} // verus!
