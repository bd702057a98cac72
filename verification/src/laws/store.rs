//! What holds of downloads against a local store: what it holds, what it answers, and what it holds
//! afterwards.
use crate::chunks::chunks;
use crate::download::{starting, DownloadReply, DownloadState};
use crate::download_many::{expanding, DownloadManyState, Outcome, DOWNLOAD_CONCURRENCY};
use crate::laws::download::{
    after_replies, fetched_replies, law_absent_range_is_stored_and_given,
    law_local_range_gives_its_ids, law_local_range_is_never_fetched, lemma_after_replies_split,
};
use crate::laws::download_many::{
    after_batches, comes_to, law_batching_does_not_show,
    law_every_id_comes_from_an_expanded_manifest, law_settled_ends_at_the_first_transient_fault,
};
use crate::manifest::{LoadingError, Manifest};
use crate::record::{ids_of, EncryptedData, HostId, Record, RecordId, HISTORY_TAG};
use vstd::prelude::*;
use vstd::seq_lib::{to_multiset_build, to_multiset_contains, to_multiset_remove};

verus! {

/// Whether `record` is a history record.
pub open spec fn is_history<D>(record: Record<D>) -> bool {
    record.tag@ == HISTORY_TAG@
}

/// Whether `record` stands in the history of `host`.
pub open spec fn in_history<D>(record: Record<D>, host: HostId) -> bool {
    record.host.id == host && is_history(record)
}

/// Whether `record` stands in the history range that `manifest` covers.
pub open spec fn in_range<D>(record: Record<D>, manifest: Manifest) -> bool {
    &&& in_history(record, manifest.record.host.id)
    &&& manifest.range.start_idx <= record.idx <= manifest.range.end_idx
}

/// Whether two records are one and the same, whatever form their payloads have.
pub open spec fn same_identity<D, E>(first: Record<D>, second: Record<E>) -> bool {
    &&& first.id == second.id
    &&& first.idx == second.idx
    &&& first.host == second.host
    &&& first.version@ == second.version@
    &&& first.tag@ == second.tag@
}

/// Whether `store` holds a history record with `id`.
pub open spec fn holds<C>(store: Set<Record<C>>, id: RecordId) -> bool {
    exists|record: Record<C>| #[trigger]
        store.contains(record) && record.id == id && is_history(record)
}

/// Whether `head` is the last history record of `host` in `store`, or `None` where there is none.
pub open spec fn is_head<C>(
    store: Set<Record<C>>,
    host: HostId,
    head: Option<Record<C>>,
) -> bool {
    match head {
        Some(last) => {
            &&& store.contains(last) && in_history(last, host)
            &&& forall|record: Record<C>| #[trigger]
                store.contains(record) && in_history(record, host) ==> record.idx <= last.idx
        },
        None => forall|record: Record<C>| #[trigger]
            store.contains(record) ==> !in_history(record, host),
    }
}

/// Whether `records` are the records of the range of `manifest` in `store`, each once.
pub open spec fn is_range<C>(
    store: Set<Record<C>>,
    manifest: Manifest,
    records: Seq<Record<C>>,
) -> bool {
    &&& records.no_duplicates()
    &&& forall|record: Record<C>| #[trigger]
        records.contains(record) <==> store.contains(record) && in_range(record, manifest)
}

/// What a store and a codec owe, for a sync at whose end the store holds `store`: what the store
/// loads as history it holds as history, what it takes it holds, a packfile unpacks into history
/// records, and a record that is encrypted stays the same record.
pub open spec fn honest<P, C>(
    state: DownloadState<P, C>,
    reply: DownloadReply<P, C>,
    store: Set<Record<C>>,
) -> bool {
    match (state, reply) {
        (DownloadState::LoadLocal { .. }, DownloadReply::Local(Ok(local))) => forall|i: int|
            0 <= i < local.len() ==> store.contains(#[trigger] local[i]) && is_history(local[i]),
        (DownloadState::Unpack { .. }, DownloadReply::Records(Ok(records))) => forall|i: int|
            0 <= i < records.len() ==> is_history(#[trigger] records[i]),
        (
            DownloadState::Encrypt { records, encrypted },
            DownloadReply::Encrypted(record),
        ) => same_identity(records[encrypted.len() as int], record),
        (DownloadState::Push { batch }, DownloadReply::Pushed(Ok(_))) => forall|i: int|
            0 <= i < batch.len() ==> store.contains(#[trigger] batch[i]),
        _ => true,
    }
}

/// Whether the replies are all honest.
pub open spec fn all_honest<P, C>(
    start: DownloadState<P, C>,
    replies: Seq<DownloadReply<P, C>>,
    store: Set<Record<C>>,
) -> bool
    decreases replies.len(),
{
    replies.len() == 0 || {
        &&& all_honest(start, replies.drop_last(), store)
        &&& honest(after_replies(start, replies.drop_last()), replies.last(), store)
    }
}

/// Whether the download of a manifest comes to `outcome`, with honest replies only.
pub open spec fn honestly_comes_to<P, C>(
    loaded: Result<Manifest, LoadingError>,
    replies: Seq<DownloadReply<P, C>>,
    outcome: Outcome,
    store: Set<Record<C>>,
) -> bool {
    comes_to(loaded, replies, outcome) && all_honest(starting(loaded), replies, store)
}

/// Whether `state` carries history records only, and gives only ids of such that `store` holds.
spec fn carries_history<P, C>(state: DownloadState<P, C>, store: Set<Record<C>>) -> bool {
    match state {
        DownloadState::Encrypt { records, encrypted } => {
            &&& encrypted.len() < records.len()
            &&& forall|i: int| 0 <= i < records.len() ==> is_history(#[trigger] records[i])
            &&& forall|i: int| 0 <= i < encrypted.len() ==> is_history(#[trigger] encrypted[i])
        },
        DownloadState::Push { batch } => forall|i: int|
            0 <= i < batch.len() ==> is_history(#[trigger] batch[i]),
        DownloadState::Finished(Ok(ids)) => forall|i: int|
            0 <= i < ids.len() ==> holds(store, #[trigger] ids[i]),
        _ => true,
    }
}

proof fn lemma_ids_are_held<C>(records: Seq<Record<C>>, store: Set<Record<C>>)
    requires
        forall|i: int|
            0 <= i < records.len() ==> store.contains(#[trigger] records[i]) && is_history(
                records[i],
            ),
    ensures
        forall|i: int| 0 <= i < records.len() ==> holds(store, #[trigger] ids_of(records)[i]),
{
    assert forall|i: int| 0 <= i < records.len() implies holds(
        store,
        #[trigger] ids_of(records)[i],
    ) by {
        assert(store.contains(records[i]));
    }
}

proof fn lemma_history_is_carried<P, C>(
    start: DownloadState<P, C>,
    replies: Seq<DownloadReply<P, C>>,
    store: Set<Record<C>>,
)
    requires
        carries_history(start, store),
        all_honest(start, replies, store),
    ensures
        carries_history(after_replies(start, replies), store),
    decreases replies.len(),
{
    if replies.len() > 0 {
        let before = after_replies(start, replies.drop_last());
        let reply = replies.last();
        lemma_history_is_carried(start, replies.drop_last(), store);
        match (before, reply) {
            (DownloadState::LoadLocal { .. }, DownloadReply::Local(Ok(local))) => {
                lemma_ids_are_held(local, store);
            },
            (DownloadState::Push { batch }, DownloadReply::Pushed(Ok(_))) => {
                lemma_ids_are_held(batch, store);
            },
            _ => {},
        }
    }
}

/// A download of one manifest gives only ids of history records that the store holds.
pub proof fn law_given_ids_are_of_stored_history<P, C>(
    loaded: Result<Manifest, LoadingError>,
    replies: Seq<DownloadReply<P, C>>,
    store: Set<Record<C>>,
    ids: Seq<RecordId>,
    id: RecordId,
)
    requires
        honestly_comes_to(loaded, replies, Ok(ids), store),
        ids.contains(id),
    ensures
        holds(store, id),
{
    lemma_history_is_carried(starting(loaded), replies, store);
    let i = choose|i: int| 0 <= i < ids.len() && ids[i] == id;
    let state = after_replies(starting::<P, C>(loaded), replies);
    assert(carries_history(state, store));
    assert(state->Finished_0->Ok_0 == ids);
    assert(holds(store, ids[i]));
}

/// A download of many manifests gives only ids of history records that the store holds: what is
/// returned can be indexed from the store.
pub proof fn law_result_is_stored_history<P, C>(
    manifests: Seq<Record<EncryptedData>>,
    loaded: Seq<Result<Manifest, LoadingError>>,
    replies: Seq<Seq<DownloadReply<P, C>>>,
    outcomes: Seq<Outcome>,
    store: Set<Record<C>>,
    ids: Seq<RecordId>,
    id: RecordId,
)
    requires
        loaded.len() == manifests.len(),
        replies.len() == manifests.len(),
        outcomes.len() == manifests.len(),
        forall|i: int|
            0 <= i < outcomes.len() ==> #[trigger] honestly_comes_to(
                loaded[i],
                replies[i],
                outcomes[i],
                store,
            ),
        after_batches(
            expanding(manifests, Seq::empty()),
            chunks(outcomes, DOWNLOAD_CONCURRENCY as nat),
        ) == DownloadManyState::Finished(Ok(ids)),
        ids.contains(id),
    ensures
        holds(store, id),
{
    law_batching_does_not_show(manifests, outcomes);
    law_settled_ends_at_the_first_transient_fault(outcomes);
    law_every_id_comes_from_an_expanded_manifest(outcomes, id);
    let i = choose|i: int|
        0 <= i < outcomes.len() && #[trigger] outcomes[i] is Ok && outcomes[i]->Ok_0.contains(id);
    assert(honestly_comes_to(loaded[i], replies[i], outcomes[i], store));
    law_given_ids_are_of_stored_history(loaded[i], replies[i], store, outcomes[i]->Ok_0, id);
}

/// No id of a manifest is given, whether the manifest was expanded or skipped, where an id names
/// one record: a manifest is no history record.
pub proof fn law_no_manifest_id_is_given<P, C>(
    manifests: Seq<Record<EncryptedData>>,
    loaded: Seq<Result<Manifest, LoadingError>>,
    replies: Seq<Seq<DownloadReply<P, C>>>,
    outcomes: Seq<Outcome>,
    store: Set<Record<C>>,
    ids: Seq<RecordId>,
    manifest: Record<EncryptedData>,
)
    requires
        loaded.len() == manifests.len(),
        replies.len() == manifests.len(),
        outcomes.len() == manifests.len(),
        forall|i: int|
            0 <= i < outcomes.len() ==> #[trigger] honestly_comes_to(
                loaded[i],
                replies[i],
                outcomes[i],
                store,
            ),
        after_batches(
            expanding(manifests, Seq::empty()),
            chunks(outcomes, DOWNLOAD_CONCURRENCY as nat),
        ) == DownloadManyState::Finished(Ok(ids)),
        !is_history(manifest),
        forall|record: Record<C>| #[trigger]
            store.contains(record) && record.id == manifest.id ==> record.tag@ == manifest.tag@,
    ensures
        !ids.contains(manifest.id),
{
    if ids.contains(manifest.id) {
        law_result_is_stored_history(
            manifests,
            loaded,
            replies,
            outcomes,
            store,
            ids,
            manifest.id,
        );
    }
}

/// Lists of the same records, each once, have the same ids.
proof fn lemma_same_records_same_ids<C>(first: Seq<Record<C>>, second: Seq<Record<C>>)
    requires
        first.no_duplicates(),
        second.no_duplicates(),
        forall|record: Record<C>| #[trigger] first.contains(record) <==> second.contains(record),
    ensures
        ids_of(first).to_multiset() == ids_of(second).to_multiset(),
    decreases first.len(),
{
    if first.len() == 0 {
        if second.len() > 0 {
            assert(second.contains(second[0]));
            assert(first.contains(second[0]));
        }
        assert(ids_of(first) =~= ids_of(second));
    } else {
        let last = first.last();
        assert(first.contains(last));
        let j = choose|j: int| 0 <= j < second.len() && second[j] == last;
        let front = first.drop_last();
        let others = second.remove(j);
        assert forall|record: Record<C>| #[trigger] front.contains(record)
            <==> others.contains(record) by {
            if front.contains(record) {
                let k = choose|k: int| 0 <= k < front.len() && front[k] == record;
                assert(first[k] != first[first.len() - 1]);
                assert(first.contains(first[k]));
                let m = choose|m: int| 0 <= m < second.len() && second[m] == record;
                assert(others[if m < j { m } else { m - 1 }] == record);
            }
            if others.contains(record) {
                let m = choose|m: int| 0 <= m < others.len() && others[m] == record;
                let n = if m < j { m } else { m + 1 };
                assert(second[n] == record && second[n] != second[j]);
                assert(second.contains(second[n]));
                assert(first.contains(record));
                let k = choose|k: int| 0 <= k < first.len() && first[k] == record;
                assert(front[k] == record);
            }
        }
        lemma_same_records_same_ids(front, others);
        assert(ids_of(front).push(last.id) =~= ids_of(first));
        to_multiset_build(ids_of(front), last.id);
        assert(ids_of(second).remove(j) =~= ids_of(others));
        to_multiset_remove(ids_of(second), j);
        assert(ids_of(second)[j] == last.id);
        to_multiset_contains(ids_of(second), last.id);
        assert(ids_of(others).to_multiset().insert(last.id) =~= ids_of(second).to_multiset());
    }
}

/// A second download of a range makes no call to the server and pushes nothing, and gives the ids
/// that the first one gave. The first found no history of the host and stored the history of the
/// range, up to its end; the second meets the store as the first has left it.
pub proof fn law_second_download_is_local<P, C>(
    manifest: Manifest,
    before: Set<Record<C>>,
    blob: Seq<u8>,
    records: Seq<Record<P>>,
    encrypted: Seq<Record<C>>,
    head: Option<Record<C>>,
    local: Seq<Record<C>>,
    replies: Seq<DownloadReply<P, C>>,
)
    requires
        is_head(before, manifest.record.host.id, None),
        encrypted.len() == records.len(),
        encrypted.no_duplicates(),
        forall|i: int| 0 <= i < encrypted.len() ==> in_range(#[trigger] encrypted[i], manifest),
        exists|i: int|
            0 <= i < encrypted.len() && #[trigger] encrypted[i].idx == manifest.range.end_idx,
        is_head(before.union(encrypted.to_set()), manifest.record.host.id, head),
        is_range(before.union(encrypted.to_set()), manifest, local),
    ensures
        ({
            let start = DownloadState::<P, C>::ReadHead { manifest };
            let first = fetched_replies(None, blob, records, encrypted);
            let second = seq![DownloadReply::<P, C>::Head(Ok(head))];
            let later = after_replies(start, second + replies);
            &&& after_replies(start, first.push(DownloadReply::Pushed(Ok(()))))
                == DownloadState::<P, C>::Finished(Ok(ids_of(encrypted)))
            &&& after_replies(start, second.push(DownloadReply::Local(Ok(local))))
                == DownloadState::<P, C>::Finished(Ok(ids_of(local)))
            &&& ids_of(local).to_multiset() == ids_of(encrypted).to_multiset()
            &&& later is LoadLocal || later is Finished
        }),
{
    let store = before.union(encrypted.to_set());
    let host = manifest.record.host.id;
    law_absent_range_is_stored_and_given(manifest, None, blob, records, encrypted);
    let e = choose|i: int|
        0 <= i < encrypted.len() && #[trigger] encrypted[i].idx == manifest.range.end_idx;
    assert(encrypted.contains(encrypted[e]));
    assert(store.contains(encrypted[e]));
    assert(in_range(encrypted[e], manifest));
    let last = head->Some_0;
    assert(seq![DownloadReply::<P, C>::Head(Ok(head))].push(DownloadReply::Local(Ok(local)))
        =~= seq![DownloadReply::<P, C>::Head(Ok(Some(last))), DownloadReply::Local(Ok(local))]);
    law_local_range_gives_its_ids::<P, C>(manifest, last, local);
    law_local_range_is_never_fetched(manifest, last, replies);
    assert forall|record: Record<C>| #[trigger] local.contains(record) <==> encrypted.contains(
        record,
    ) by {
        if encrypted.contains(record) {
            assert(store.contains(record));
        }
        if local.contains(record) {
            assert(store.contains(record));
            assert(before.contains(record) ==> !in_history(record, host));
        }
    }
    lemma_same_records_same_ids(local, encrypted);
}

/// Whether two stores have the same history of `host`. They may differ in records of other hosts
/// and of other tags.
pub open spec fn same_history_of<C>(
    first: Set<Record<C>>,
    second: Set<Record<C>>,
    host: HostId,
) -> bool {
    forall|record: Record<C>|
        #![trigger first.contains(record)]
        #![trigger second.contains(record)]
        in_history(record, host) ==> (first.contains(record) <==> second.contains(record))
}

/// Only the history of the manifest's own host decides a download. On two stores with the same
/// history of that host, whatever other records they hold, the download stands where it stands
/// after the same replies: it fetches on the one exactly when it fetches on the other, ends on both
/// alike, and the local records of its range are the same on both.
pub proof fn law_only_own_history_matters<P, C>(
    manifest: Manifest,
    first: Set<Record<C>>,
    second: Set<Record<C>>,
    first_head: Option<Record<C>>,
    second_head: Option<Record<C>>,
    replies: Seq<DownloadReply<P, C>>,
)
    requires
        same_history_of(first, second, manifest.record.host.id),
        is_head(first, manifest.record.host.id, first_head),
        is_head(second, manifest.record.host.id, second_head),
    ensures
        after_replies(
            DownloadState::<P, C>::ReadHead { manifest },
            seq![DownloadReply::Head(Ok(first_head))] + replies,
        ) == after_replies(
            DownloadState::<P, C>::ReadHead { manifest },
            seq![DownloadReply::Head(Ok(second_head))] + replies,
        ),
        forall|local: Seq<Record<C>>|
            is_range(first, manifest, local) <==> #[trigger] is_range(second, manifest, local),
{
    let start = DownloadState::<P, C>::ReadHead { manifest };
    let one = seq![DownloadReply::<P, C>::Head(Ok(first_head))];
    let other = seq![DownloadReply::<P, C>::Head(Ok(second_head))];
    if let Some(last) = first_head {
        assert(first.contains(last) && second.contains(last));
    }
    if let Some(last) = second_head {
        assert(first.contains(last) && second.contains(last));
    }
    assert(one.drop_last() =~= Seq::empty());
    assert(other.drop_last() =~= Seq::empty());
    reveal_with_fuel(after_replies, 2);
    assert(after_replies(start, one) == after_replies(start, other));
    lemma_after_replies_split(start, one, replies);
    lemma_after_replies_split(start, other, replies);
    assert forall|local: Seq<Record<C>>| is_range(first, manifest, local) <==> #[trigger] is_range(
        second,
        manifest,
        local,
    ) by {
        assert(forall|record: Record<C>|
            #![trigger local.contains(record)]
            #![trigger first.contains(record)]
            first.contains(record) && in_range(record, manifest) <==> second.contains(record)
                && in_range(record, manifest));
    }
}

/// A download of a range that is local gives the same ids on two stores with the same history of
/// the manifest's host, in whatever order each loads them. All of them are ids of history records
/// of that host, in the range.
pub proof fn law_local_ids_are_of_own_history<C>(
    manifest: Manifest,
    first: Set<Record<C>>,
    second: Set<Record<C>>,
    first_local: Seq<Record<C>>,
    second_local: Seq<Record<C>>,
)
    requires
        same_history_of(first, second, manifest.record.host.id),
        is_range(first, manifest, first_local),
        is_range(second, manifest, second_local),
    ensures
        ids_of(first_local).to_multiset() == ids_of(second_local).to_multiset(),
        forall|i: int|
            0 <= i < first_local.len() ==> {
                &&& #[trigger] ids_of(first_local)[i] == first_local[i].id
                &&& first.contains(first_local[i])
                &&& in_range(first_local[i], manifest)
            },
{
    assert forall|record: Record<C>| #[trigger] first_local.contains(record)
        <==> second_local.contains(record) by {
        assert(first.contains(record) && in_range(record, manifest) <==> second.contains(record)
            && in_range(record, manifest));
    }
    lemma_same_records_same_ids(first_local, second_local);
    assert forall|i: int| 0 <= i < first_local.len() implies {
        &&& #[trigger] ids_of(first_local)[i] == first_local[i].id
        &&& first.contains(first_local[i])
        &&& in_range(first_local[i], manifest)
    } by {
        assert(first_local.contains(first_local[i]));
    }
}

} // verus!
