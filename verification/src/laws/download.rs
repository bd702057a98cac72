//! What holds of the download of one manifest.
use crate::download::{
    after_reply, encrypting, starting, DownloadReply, DownloadState, DownloadStep,
};
use crate::error::{DownloadError, UnpackError};
use crate::manifest::{read_as, LoadingError, Manifest, PackManifestDataV1};
use crate::record::{ids_of, EncryptedData, Record, RecordId};
use vstd::prelude::*;

verus! {

/// The state after all of `replies`, in order.
pub open spec fn after_replies<P, C>(
    state: DownloadState<P, C>,
    replies: Seq<DownloadReply<P, C>>,
) -> DownloadState<P, C>
    decreases replies.len(),
{
    if replies.len() == 0 {
        state
    } else {
        after_reply(after_replies(state, replies.drop_last()), replies.last())
    }
}

/// The replies with which `records` come back encrypted, one by one.
pub open spec fn encrypted_replies<P, C>(records: Seq<Record<C>>) -> Seq<DownloadReply<P, C>> {
    records.map_values(|record: Record<C>| DownloadReply::Encrypted(record))
}

/// Whether `reply` answers the request of `state`.
pub open spec fn answers<P, C>(state: DownloadState<P, C>, reply: DownloadReply<P, C>) -> bool {
    match state {
        DownloadState::ReadHead { .. } => reply is Head,
        DownloadState::LoadLocal { .. } => reply is Local,
        DownloadState::Fetch { .. } => reply is Blob,
        DownloadState::Unpack { .. } => reply is Records,
        DownloadState::Encrypt { .. } => reply is Encrypted,
        DownloadState::Push { .. } => reply is Pushed,
        DownloadState::Finished(_) => false,
    }
}

/// How far a download has come.
pub open spec fn stage<P, C>(state: DownloadState<P, C>) -> nat {
    match state {
        DownloadState::ReadHead { .. } => 0,
        DownloadState::LoadLocal { .. } => 1,
        DownloadState::Fetch { .. } => 1,
        DownloadState::Unpack { .. } => 2,
        DownloadState::Encrypt { .. } => 3,
        DownloadState::Push { .. } => 4,
        DownloadState::Finished(_) => 5,
    }
}

/// A range that is local already is never fetched: once the head of the local history is at or
/// behind the end of the range, the only request is for the local records, whatever is replied.
pub proof fn law_local_range_is_never_fetched<P, C>(
    manifest: Manifest,
    head: Record<C>,
    replies: Seq<DownloadReply<P, C>>,
)
    requires
        head.idx >= manifest.range.end_idx,
    ensures
        ({
            let state = after_replies(
                DownloadState::ReadHead { manifest },
                seq![DownloadReply::<P, C>::Head(Ok(Some(head)))] + replies,
            );
            state == (DownloadState::<P, C>::LoadLocal { manifest }) || state is Finished
        }),
    decreases replies.len(),
{
    let all = seq![DownloadReply::<P, C>::Head(Ok(Some(head)))] + replies;
    if replies.len() == 0 {
        assert(all.drop_last() =~= Seq::empty());
        reveal_with_fuel(after_replies, 2);
    } else {
        law_local_range_is_never_fetched(manifest, head, replies.drop_last());
        assert(all.drop_last() =~= seq![DownloadReply::<P, C>::Head(Ok(Some(head)))]
            + replies.drop_last());
    }
}

/// A download of a range that is local already gives the ids of the local records, in order, as a
/// download that stores them does.
pub proof fn law_local_range_gives_its_ids<P, C>(
    manifest: Manifest,
    head: Record<C>,
    local: Seq<Record<C>>,
)
    requires
        head.idx >= manifest.range.end_idx,
    ensures
        after_replies(
            DownloadState::ReadHead { manifest },
            seq![DownloadReply::<P, C>::Head(Ok(Some(head))), DownloadReply::Local(Ok(local))],
        ) == DownloadState::<P, C>::Finished(Ok(ids_of(local))),
{
    let replies = seq![
        DownloadReply::<P, C>::Head(Ok(Some(head))),
        DownloadReply::Local(Ok(local)),
    ];
    assert(replies.drop_last() =~= seq![DownloadReply::<P, C>::Head(Ok(Some(head)))]);
    assert(replies.drop_last().drop_last() =~= Seq::empty());
    reveal_with_fuel(after_replies, 3);
}

/// Replies that follow each other can be taken in two parts.
pub proof fn lemma_after_replies_split<P, C>(
    state: DownloadState<P, C>,
    first: Seq<DownloadReply<P, C>>,
    second: Seq<DownloadReply<P, C>>,
)
    ensures
        after_replies(state, first + second) == after_replies(after_replies(state, first), second),
    decreases second.len(),
{
    if second.len() == 0 {
        assert(first + second =~= first);
    } else {
        lemma_after_replies_split(state, first, second.drop_last());
        assert((first + second).drop_last() =~= first + second.drop_last());
    }
}

/// Every record that a packfile holds is encrypted once, in order: after `encrypted`, the next
/// one up is the record at the same position, and when all are done exactly they are pushed.
pub proof fn law_records_are_encrypted_in_order<P, C>(
    records: Seq<Record<P>>,
    encrypted: Seq<Record<C>>,
)
    requires
        encrypted.len() <= records.len(),
    ensures
        after_replies(
            encrypting(records, Seq::empty()),
            encrypted_replies(encrypted),
        ) == encrypting(records, encrypted),
    decreases encrypted.len(),
{
    let replies = encrypted_replies::<P, C>(encrypted);
    if encrypted.len() == 0 {
        assert(encrypted =~= Seq::empty());
    } else {
        law_records_are_encrypted_in_order(records, encrypted.drop_last());
        assert(replies.drop_last() =~= encrypted_replies(encrypted.drop_last()));
        assert(encrypted.drop_last().push(encrypted.last()) =~= encrypted);
    }
}

/// The replies with which a packfile comes, unpacks into `records` and is encrypted as `encrypted`.
pub open spec fn fetched_replies<P, C>(
    head: Option<Record<C>>,
    blob: Seq<u8>,
    records: Seq<Record<P>>,
    encrypted: Seq<Record<C>>,
) -> Seq<DownloadReply<P, C>> {
    seq![
        DownloadReply::<P, C>::Head(Ok(head)),
        DownloadReply::Blob(Ok(blob)),
        DownloadReply::Records(Ok(records)),
    ] + encrypted_replies(encrypted)
}

/// A range that is not local is fetched, unpacked, encrypted and pushed, record for record; once
/// the store has taken the records, the download gives their ids, in order.
pub proof fn law_absent_range_is_stored_and_given<P, C>(
    manifest: Manifest,
    head: Option<Record<C>>,
    blob: Seq<u8>,
    records: Seq<Record<P>>,
    encrypted: Seq<Record<C>>,
)
    requires
        head matches Some(record) ==> record.idx < manifest.range.end_idx,
        encrypted.len() == records.len(),
    ensures
        ({
            let start = DownloadState::<P, C>::ReadHead { manifest };
            let replies = fetched_replies(head, blob, records, encrypted);
            &&& after_replies(start, replies.take(1)) == (DownloadState::<P, C>::Fetch { manifest })
            &&& after_replies(start, replies.take(2)) == (DownloadState::<P, C>::Unpack {
                manifest,
                blob,
            })
            &&& after_replies(start, replies) == (DownloadState::<P, C>::Push { batch: encrypted })
            &&& after_replies(
                start,
                replies.push(DownloadReply::Pushed(Ok(()))),
            ) == DownloadState::<P, C>::Finished(Ok(ids_of(encrypted)))
        }),
{
    let unpacked = seq![
        DownloadReply::<P, C>::Head(Ok(head)),
        DownloadReply::Blob(Ok(blob)),
        DownloadReply::Records(Ok(records)),
    ];
    let start = DownloadState::<P, C>::ReadHead { manifest };
    let replies = fetched_replies(head, blob, records, encrypted);
    assert(unpacked.take(1).drop_last() =~= Seq::empty());
    assert(unpacked.take(2).drop_last() =~= unpacked.take(1));
    assert(unpacked.drop_last() =~= unpacked.take(2));
    assert(replies.take(1) =~= unpacked.take(1));
    assert(replies.take(2) =~= unpacked.take(2));
    reveal_with_fuel(after_replies, 2);
    assert(after_replies(start, unpacked.take(1)) == (DownloadState::<P, C>::Fetch { manifest }));
    assert(after_replies(start, unpacked) == encrypting::<P, C>(records, Seq::empty()));
    lemma_after_replies_split(start, unpacked, encrypted_replies(encrypted));
    law_records_are_encrypted_in_order(records, encrypted);
    assert(replies.push(DownloadReply::Pushed(Ok(()))).drop_last() =~= replies);
}

/// A download that has ended had a last request: the one whose reply ended it.
proof fn lemma_some_reply_ends_it<P, C>(
    start: DownloadState<P, C>,
    replies: Seq<DownloadReply<P, C>>,
)
    requires
        !(start is Finished),
        after_replies(start, replies) is Finished,
    ensures
        exists|i: int| #[trigger] ended_by(start, replies, i),
    decreases replies.len(),
{
    let front = replies.drop_last();
    let last = replies.len() - 1;
    assert(front =~= replies.take(last));
    if after_replies(start, front) is Finished {
        lemma_some_reply_ends_it(start, front);
        let i = choose|i: int| #[trigger] ended_by(start, front, i);
        assert(front.take(i) =~= replies.take(i));
        assert(ended_by(start, replies, i));
    } else {
        assert(ended_by(start, replies, last));
    }
}

/// Whether the reply at `i` is the one that ended the download, as `replies` as a whole did.
pub open spec fn ended_by<P, C>(
    start: DownloadState<P, C>,
    replies: Seq<DownloadReply<P, C>>,
    i: int,
) -> bool {
    let before = after_replies(start, replies.take(i));
    &&& 0 <= i < replies.len()
    &&& !(before is Finished)
    &&& after_reply(before, replies[i]) == after_replies(start, replies)
}

/// Whether `ids` are those of records that the local store holds: `reply` has just loaded them
/// from the store, or has just confirmed that the store took them.
pub open spec fn stored_by<P, C>(
    state: DownloadState<P, C>,
    reply: DownloadReply<P, C>,
    ids: Seq<RecordId>,
) -> bool {
    ||| state is LoadLocal && (reply matches DownloadReply::Local(Ok(local)) && ids == ids_of(
        local,
    ))
    ||| (reply matches DownloadReply::Pushed(Ok(_)) && state matches DownloadState::Push { batch }
        && ids == ids_of(batch))
}

/// Only ids of records that the local store holds are given: a download that ends well ends with
/// the ids of records that were just loaded from the store, or that the store has just taken.
pub proof fn law_only_stored_ids_are_given<P, C>(
    manifest: Manifest,
    replies: Seq<DownloadReply<P, C>>,
    ids: Seq<RecordId>,
)
    requires
        after_replies(DownloadState::ReadHead { manifest }, replies)
            == DownloadState::<P, C>::Finished(Ok(ids)),
    ensures
        exists|i: int|
            0 <= i < replies.len() && #[trigger] stored_by(
                after_replies(DownloadState::ReadHead { manifest }, replies.take(i)),
                replies[i],
                ids,
            ),
{
    let start = DownloadState::<P, C>::ReadHead { manifest };
    lemma_some_reply_ends_it(start, replies);
    let i = choose|i: int| #[trigger] ended_by(start, replies, i);
    assert(stored_by(after_replies(start, replies.take(i)), replies[i], ids));
}

/// The fault of a download is permanent exactly where its manifest could not be read or its
/// packfile arrived and could not be unpacked, whatever was replied on the way.
pub proof fn law_permanent_faults_are_the_manifests_own<P, C>(
    loaded: Result<Manifest, LoadingError>,
    replies: Seq<DownloadReply<P, C>>,
    error: DownloadError,
)
    requires
        after_replies(starting(loaded), replies) == DownloadState::<P, C>::Finished(Err(error)),
    ensures
        error.permanent() <==> loaded is Err || exists|i: int| #[trigger]
            ended_by(starting(loaded), replies, i) && replies[i] is Records,
{
    if loaded is Err {
        law_finished_download_is_final(starting(loaded), replies);
    } else {
        lemma_some_reply_ends_it(starting(loaded), replies);
        assert forall|i: int| #[trigger] ended_by(starting(loaded), replies, i) implies (
        replies[i] is Records <==> error.permanent()) by {
            law_only_unpacking_faults_are_permanent(
                after_replies(starting(loaded), replies.take(i)),
                replies[i],
                error,
            );
        }
    }
}

/// A fault in a download that has started is permanent exactly where the packfile arrived and
/// could not be unpacked. A fault of the transport or of the store is transient.
pub proof fn law_only_unpacking_faults_are_permanent<P, C>(
    state: DownloadState<P, C>,
    reply: DownloadReply<P, C>,
    error: DownloadError,
)
    requires
        !(state is Finished),
        after_reply(state, reply) == DownloadState::<P, C>::Finished(Err(error)),
    ensures
        error.permanent() <==> state is Unpack,
        state is Fetch <==> error is Api,
        (state is ReadHead || state is LoadLocal || state is Push) <==> error is Store,
{
}

/// Every answer brings a download further. So a download makes each request at most once, but for
/// the encryption, which it asks for once for each record.
pub proof fn law_every_answer_advances<P, C>(state: DownloadState<P, C>, reply: DownloadReply<P, C>)
    requires
        answers(state, reply),
    ensures
        match (state, after_reply(state, reply)) {
            (
                DownloadState::Encrypt { records, encrypted },
                DownloadState::Encrypt { records: same, encrypted: more },
            ) => same == records && more.len() == encrypted.len() + 1 && encrypted.is_prefix_of(
                more,
            ),
            (before, after) => stage(before) < stage(after),
        },
{
}

/// A download that is over stays as it ended.
pub proof fn law_finished_download_is_final<P, C>(
    state: DownloadState<P, C>,
    replies: Seq<DownloadReply<P, C>>,
)
    requires
        state is Finished,
    ensures
        after_replies(state, replies) == state,
    decreases replies.len(),
{
    if replies.len() > 0 {
        law_finished_download_is_final(state, replies.drop_last());
    }
}

/// A manifest that cannot be read makes no request and is skipped: its download is over before it
/// starts, with a permanent fault.
pub proof fn law_unreadable_manifest_makes_no_request<P, C>(
    error: LoadingError,
    replies: Seq<DownloadReply<P, C>>,
)
    ensures
        after_replies(starting(Err(error)), replies) == DownloadState::<P, C>::Finished(
            Err(DownloadError::PackManifest(error)),
        ),
        DownloadError::PackManifest(error).permanent(),
{
    law_finished_download_is_final(starting(Err(error)), replies);
}

/// A manifest with an inverted range cannot be read, whatever its version, so
/// nothing is fetched for it.
pub proof fn law_inverted_range_is_never_fetched<P, C>(
    record: Record<EncryptedData>,
    range: PackManifestDataV1,
    replies: Seq<DownloadReply<P, C>>,
)
    requires
        range.start_idx > range.end_idx,
    ensures
        read_as(record, Ok(range)) is Err,
        after_replies(starting(read_as(record, Ok(range))), replies) is Finished,
{
    law_finished_download_is_final(starting(read_as(record, Ok(range))), replies);
}

/// The download of a manifest that was read starts by reading the head of the local history.
pub proof fn law_readable_manifest_looks_at_the_head_first<P, C>(manifest: Manifest)
    ensures
        starting::<P, C>(Ok(manifest)) == (DownloadState::<P, C>::ReadHead { manifest }),
{
}

/// A failed request ends the download with that failure, whatever the manifest: no request follows
/// it. A failure to fetch is the server's, a failure to unpack the packfile's, any other the
/// store's.
pub proof fn law_failed_request_ends_the_download<P, C>(
    manifest: Manifest,
    blob: Seq<u8>,
    batch: Seq<Record<C>>,
    report: eyre::Report,
    error: UnpackError,
)
    ensures
        after_reply(
            DownloadState::<P, C>::ReadHead { manifest },
            DownloadReply::Head(Err(report)),
        ) == DownloadState::<P, C>::Finished(Err(DownloadError::Store(report))),
        after_reply(
            DownloadState::<P, C>::LoadLocal { manifest },
            DownloadReply::Local(Err(report)),
        ) == DownloadState::<P, C>::Finished(Err(DownloadError::Store(report))),
        after_reply(
            DownloadState::<P, C>::Fetch { manifest },
            DownloadReply::Blob(Err(report)),
        ) == DownloadState::<P, C>::Finished(Err(DownloadError::Api(report))),
        after_reply(
            DownloadState::<P, C>::Unpack { manifest, blob },
            DownloadReply::Records(Err(error)),
        ) == DownloadState::<P, C>::Finished(Err(DownloadError::Unpack(error))),
        after_reply(
            DownloadState::<P, C>::Push { batch },
            DownloadReply::Pushed(Err(report)),
        ) == DownloadState::<P, C>::Finished(Err(DownloadError::Store(report))),
{
}

/// The fault that `reply` reports, if it reports one.
pub open spec fn fault_of<P, C>(reply: DownloadReply<P, C>) -> Option<DownloadError> {
    match reply {
        DownloadReply::Head(Err(report)) => Some(DownloadError::Store(report)),
        DownloadReply::Local(Err(report)) => Some(DownloadError::Store(report)),
        DownloadReply::Blob(Err(report)) => Some(DownloadError::Api(report)),
        DownloadReply::Records(Err(error)) => Some(DownloadError::Unpack(error)),
        DownloadReply::Pushed(Err(report)) => Some(DownloadError::Store(report)),
        _ => None,
    }
}

/// A fault is never lost: the first failed answer is what the download ends with, whatever is
/// replied behind it. And a download fails for no other reason: an answer that is no failure does
/// not fail it.
pub proof fn law_faults_are_not_lost<P, C>(
    state: DownloadState<P, C>,
    reply: DownloadReply<P, C>,
    behind: Seq<DownloadReply<P, C>>,
)
    requires
        answers(state, reply),
    ensures
        match fault_of(reply) {
            Some(fault) => after_replies(after_reply(state, reply), behind) == DownloadState::<
                P,
                C,
            >::Finished(Err(fault)),
            None => !(after_reply(state, reply) matches DownloadState::Finished(Err(_))),
        },
{
    if fault_of(reply) is Some {
        law_finished_download_is_final(after_reply(state, reply), behind);
    }
}

/// A range is fetched exactly where its end is not in the local history yet: where there is no
/// local history, or its head is at an index before the end of the range. Where the range starts
/// does not matter.
pub proof fn law_range_is_fetched_unless_its_end_is_local<P, C>(
    manifest: Manifest,
    head: Record<C>,
)
    ensures
        after_reply(
            DownloadState::<P, C>::ReadHead { manifest },
            DownloadReply::Head(Ok(None)),
        ) == (DownloadState::<P, C>::Fetch { manifest }),
        head.idx < manifest.range.end_idx ==> after_reply(
            DownloadState::<P, C>::ReadHead { manifest },
            DownloadReply::Head(Ok(Some(head))),
        ) == (DownloadState::<P, C>::Fetch { manifest }),
        head.idx >= manifest.range.end_idx ==> after_reply(
            DownloadState::<P, C>::ReadHead { manifest },
            DownloadReply::Head(Ok(Some(head))),
        ) == (DownloadState::<P, C>::LoadLocal { manifest }),
{
}

/// Local history only ever spares requests: a range that is local with one head is local with any
/// later head, and one that is fetched with a head is fetched with any earlier one.
pub proof fn law_longer_history_spares_no_less<P, C>(
    manifest: Manifest,
    earlier: Record<C>,
    later: Record<C>,
)
    requires
        earlier.idx <= later.idx,
    ensures
        ({
            let start = DownloadState::<P, C>::ReadHead { manifest };
            let first = after_reply(start, DownloadReply::Head(Ok(Some(earlier))));
            let second = after_reply(start, DownloadReply::Head(Ok(Some(later))));
            &&& first is LoadLocal ==> second is LoadLocal
            &&& second is Fetch ==> first is Fetch
        }),
{
}

/// Each good reply leads on with all that it brought: the packfile is unpacked as it came, its
/// records are encrypted from the first on, and an empty packfile leaves nothing to encrypt.
pub proof fn law_good_replies_lead_on<P, C>(
    manifest: Manifest,
    blob: Seq<u8>,
    records: Seq<Record<P>>,
)
    ensures
        after_reply(
            DownloadState::<P, C>::Fetch { manifest },
            DownloadReply::Blob(Ok(blob)),
        ) == (DownloadState::<P, C>::Unpack { manifest, blob }),
        after_reply(
            DownloadState::<P, C>::Unpack { manifest, blob },
            DownloadReply::Records(Ok(records)),
        ) == if records.len() > 0 {
            DownloadState::<P, C>::Encrypt { records, encrypted: Seq::empty() }
        } else {
            DownloadState::<P, C>::Push { batch: Seq::empty() }
        },
{
}

/// An encrypted record joins those before it. All records are pushed as soon as the last of them is
/// encrypted, and not before.
pub proof fn law_encrypted_records_are_collected<P, C>(
    records: Seq<Record<P>>,
    encrypted: Seq<Record<C>>,
    record: Record<C>,
)
    requires
        encrypted.len() < records.len(),
    ensures
        after_reply(
            DownloadState::<P, C>::Encrypt { records, encrypted },
            DownloadReply::Encrypted(record),
        ) == if encrypted.len() + 1 < records.len() {
            DownloadState::<P, C>::Encrypt { records, encrypted: encrypted.push(record) }
        } else {
            DownloadState::<P, C>::Push { batch: encrypted.push(record) }
        },
{
}

/// A download that ends well gives one id for each record, the record's own, in the order of the
/// records: of those that were local, and of those that the store took.
pub proof fn law_ids_are_those_of_the_records<P, C>(manifest: Manifest, records: Seq<Record<C>>)
    ensures
        after_reply(
            DownloadState::<P, C>::LoadLocal { manifest },
            DownloadReply::Local(Ok(records)),
        ) matches DownloadState::Finished(Ok(ids)) && ids.len() == records.len() && (forall|i: int|
            0 <= i < ids.len() ==> #[trigger] ids[i] == records[i].id),
        after_reply(
            DownloadState::<P, C>::Push { batch: records },
            DownloadReply::Pushed(Ok(())),
        ) matches DownloadState::Finished(Ok(ids)) && ids.len() == records.len() && (forall|i: int|
            0 <= i < ids.len() ==> #[trigger] ids[i] == records[i].id),
{
}

/// A reply that is not asked for changes nothing.
pub proof fn law_unasked_reply_changes_nothing<P, C>(
    state: DownloadState<P, C>,
    reply: DownloadReply<P, C>,
)
    requires
        !answers(state, reply),
    ensures
        after_reply(state, reply) == state,
{
}

/// A step shows the request that it makes, with all that the request carries.
pub proof fn law_step_shows_its_request<'a, P, C>(step: DownloadStep<'a, P, C>)
    ensures
        match step {
            DownloadStep::ReadHead(read) => step@ == (DownloadState::<P, C>::ReadHead {
                manifest: read.manifest(),
            }) && read@ == step@,
            DownloadStep::LoadLocal(load) => step@ == (DownloadState::<P, C>::LoadLocal {
                manifest: load.manifest(),
            }) && load@ == step@,
            DownloadStep::Fetch(fetch) => step@ == (DownloadState::<P, C>::Fetch {
                manifest: fetch.manifest(),
            }) && fetch@ == step@,
            DownloadStep::Unpack(unpack) => step@ == (DownloadState::<P, C>::Unpack {
                manifest: unpack.manifest(),
                blob: unpack.packfile(),
            }) && unpack@ == step@,
            DownloadStep::Encrypt(encrypt) => step@ == (DownloadState::<P, C>::Encrypt {
                records: encrypt.records(),
                encrypted: encrypt.encrypted(),
            }) && encrypt@ == step@,
            DownloadStep::Push(push) => step@ == (DownloadState::<P, C>::Push { batch: push@ }),
            DownloadStep::Finished(Ok(ids)) => step@ == DownloadState::<P, C>::Finished(Ok(ids@)),
            DownloadStep::Finished(Err(error)) => step@ == DownloadState::<P, C>::Finished(
                Err(error),
            ),
        },
{
}

/// Whether the reply at `i` shows that the end of the range is in the local history.
pub open spec fn found_local<P, C>(
    manifest: Manifest,
    replies: Seq<DownloadReply<P, C>>,
    i: int,
) -> bool {
    &&& 0 <= i < replies.len()
    &&& replies[i] matches DownloadReply::Head(Ok(Some(head))) && head.idx
        >= manifest.range.end_idx
}

/// Whether the reply at `i` shows that the end of the range is not in the local history.
pub open spec fn found_absent<P, C>(
    manifest: Manifest,
    replies: Seq<DownloadReply<P, C>>,
    i: int,
) -> bool {
    &&& 0 <= i < replies.len()
    &&& replies[i] matches DownloadReply::Head(Ok(found)) && (found matches Some(head) ==> head.idx
        < manifest.range.end_idx)
}

/// Whether the range was found absent at `i` and its packfile `blob` came at `j`.
pub open spec fn fetched_at<P, C>(
    manifest: Manifest,
    replies: Seq<DownloadReply<P, C>>,
    blob: Seq<u8>,
    i: int,
    j: int,
) -> bool {
    &&& found_absent(manifest, replies, i)
    &&& i < j < replies.len()
    &&& replies[j] == DownloadReply::<P, C>::Blob(Ok(blob))
}

/// Whether the packfile was fetched, then unpacked into `records`, and each of `encrypted` then
/// came back from its own request, at the position in `places`, in order.
pub open spec fn encrypted_at<P, C>(
    manifest: Manifest,
    replies: Seq<DownloadReply<P, C>>,
    records: Seq<Record<P>>,
    encrypted: Seq<Record<C>>,
    places: Seq<int>,
) -> bool {
    &&& places.len() == encrypted.len()
    &&& exists|blob: Seq<u8>, i: int, j: int, k: int|
        {
            &&& #[trigger] fetched_at(manifest, replies, blob, i, j)
            &&& j < k < replies.len()
            &&& #[trigger] replies[k] == DownloadReply::<P, C>::Records(Ok(records))
            &&& forall|n: int| 0 <= n < places.len() ==> k < #[trigger] places[n]
        }
    &&& forall|n: int|
        0 <= n < places.len() ==> 0 <= #[trigger] places[n] < replies.len() && replies[places[n]]
            == DownloadReply::<P, C>::Encrypted(encrypted[n])
    &&& forall|m: int, n: int|
        0 <= m < n < places.len() ==> #[trigger] places[m] < #[trigger] places[n]
}

/// Whether the range was found local and `local` was then loaded, at `j`.
pub open spec fn loaded_at<P, C>(
    manifest: Manifest,
    replies: Seq<DownloadReply<P, C>>,
    local: Seq<Record<C>>,
    i: int,
    j: int,
) -> bool {
    &&& found_local(manifest, replies, i)
    &&& i < j < replies.len()
    &&& replies[j] == DownloadReply::<P, C>::Local(Ok(local))
}

/// Whether every record of the packfile came back encrypted, as `batch`, and the store then took
/// `batch`, at `last`.
pub open spec fn pushed_at<P, C>(
    manifest: Manifest,
    replies: Seq<DownloadReply<P, C>>,
    batch: Seq<Record<C>>,
    last: int,
) -> bool {
    &&& 0 <= last < replies.len()
    &&& replies[last] matches DownloadReply::Pushed(Ok(_))
    &&& exists|records: Seq<Record<P>>, places: Seq<int>|
        records.len() == batch.len() && #[trigger] encrypted_at(
            manifest,
            replies.take(last),
            records,
            batch,
            places,
        )
}

/// Whether `ids` are the ids of `records`, one for each, in order.
pub open spec fn are_ids<C>(ids: Seq<RecordId>, records: Seq<Record<C>>) -> bool {
    &&& ids.len() == records.len()
    &&& forall|n: int| 0 <= n < ids.len() ==> #[trigger] ids[n] == records[n].id
}

/// Whether `replies` account for `state` in the download of `manifest`.
spec fn accounted_for<P, C>(
    manifest: Manifest,
    replies: Seq<DownloadReply<P, C>>,
    state: DownloadState<P, C>,
) -> bool {
    match state {
        DownloadState::ReadHead { manifest: own } => own == manifest,
        DownloadState::LoadLocal { manifest: own } => own == manifest && exists|i: int| #[trigger]
            found_local(manifest, replies, i),
        DownloadState::Fetch { manifest: own } => own == manifest && exists|i: int| #[trigger]
            found_absent(manifest, replies, i),
        DownloadState::Unpack { manifest: own, blob } => own == manifest && exists|i: int, j: int|
            #[trigger] fetched_at(manifest, replies, blob, i, j),
        DownloadState::Encrypt { records, encrypted } => encrypted.len() < records.len() && exists|
            places: Seq<int>,
        |
            #[trigger] encrypted_at(manifest, replies, records, encrypted, places),
        DownloadState::Push { batch } => exists|records: Seq<Record<P>>, places: Seq<int>|
            records.len() == batch.len() && #[trigger] encrypted_at(
                manifest,
                replies,
                records,
                batch,
                places,
            ),
        DownloadState::Finished(Ok(ids)) => {
            ||| exists|local: Seq<Record<C>>, i: int, j: int| #[trigger]
                loaded_at(manifest, replies, local, i, j) && are_ids(ids, local)
            ||| exists|batch: Seq<Record<C>>, last: int| #[trigger]
                pushed_at(manifest, replies, batch, last) && are_ids(ids, batch)
        },
        DownloadState::Finished(Err(_)) => true,
    }
}

proof fn lemma_encrypted_stays<P, C>(
    manifest: Manifest,
    front: Seq<DownloadReply<P, C>>,
    reply: DownloadReply<P, C>,
    records: Seq<Record<P>>,
    encrypted: Seq<Record<C>>,
    places: Seq<int>,
)
    requires
        encrypted_at(manifest, front, records, encrypted, places),
    ensures
        encrypted_at(manifest, front.push(reply), records, encrypted, places),
        reply matches DownloadReply::Encrypted(record) ==> encrypted_at(
            manifest,
            front.push(reply),
            records,
            encrypted.push(record),
            places.push(front.len() as int),
        ),
{
    let replies = front.push(reply);
    let (blob, i, j, k) = choose|blob: Seq<u8>, i: int, j: int, k: int|
        {
            &&& #[trigger] fetched_at(manifest, front, blob, i, j)
            &&& j < k < front.len()
            &&& #[trigger] front[k] == DownloadReply::<P, C>::Records(Ok(records))
            &&& forall|n: int| 0 <= n < places.len() ==> k < #[trigger] places[n]
        };
    assert(replies[i] == front[i] && replies[j] == front[j] && replies[k] == front[k]);
    assert(fetched_at(manifest, replies, blob, i, j));
    assert forall|n: int| 0 <= n < places.len() implies 0 <= #[trigger] places[n] < replies.len()
        && replies[places[n]] == DownloadReply::<P, C>::Encrypted(encrypted[n]) by {
        assert(replies[places[n]] == front[places[n]]);
    }
    assert(encrypted_at(manifest, replies, records, encrypted, places));
    if let DownloadReply::Encrypted(record) = reply {
        let more = places.push(front.len() as int);
        assert forall|n: int| 0 <= n < more.len() implies k < #[trigger] more[n] by {
            if n < places.len() {
                assert(more[n] == places[n]);
            }
        }
        assert forall|n: int| 0 <= n < more.len() implies 0 <= #[trigger] more[n] < replies.len()
            && replies[more[n]] == DownloadReply::<P, C>::Encrypted(encrypted.push(record)[n]) by {
            if n < places.len() {
                assert(more[n] == places[n]);
            }
        }
        assert forall|m: int, n: int| 0 <= m < n < more.len() implies #[trigger] more[m]
            < #[trigger] more[n] by {
            assert(more[m] == places[m]);
            if n < places.len() {
                assert(more[n] == places[n]);
            }
        }
        assert(encrypted_at(manifest, replies, records, encrypted.push(record), more));
    }
}

proof fn lemma_unpacked_from_the_start<P, C>(
    manifest: Manifest,
    front: Seq<DownloadReply<P, C>>,
    blob: Seq<u8>,
    i: int,
    j: int,
    records: Seq<Record<P>>,
)
    requires
        fetched_at(manifest, front, blob, i, j),
    ensures
        encrypted_at(
            manifest,
            front.push(DownloadReply::Records(Ok(records))),
            records,
            Seq::<Record<C>>::empty(),
            Seq::empty(),
        ),
{
    let replies = front.push(DownloadReply::<P, C>::Records(Ok(records)));
    let k = front.len() as int;
    assert(replies[i] == front[i] && replies[j] == front[j]);
    assert(fetched_at(manifest, replies, blob, i, j));
    assert(replies[k] == DownloadReply::<P, C>::Records(Ok(records)));
}

proof fn lemma_encrypting_is_accounted_for<P, C>(
    manifest: Manifest,
    replies: Seq<DownloadReply<P, C>>,
    records: Seq<Record<P>>,
    encrypted: Seq<Record<C>>,
    places: Seq<int>,
)
    requires
        encrypted_at(manifest, replies, records, encrypted, places),
        encrypted.len() <= records.len(),
    ensures
        accounted_for(manifest, replies, encrypting(records, encrypted)),
{
    match encrypting(records, encrypted) {
        DownloadState::Encrypt { records: all, encrypted: done } => {
            assert(encrypted_at(manifest, replies, all, done, places));
        },
        DownloadState::Push { batch } => {
            assert(encrypted_at(manifest, replies, records, batch, places));
        },
        _ => {},
    }
}

proof fn lemma_download_follows_its_replies<P, C>(
    manifest: Manifest,
    replies: Seq<DownloadReply<P, C>>,
)
    ensures
        accounted_for(
            manifest,
            replies,
            after_replies(DownloadState::ReadHead { manifest }, replies),
        ),
    decreases replies.len(),
{
    if replies.len() > 0 {
        let start = DownloadState::<P, C>::ReadHead { manifest };
        let front = replies.drop_last();
        let last = replies.len() - 1;
        let reply = replies.last();
        let before = after_replies(start, front);
        lemma_download_follows_its_replies(manifest, front);
        let after = after_replies(start, replies);
        assert(front.push(reply) =~= replies);
        assert(after == after_reply(before, reply));
        match before {
            DownloadState::ReadHead { .. } => {
                if let DownloadReply::Head(Ok(Some(head))) = reply {
                    if head.idx >= manifest.range.end_idx {
                        assert(found_local(manifest, replies, last));
                    } else {
                        assert(found_absent(manifest, replies, last));
                    }
                } else if let DownloadReply::Head(Ok(None)) = reply {
                    assert(found_absent(manifest, replies, last));
                }
            },
            DownloadState::LoadLocal { .. } => {
                let i = choose|i: int| #[trigger] found_local(manifest, front, i);
                assert(found_local(manifest, replies, i));
                if let DownloadState::Finished(Ok(ids)) = after {
                    let local = reply->Local_0->Ok_0;
                    assert(loaded_at(manifest, replies, local, i, last));
                    assert(are_ids(ids, local));
                }
            },
            DownloadState::Fetch { .. } => {
                let i = choose|i: int| #[trigger] found_absent(manifest, front, i);
                assert(found_absent(manifest, replies, i));
                if let DownloadState::Unpack { blob, .. } = after {
                    assert(fetched_at(manifest, replies, blob, i, last));
                }
            },
            DownloadState::Unpack { blob, .. } => {
                let (i, j) = choose|i: int, j: int| #[trigger]
                    fetched_at(manifest, front, blob, i, j);
                assert(fetched_at(manifest, replies, blob, i, j));
                if let DownloadReply::Records(Ok(records)) = reply {
                    lemma_unpacked_from_the_start(manifest, front, blob, i, j, records);
                    lemma_encrypting_is_accounted_for(
                        manifest,
                        replies,
                        records,
                        Seq::<Record<C>>::empty(),
                        Seq::empty(),
                    );
                }
            },
            DownloadState::Encrypt { records, encrypted } => {
                let places = choose|places: Seq<int>| #[trigger]
                    encrypted_at(manifest, front, records, encrypted, places);
                lemma_encrypted_stays(manifest, front, reply, records, encrypted, places);
                if let DownloadReply::Encrypted(record) = reply {
                    lemma_encrypting_is_accounted_for(
                        manifest,
                        replies,
                        records,
                        encrypted.push(record),
                        places.push(last),
                    );
                }
            },
            DownloadState::Push { batch } => {
                let (records, places) = choose|records: Seq<Record<P>>, places: Seq<int>|
                    records.len() == batch.len() && #[trigger] encrypted_at(
                        manifest,
                        front,
                        records,
                        batch,
                        places,
                    );
                lemma_encrypted_stays(manifest, front, reply, records, batch, places);
                if let DownloadState::Finished(Ok(ids)) = after {
                    assert(replies.take(last) =~= front);
                    assert(pushed_at(manifest, replies, batch, last));
                    assert(are_ids(ids, batch));
                }
            },
            DownloadState::Finished(Ok(ids)) => {
                if exists|local: Seq<Record<C>>, i: int, j: int| #[trigger]
                    loaded_at(manifest, front, local, i, j) && are_ids(ids, local) {
                    let (local, i, j) = choose|local: Seq<Record<C>>, i: int, j: int| #[trigger]
                        loaded_at(manifest, front, local, i, j) && are_ids(ids, local);
                    assert(loaded_at(manifest, replies, local, i, j));
                } else {
                    let (batch, n) = choose|batch: Seq<Record<C>>, n: int| #[trigger]
                        pushed_at(manifest, front, batch, n) && are_ids(ids, batch);
                    assert(front.take(n) =~= replies.take(n));
                    assert(pushed_at(manifest, replies, batch, n));
                }
            },
            DownloadState::Finished(Err(_)) => {},
        }
    }
}

/// A download ends well only where its manifest was read and every request on its way was answered
/// well: the end of the range was found in the local history and the range loaded, or it was found
/// absent, the packfile came, was unpacked, each of its records came back encrypted, and the store
/// took them. Its ids are those of the records that were loaded or taken.
pub proof fn law_download_ends_well_only_after_every_request<P, C>(
    loaded: Result<Manifest, LoadingError>,
    replies: Seq<DownloadReply<P, C>>,
    ids: Seq<RecordId>,
)
    requires
        after_replies(starting(loaded), replies) == DownloadState::<P, C>::Finished(Ok(ids)),
    ensures
        loaded matches Ok(manifest) && {
            ||| exists|local: Seq<Record<C>>, i: int, j: int| #[trigger]
                loaded_at(manifest, replies, local, i, j) && are_ids(ids, local)
            ||| exists|batch: Seq<Record<C>>, last: int| #[trigger]
                pushed_at(manifest, replies, batch, last) && are_ids(ids, batch)
        },
{
    match loaded {
        Ok(manifest) => {
            lemma_download_follows_its_replies(manifest, replies);
        },
        Err(_) => {
            law_finished_download_is_final(starting(loaded), replies);
        },
    }
}

/// Only what the encryption gave back is pushed, and only once all of it is there: each record of
/// the batch came back from its own request, one for each record of the packfile, in order.
pub proof fn law_only_encrypted_records_are_pushed<P, C>(
    manifest: Manifest,
    replies: Seq<DownloadReply<P, C>>,
    batch: Seq<Record<C>>,
)
    requires
        after_replies(DownloadState::ReadHead { manifest }, replies) == (DownloadState::<
            P,
            C,
        >::Push { batch }),
    ensures
        exists|records: Seq<Record<P>>, places: Seq<int>|
            records.len() == batch.len() && #[trigger] encrypted_at(
                manifest,
                replies,
                records,
                batch,
                places,
            ),
{
    lemma_download_follows_its_replies(manifest, replies);
}

} // verus!
