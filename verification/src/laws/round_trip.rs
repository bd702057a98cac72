//! What holds of an upload and a download of the same manifest together.
use crate::download::{DownloadReply, DownloadState};
use crate::laws::download::{
    after_replies, fetched_replies, law_absent_range_is_stored_and_given,
};
use crate::laws::store::{
    in_history, in_range, is_head, is_range, law_second_download_is_local, same_identity,
};
use crate::laws::upload;
use crate::manifest::Manifest;
use crate::record::{ids_of, Record, RecordId};
use crate::upload::{UploadReply, UploadState};
use vstd::prelude::*;

verus! {

/// Whether a codec carries `history` over: the packfile of `history` unpacks into `records`, which
/// are encrypted as `encrypted`, and every record stays the same record and, decrypted, the same
/// data.
pub open spec fn carries_over<P, C>(
    decrypt: spec_fn(Record<C>) -> Record<P>,
    history: Seq<Record<C>>,
    records: Seq<Record<P>>,
    encrypted: Seq<Record<C>>,
) -> bool {
    &&& records.len() == history.len()
    &&& encrypted.len() == history.len()
    &&& forall|i: int|
        #![trigger history[i]]
        #![trigger records[i]]
        #![trigger encrypted[i]]
        0 <= i < history.len() ==> {
            &&& decrypt(history[i]) == records[i] && same_identity(history[i], records[i])
            &&& decrypt(encrypted[i]) == records[i] && same_identity(encrypted[i], records[i])
        }
}

/// Whether `first` and `second` are one record and decrypt to the same.
pub open spec fn same_history<P, C>(
    decrypt: spec_fn(Record<C>) -> Record<P>,
    first: Record<C>,
    second: Record<C>,
) -> bool {
    same_identity(first, second) && decrypt(first) == decrypt(second)
}

/// A download undoes an upload. Where the packer packs the history of the manifest's range in the
/// store `up` and the server hands out what was put, a download into a store `down` without
/// history of the host ends with the ids that were packed, and `down` then has the history of the
/// range as `up` has it, and no other of that host: record for record, with the same identity and
/// the same data.
pub proof fn law_download_undoes_upload<P, C>(
    manifest: Manifest,
    up: Set<Record<C>>,
    down: Set<Record<C>>,
    decrypt: spec_fn(Record<C>) -> Record<P>,
    history: Seq<Record<C>>,
    blob: Seq<u8>,
    ids: Seq<RecordId>,
    url: Seq<char>,
    packfile_id: RecordId,
    head: Option<Record<C>>,
    records: Seq<Record<P>>,
    encrypted: Seq<Record<C>>,
)
    requires
        is_range(up, manifest, history),
        ids.to_multiset() == ids_of(history).to_multiset(),
        carries_over(decrypt, history, records, encrypted),
        is_head(down, manifest.record.host.id, None),
        is_head(down, manifest.record.host.id, head),
    ensures
        ({
            let start = UploadState::PackBody { manifest };
            let announced = seq![
                UploadReply::Packed(Ok((blob, ids))),
                UploadReply::Created(Ok((url, packfile_id))),
            ];
            &&& upload::after_replies(start, announced) == (UploadState::PutPackfile {
                url,
                blob,
                packfile_id,
            })
            &&& upload::after_replies(start, announced.push(UploadReply::Put(Ok(()))))
                == UploadState::Finished(Ok(packfile_id))
        }),
        ({
            let start = DownloadState::<P, C>::ReadHead { manifest };
            let replies = fetched_replies(head, blob, records, encrypted);
            &&& after_replies(start, replies) == (DownloadState::<P, C>::Push { batch: encrypted })
            &&& after_replies(start, replies.push(DownloadReply::Pushed(Ok(()))))
                == DownloadState::<P, C>::Finished(Ok(ids_of(encrypted)))
            &&& ids_of(encrypted).to_multiset() == ids.to_multiset()
        }),
        forall|record: Record<C>| #[trigger]
            up.contains(record) && in_range(record, manifest) ==> exists|copy: Record<C>|
                down.union(encrypted.to_set()).contains(copy) && #[trigger] same_history(
                    decrypt,
                    record,
                    copy,
                ),
        forall|copy: Record<C>| #[trigger]
            down.union(encrypted.to_set()).contains(copy) && in_history(
                copy,
                manifest.record.host.id,
            ) ==> exists|record: Record<C>|
                up.contains(record) && in_range(record, manifest) && #[trigger] same_history(
                    decrypt,
                    record,
                    copy,
                ),
{
    upload::law_packed_range_is_uploaded(manifest, blob, ids, url, packfile_id);
    let all = seq![
        UploadReply::Packed(Ok((blob, ids))),
        UploadReply::Created(Ok((url, packfile_id))),
        UploadReply::Put(Ok(())),
    ];
    let announced = seq![
        UploadReply::Packed(Ok((blob, ids))),
        UploadReply::Created(Ok((url, packfile_id))),
    ];
    assert(all.take(2) =~= announced);
    assert(announced.push(UploadReply::Put(Ok(()))) =~= all);
    if head is Some {
        assert(down.contains(head->Some_0));
    }
    law_absent_range_is_stored_and_given(manifest, head, blob, records, encrypted);
    assert(ids_of(encrypted) =~= ids_of(history));
    let after = down.union(encrypted.to_set());
    assert forall|record: Record<C>| #[trigger]
        up.contains(record) && in_range(record, manifest) implies exists|copy: Record<C>|
        after.contains(copy) && #[trigger] same_history(decrypt, record, copy) by {
        assert(history.contains(record));
        let i = choose|i: int| 0 <= i < history.len() && history[i] == record;
        assert(encrypted.contains(encrypted[i]));
        assert(after.contains(encrypted[i]));
        assert(same_history(decrypt, record, encrypted[i]));
    }
    assert forall|copy: Record<C>| #[trigger]
        after.contains(copy) && in_history(copy, manifest.record.host.id) implies exists|
        record: Record<C>,
    |
        up.contains(record) && in_range(record, manifest) && #[trigger] same_history(
            decrypt,
            record,
            copy,
        ) by {
        assert(!down.contains(copy));
        assert(encrypted.contains(copy));
        let i = choose|i: int| 0 <= i < encrypted.len() && encrypted[i] == copy;
        assert(history.contains(history[i]));
        assert(same_history(decrypt, history[i], copy));
    }
}

/// A second download of a range whose packfile was packed for its manifest makes no call to the
/// server and pushes nothing, and gives the ids that the first one gave. The packed history reaches
/// to the end of the range, and an id names one record in it.
pub proof fn law_downloading_twice_is_downloading_once<P, C>(
    manifest: Manifest,
    up: Set<Record<C>>,
    down: Set<Record<C>>,
    decrypt: spec_fn(Record<C>) -> Record<P>,
    history: Seq<Record<C>>,
    blob: Seq<u8>,
    records: Seq<Record<P>>,
    encrypted: Seq<Record<C>>,
    head: Option<Record<C>>,
    local: Seq<Record<C>>,
    replies: Seq<DownloadReply<P, C>>,
)
    requires
        is_range(up, manifest, history),
        exists|i: int|
            0 <= i < history.len() && #[trigger] history[i].idx == manifest.range.end_idx,
        forall|i: int, j: int|
            0 <= i < history.len() && 0 <= j < history.len() && #[trigger] history[i].id
                == #[trigger] history[j].id ==> i == j,
        carries_over(decrypt, history, records, encrypted),
        is_head(down, manifest.record.host.id, None),
        is_head(down.union(encrypted.to_set()), manifest.record.host.id, head),
        is_range(down.union(encrypted.to_set()), manifest, local),
    ensures
        ({
            let start = DownloadState::<P, C>::ReadHead { manifest };
            let first = fetched_replies(None, blob, records, encrypted);
            let second = seq![DownloadReply::<P, C>::Head(Ok(head))];
            let later = after_replies(start, second + replies);
            &&& after_replies(start, first.push(DownloadReply::Pushed(Ok(()))))
                == DownloadState::<P, C>::Finished(Ok(ids_of(encrypted)))
            &&& after_replies(start, second.push(DownloadReply::Local(Ok(local))))
                == DownloadState::<P, C>::Finished(Ok(ids_of(local)))
            &&& ids_of(local).to_multiset() == ids_of(encrypted).to_multiset()
            &&& later is LoadLocal || later is Finished
        }),
{
    assert forall|i: int, j: int|
        0 <= i < encrypted.len() && 0 <= j < encrypted.len() && i != j implies #[trigger]
        encrypted[i] != #[trigger] encrypted[j] by {
        assert(history[i].id == encrypted[i].id && history[j].id == encrypted[j].id);
    }
    assert forall|i: int| 0 <= i < encrypted.len() implies in_range(
        #[trigger] encrypted[i],
        manifest,
    ) by {
        assert(history.contains(history[i]));
    }
    let e = choose|i: int|
        0 <= i < history.len() && #[trigger] history[i].idx == manifest.range.end_idx;
    assert(encrypted[e].idx == manifest.range.end_idx);
    law_second_download_is_local(
        manifest,
        down,
        blob,
        records,
        encrypted,
        head,
        local,
        replies,
    );
}

} // verus!
