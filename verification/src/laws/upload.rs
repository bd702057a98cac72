//! What holds of the upload of one manifest.
use crate::error::{PackBodyError, UploadError};
use crate::manifest::{read_as, LoadingError, Manifest, PackManifestDataV1};
use crate::record::{EncryptedData, Record, RecordId};
use crate::upload::{
    after_reply, created_reply, packed_reply, starting, UploadReply, UploadState, UploadStep,
};
use vstd::prelude::*;

verus! {

/// The state after all of `replies`, in order.
pub open spec fn after_replies(state: UploadState, replies: Seq<UploadReply>) -> UploadState
    decreases replies.len(),
{
    if replies.len() == 0 {
        state
    } else {
        after_reply(after_replies(state, replies.drop_last()), replies.last())
    }
}

/// Whether `reply` answers the request of `state`.
pub open spec fn answers(state: UploadState, reply: UploadReply) -> bool {
    match state {
        UploadState::PackBody { .. } => reply is Packed,
        UploadState::CreatePackfile { .. } => reply is Created,
        UploadState::PutPackfile { .. } => reply is Put,
        UploadState::Finished(_) => false,
    }
}

/// How far an upload has come.
pub open spec fn stage(state: UploadState) -> nat {
    match state {
        UploadState::PackBody { .. } => 0,
        UploadState::CreatePackfile { .. } => 1,
        UploadState::PutPackfile { .. } => 2,
        UploadState::Finished(_) => 3,
    }
}

/// An upload announces, under the manifest's id, the packfile and the ids that the packer gave,
/// puts that same packfile where the server said, and ends with the server's id of it.
pub proof fn law_packed_range_is_uploaded(
    manifest: Manifest,
    blob: Seq<u8>,
    ids: Seq<RecordId>,
    url: Seq<char>,
    packfile_id: RecordId,
)
    ensures
        ({
            let replies = seq![
                UploadReply::Packed(Ok((blob, ids))),
                UploadReply::Created(Ok((url, packfile_id))),
                UploadReply::Put(Ok(())),
            ];
            let start = UploadState::PackBody { manifest };
            &&& after_replies(start, replies.take(1)) == (UploadState::CreatePackfile {
                manifest_id: manifest.record.id,
                ids,
                blob,
            })
            &&& after_replies(start, replies.take(2)) == (UploadState::PutPackfile {
                url,
                blob,
                packfile_id,
            })
            &&& after_replies(start, replies) == UploadState::Finished(Ok(packfile_id))
        }),
{
    let replies = seq![
        UploadReply::Packed(Ok((blob, ids))),
        UploadReply::Created(Ok((url, packfile_id))),
        UploadReply::Put(Ok(())),
    ];
    assert(replies.take(1).drop_last() =~= Seq::empty());
    assert(replies.take(2).drop_last() =~= replies.take(1));
    assert(replies.drop_last() =~= replies.take(2));
    reveal_with_fuel(after_replies, 2);
}

/// An upload ends well only when the packfile is in its place, and then with the id that the
/// server gave it when it was announced.
pub proof fn law_upload_ends_well_after_the_put(
    state: UploadState,
    reply: UploadReply,
    packfile_id: RecordId,
)
    requires
        !(state is Finished),
        after_reply(state, reply) == UploadState::Finished(Ok(packfile_id)),
    ensures
        reply matches UploadReply::Put(Ok(_)),
        state matches UploadState::PutPackfile { packfile_id: given, .. } && given == packfile_id,
{
}

/// A failed request ends the upload with that failure: no request follows it. A failure to pack
/// is the body's, any other the server's.
pub proof fn law_failed_request_ends_the_upload(state: UploadState, reply: UploadReply)
    requires
        answers(state, reply),
    ensures
        match reply {
            UploadReply::Packed(Err(error)) => after_reply(state, reply) == UploadState::Finished(
                Err(UploadError::Body(error)),
            ),
            UploadReply::Created(Err(report)) => after_reply(state, reply)
                == UploadState::Finished(Err(UploadError::Api(report))),
            UploadReply::Put(Err(report)) => after_reply(state, reply) == UploadState::Finished(
                Err(UploadError::Api(report)),
            ),
            _ => !(after_reply(state, reply) matches UploadState::Finished(Err(_))),
        },
{
}

/// Every answer brings an upload further. So an upload makes each request at most once.
pub proof fn law_every_answer_advances(state: UploadState, reply: UploadReply)
    requires
        answers(state, reply),
    ensures
        stage(state) < stage(after_reply(state, reply)),
{
}

/// An upload that is over stays as it ended.
pub proof fn law_finished_upload_is_final(state: UploadState, replies: Seq<UploadReply>)
    requires
        state is Finished,
    ensures
        after_replies(state, replies) == state,
    decreases replies.len(),
{
    if replies.len() > 0 {
        law_finished_upload_is_final(state, replies.drop_last());
    }
}

/// A manifest that cannot be read makes no request: its upload is over before it starts.
pub proof fn law_unreadable_manifest_makes_no_request(
    error: LoadingError,
    replies: Seq<UploadReply>,
)
    ensures
        after_replies(starting(Err(error)), replies) == UploadState::Finished(
            Err(UploadError::PackManifest(error)),
        ),
{
    law_finished_upload_is_final(starting(Err(error)), replies);
}

/// A manifest with an inverted range cannot be read, whatever its version, so
/// nothing is packed or uploaded for it.
pub proof fn law_inverted_range_is_never_uploaded(
    record: Record<EncryptedData>,
    range: PackManifestDataV1,
    replies: Seq<UploadReply>,
)
    requires
        range.start_idx > range.end_idx,
    ensures
        read_as(record, Ok(range)) is Err,
        after_replies(starting(read_as(record, Ok(range))), replies) is Finished,
{
    law_finished_upload_is_final(starting(read_as(record, Ok(range))), replies);
}

/// The upload of a manifest that was read starts by packing that manifest's range.
pub proof fn law_readable_manifest_is_packed_first(manifest: Manifest)
    ensures
        starting(Ok(manifest)) == (UploadState::PackBody { manifest }),
{
}

/// Each good reply leads to the next request: the packed history is announced under the manifest's
/// id with its own ids, the same packfile is put where the server said, and a packfile that is in
/// its place ends the upload with the server's id.
pub proof fn law_good_replies_lead_on(
    manifest: Manifest,
    manifest_id: RecordId,
    ids: Seq<RecordId>,
    blob: Seq<u8>,
    url: Seq<char>,
    packfile_id: RecordId,
)
    ensures
        after_reply(
            UploadState::PackBody { manifest },
            UploadReply::Packed(Ok((blob, ids))),
        ) == (UploadState::CreatePackfile { manifest_id: manifest.record.id, ids, blob }),
        after_reply(
            UploadState::CreatePackfile { manifest_id, ids, blob },
            UploadReply::Created(Ok((url, packfile_id))),
        ) == (UploadState::PutPackfile { url, blob, packfile_id }),
        after_reply(
            UploadState::PutPackfile { url, blob, packfile_id },
            UploadReply::Put(Ok(())),
        ) == UploadState::Finished(Ok(packfile_id)),
{
}

/// Whether the packer gave the packfile `blob` at `i`.
pub open spec fn packed_at(replies: Seq<UploadReply>, blob: Seq<u8>, i: int) -> bool {
    &&& 0 <= i < replies.len()
    &&& replies[i] matches UploadReply::Packed(Ok((packed, _))) && packed == blob
}

/// Whether the packer gave the packfile `blob` at `i` and the server then, at `j`, gave it
/// `packfile_id` and the place `url`.
pub open spec fn announced(
    replies: Seq<UploadReply>,
    blob: Seq<u8>,
    url: Seq<char>,
    packfile_id: RecordId,
    i: int,
    j: int,
) -> bool {
    &&& packed_at(replies, blob, i)
    &&& i < j < replies.len()
    &&& replies[j] == UploadReply::Created(Ok((url, packfile_id)))
}

/// Whether the packfile was packed at `i`, announced at `j`, and then put, at `k`.
pub open spec fn put_at(
    replies: Seq<UploadReply>,
    blob: Seq<u8>,
    url: Seq<char>,
    packfile_id: RecordId,
    i: int,
    j: int,
    k: int,
) -> bool {
    &&& announced(replies, blob, url, packfile_id, i, j)
    &&& j < k < replies.len()
    &&& replies[k] matches UploadReply::Put(Ok(_))
}

/// Whether `replies` account for `state` in the upload of a manifest.
spec fn accounted_for(replies: Seq<UploadReply>, state: UploadState) -> bool {
    match state {
        UploadState::PackBody { .. } => true,
        UploadState::CreatePackfile { blob, .. } => exists|i: int|
            #[trigger] packed_at(replies, blob, i),
        UploadState::PutPackfile { url, blob, packfile_id } => exists|i: int, j: int| #[trigger]
            announced(replies, blob, url, packfile_id, i, j),
        UploadState::Finished(Ok(packfile_id)) => exists|
            blob: Seq<u8>,
            url: Seq<char>,
            i: int,
            j: int,
            k: int,
        |
            #[trigger] put_at(replies, blob, url, packfile_id, i, j, k),
        UploadState::Finished(Err(_)) => true,
    }
}

proof fn lemma_upload_follows_its_replies(
    loaded: Result<Manifest, LoadingError>,
    replies: Seq<UploadReply>,
)
    ensures
        accounted_for(replies, after_replies(starting(loaded), replies)),
    decreases replies.len(),
{
    if replies.len() > 0 {
        let front = replies.drop_last();
        let last = replies.len() - 1;
        let before = after_replies(starting(loaded), front);
        let after = after_replies(starting(loaded), replies);
        lemma_upload_follows_its_replies(loaded, front);
        assert(after == after_reply(before, replies[last]));
        match before {
            UploadState::PackBody { .. } => {
                if let UploadState::CreatePackfile { blob, .. } = after {
                    assert(packed_at(replies, blob, last));
                }
            },
            UploadState::CreatePackfile { blob, .. } => {
                let i = choose|i: int| #[trigger] packed_at(front, blob, i);
                assert(packed_at(replies, blob, i));
                if let UploadState::PutPackfile { url, blob, packfile_id } = after {
                    assert(announced(replies, blob, url, packfile_id, i, last));
                }
            },
            UploadState::PutPackfile { url, blob, packfile_id } => {
                let (i, j) = choose|i: int, j: int| #[trigger]
                    announced(front, blob, url, packfile_id, i, j);
                assert(announced(replies, blob, url, packfile_id, i, j));
                if let UploadState::Finished(Ok(packfile_id)) = after {
                    assert(put_at(replies, blob, url, packfile_id, i, j, last));
                }
            },
            UploadState::Finished(Ok(packfile_id)) => {
                let (blob, url, i, j, k) = choose|
                    blob: Seq<u8>,
                    url: Seq<char>,
                    i: int,
                    j: int,
                    k: int,
                |
                    #[trigger] put_at(front, blob, url, packfile_id, i, j, k);
                assert(put_at(replies, blob, url, packfile_id, i, j, k));
            },
            UploadState::Finished(Err(_)) => {},
        }
    }
}

/// An upload ends well only where its manifest was read, the packer then packed, the server then
/// gave the packfile the id that the upload ends with, and the packfile was then put.
pub proof fn law_upload_ends_well_only_after_every_request(
    loaded: Result<Manifest, LoadingError>,
    replies: Seq<UploadReply>,
    packfile_id: RecordId,
)
    requires
        after_replies(starting(loaded), replies) == UploadState::Finished(Ok(packfile_id)),
    ensures
        loaded is Ok,
        exists|blob: Seq<u8>, url: Seq<char>, i: int, j: int, k: int| #[trigger]
            put_at(replies, blob, url, packfile_id, i, j, k),
{
    lemma_upload_follows_its_replies(loaded, replies);
    if loaded is Err {
        law_finished_upload_is_final(starting(loaded), replies);
    }
}

/// A packfile is put only as the packer gave it, and only where the server said.
pub proof fn law_only_the_packed_blob_is_put(
    loaded: Result<Manifest, LoadingError>,
    replies: Seq<UploadReply>,
    url: Seq<char>,
    blob: Seq<u8>,
    packfile_id: RecordId,
)
    requires
        after_replies(starting(loaded), replies) == (UploadState::PutPackfile {
            url,
            blob,
            packfile_id,
        }),
    ensures
        exists|i: int, j: int| #[trigger] announced(replies, blob, url, packfile_id, i, j),
{
    lemma_upload_follows_its_replies(loaded, replies);
}

/// A reply that is not asked for changes nothing.
pub proof fn law_unasked_reply_changes_nothing(state: UploadState, reply: UploadReply)
    requires
        !answers(state, reply),
    ensures
        after_reply(state, reply) == state,
{
}

/// The packer's and the server's replies are taken whole.
pub proof fn law_replies_are_taken_whole(
    blob: Vec<u8>,
    ids: Vec<RecordId>,
    packing: PackBodyError,
    url: String,
    packfile_id: RecordId,
    report: eyre::Report,
)
    ensures
        packed_reply(Ok((blob, ids))) == UploadReply::Packed(Ok((blob@, ids@))),
        packed_reply(Err(packing)) == UploadReply::Packed(Err(packing)),
        created_reply(Ok((url, packfile_id))) == UploadReply::Created(Ok((url@, packfile_id))),
        created_reply(Err(report)) == UploadReply::Created(Err(report)),
{
}

/// A step shows the request that it makes, with all that the request carries.
pub proof fn law_step_shows_its_request(step: UploadStep<'_>)
    ensures
        match step {
            UploadStep::PackBody(pack) => step@ == (UploadState::PackBody {
                manifest: pack.manifest(),
            }) && pack@ == step@,
            UploadStep::CreatePackfile(create) => step@ == (UploadState::CreatePackfile {
                manifest_id: create.for_manifest(),
                ids: create.covered(),
                blob: create.packfile(),
            }) && create@ == step@,
            UploadStep::PutPackfile(put) => step@ == (UploadState::PutPackfile {
                url: put.place(),
                blob: put.packfile(),
                packfile_id: put.given_id(),
            }) && put@ == step@,
            UploadStep::Finished(result) => step@ == UploadState::Finished(result),
        },
{
}

} // verus!
