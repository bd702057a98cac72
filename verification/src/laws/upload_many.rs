//! What holds of the upload of many manifests.
use crate::chunks::{chunk_len, chunks};
use crate::error::UploadError;
use crate::laws::chunks::law_chunks_hold_every_item_once;
use crate::record::{EncryptedData, Record, RecordId};
use crate::upload_many::{
    after_batch, uploading, UploadManyState, UploadManyStep, UPLOAD_CONCURRENCY,
};
use vstd::prelude::*;

verus! {

/// The state after the batches came to all of `replies`, in order.
pub open spec fn after_batches(
    state: UploadManyState,
    replies: Seq<Result<Seq<RecordId>, UploadError>>,
) -> UploadManyState
    decreases replies.len(),
{
    if replies.len() == 0 {
        state
    } else {
        after_batches(after_batch(state, replies[0]), replies.drop_first())
    }
}

/// The replies of batches that all went well.
pub open spec fn uploaded(ids: Seq<Seq<RecordId>>) -> Seq<Result<Seq<RecordId>, UploadError>> {
    ids.map_values(|batch: Seq<RecordId>| Ok::<Seq<RecordId>, UploadError>(batch))
}

/// The batches of an upload.
pub open spec fn batches(manifests: Seq<Record<EncryptedData>>) -> Seq<Seq<Record<EncryptedData>>> {
    chunks(manifests, UPLOAD_CONCURRENCY as nat)
}

proof fn lemma_batches_follow_in_order(
    manifests: Seq<Record<EncryptedData>>,
    before: Seq<RecordId>,
    replies: Seq<Seq<RecordId>>,
)
    requires
        replies.len() <= batches(manifests).len(),
    ensures
        ({
            let state = after_batches(uploading(manifests, before), uploaded(replies));
            if replies.len() < batches(manifests).len() {
                state matches UploadManyState::Batch { batch, ids, .. } && batch == batches(
                    manifests,
                )[replies.len() as int] && ids == before + replies.flatten()
            } else {
                state == UploadManyState::Finished(Ok(before + replies.flatten()))
            }
        }),
    decreases replies.len(),
{
    if replies.len() == 0 {
        assert(before + replies.flatten() =~= before);
    } else {
        let len = chunk_len(manifests.len(), UPLOAD_CONCURRENCY as nat) as int;
        let rest = manifests.skip(len);
        assert(uploaded(replies).drop_first() =~= uploaded(replies.drop_first()));
        assert(before + replies.flatten() =~= before + replies[0]
            + replies.drop_first().flatten());
        lemma_batches_follow_in_order(rest, before + replies[0], replies.drop_first());
        if replies.len() < batches(manifests).len() {
            assert(batches(manifests)[replies.len() as int] == batches(rest)[replies.len() - 1]);
        }
    }
}

/// As long as all goes well, the manifests are uploaded batch after batch, in order, and the
/// upload ends behind the last one with the ids of all batches, in order.
pub proof fn law_batches_follow_in_order(
    manifests: Seq<Record<EncryptedData>>,
    replies: Seq<Seq<RecordId>>,
)
    requires
        replies.len() <= batches(manifests).len(),
    ensures
        ({
            let state = after_batches(uploading(manifests, Seq::empty()), uploaded(replies));
            if replies.len() < batches(manifests).len() {
                state matches UploadManyState::Batch { batch, ids, .. } && batch == batches(
                    manifests,
                )[replies.len() as int] && ids == replies.flatten()
            } else {
                state == UploadManyState::Finished(Ok(replies.flatten()))
            }
        }),
{
    lemma_batches_follow_in_order(manifests, Seq::empty(), replies);
    assert(Seq::empty() + replies.flatten() =~= replies.flatten());
}

/// The server's packfile ids come in the order of the manifests: where every batch gives the ids
/// of its own manifests, in order, the upload gives those of all manifests, in order.
pub proof fn law_ids_come_in_input_order(
    manifests: Seq<Record<EncryptedData>>,
    ids: Seq<RecordId>,
)
    requires
        ids.len() == manifests.len(),
    ensures
        after_batches(
            uploading(manifests, Seq::empty()),
            uploaded(chunks(ids, UPLOAD_CONCURRENCY as nat)),
        ) == UploadManyState::Finished(Ok(ids)),
{
    lemma_same_number_of_chunks(manifests, ids);
    law_batches_follow_in_order(manifests, chunks(ids, UPLOAD_CONCURRENCY as nat));
    law_chunks_hold_every_item_once(ids, UPLOAD_CONCURRENCY as nat);
}

proof fn lemma_same_number_of_chunks<S, T>(first: Seq<S>, second: Seq<T>)
    requires
        first.len() == second.len(),
    ensures
        chunks(first, UPLOAD_CONCURRENCY as nat).len() == chunks(
            second,
            UPLOAD_CONCURRENCY as nat,
        ).len(),
    decreases first.len(),
{
    if first.len() > 0 {
        let len = chunk_len(first.len(), UPLOAD_CONCURRENCY as nat) as int;
        lemma_same_number_of_chunks(first.skip(len), second.skip(len));
    }
}

proof fn lemma_finished_upload_is_final(
    state: UploadManyState,
    replies: Seq<Result<Seq<RecordId>, UploadError>>,
)
    requires
        state is Finished,
    ensures
        after_batches(state, replies) == state,
    decreases replies.len(),
{
    if replies.len() > 0 {
        lemma_finished_upload_is_final(state, replies.drop_first());
    }
}

proof fn lemma_after_batches_split(
    state: UploadManyState,
    first: Seq<Result<Seq<RecordId>, UploadError>>,
    second: Seq<Result<Seq<RecordId>, UploadError>>,
)
    ensures
        after_batches(state, first + second) == after_batches(after_batches(state, first), second),
    decreases first.len(),
{
    if first.len() == 0 {
        assert(first + second =~= second);
    } else {
        assert((first + second).drop_first() =~= first.drop_first() + second);
        lemma_after_batches_split(after_batch(state, first[0]), first.drop_first(), second);
    }
}

/// The first batch that fails ends the upload with its failure, whatever went well before and
/// whatever would have come behind.
pub proof fn law_first_failure_ends_the_upload(
    manifests: Seq<Record<EncryptedData>>,
    before: Seq<Seq<RecordId>>,
    error: UploadError,
    behind: Seq<Result<Seq<RecordId>, UploadError>>,
)
    requires
        before.len() < batches(manifests).len(),
    ensures
        after_batches(
            uploading(manifests, Seq::empty()),
            uploaded(before) + (seq![Err::<Seq<RecordId>, UploadError>(error)] + behind),
        ) == UploadManyState::Finished(Err(error)),
{
    let start = uploading(manifests, Seq::empty());
    let failing = seq![Err::<Seq<RecordId>, UploadError>(error)] + behind;
    law_batches_follow_in_order(manifests, before);
    lemma_after_batches_split(start, uploaded(before), failing);
    assert(failing.drop_first() =~= behind);
    lemma_finished_upload_is_final(UploadManyState::Finished(Err(error)), behind);
}

/// Whether `result` is what the uploads of several manifests come to together, where each alone
/// comes to its own of `outcomes`: the ids of all, in order, or the failure of one of them.
pub open spec fn joins(
    outcomes: Seq<Result<RecordId, UploadError>>,
    result: Result<Seq<RecordId>, UploadError>,
) -> bool {
    match result {
        Ok(ids) => ids.len() == outcomes.len() && forall|i: int|
            0 <= i < ids.len() ==> #[trigger] outcomes[i] == Ok::<RecordId, UploadError>(ids[i]),
        Err(error) => exists|i: int|
            0 <= i < outcomes.len() && #[trigger] outcomes[i] == Err::<RecordId, UploadError>(
                error,
            ),
    }
}

proof fn lemma_batching_does_not_show(
    manifests: Seq<Record<EncryptedData>>,
    before: Seq<RecordId>,
    outcomes: Seq<Result<RecordId, UploadError>>,
    replies: Seq<Result<Seq<RecordId>, UploadError>>,
) -> (result: Result<Seq<RecordId>, UploadError>)
    requires
        outcomes.len() == manifests.len(),
        replies.len() == chunks(outcomes, UPLOAD_CONCURRENCY as nat).len(),
        forall|k: int|
            0 <= k < replies.len() ==> joins(
                chunks(outcomes, UPLOAD_CONCURRENCY as nat)[k],
                #[trigger] replies[k],
            ),
    ensures
        joins(outcomes, result),
        after_batches(uploading(manifests, before), replies) == UploadManyState::Finished(
            match result {
                Ok(ids) => Ok(before + ids),
                Err(error) => Err(error),
            },
        ),
    decreases outcomes.len(),
{
    if outcomes.len() == 0 {
        assert(before + Seq::empty() =~= before);
        Ok(Seq::empty())
    } else {
        let len = chunk_len(outcomes.len(), UPLOAD_CONCURRENCY as nat) as int;
        let first = outcomes.take(len);
        let second = outcomes.skip(len);
        assert(joins(first, replies[0]));
        match replies[0] {
            Err(error) => {
                let i = choose|i: int|
                    0 <= i < first.len() && #[trigger] first[i] == Err::<RecordId, UploadError>(
                        error,
                    );
                assert(outcomes[i] == Err::<RecordId, UploadError>(error));
                lemma_finished_upload_is_final(
                    UploadManyState::Finished(Err(error)),
                    replies.drop_first(),
                );
                Err(error)
            },
            Ok(batch_ids) => {
                assert forall|k: int| 0 <= k < replies.drop_first().len() implies joins(
                    chunks(second, UPLOAD_CONCURRENCY as nat)[k],
                    #[trigger] replies.drop_first()[k],
                ) by {
                    assert(joins(
                        chunks(outcomes, UPLOAD_CONCURRENCY as nat)[k + 1],
                        replies[k + 1],
                    ));
                }
                let rest = lemma_batching_does_not_show(
                    manifests.skip(len),
                    before + batch_ids,
                    second,
                    replies.drop_first(),
                );
                match rest {
                    Ok(ids) => {
                        assert forall|i: int| 0 <= i < (batch_ids + ids).len() implies #[trigger]
                            outcomes[i] == Ok::<RecordId, UploadError>((batch_ids + ids)[i]) by {
                            if i < len {
                                assert(first[i] == outcomes[i]);
                            } else {
                                assert(second[i - len] == outcomes[i]);
                            }
                        }
                        assert(before + batch_ids + ids =~= before + (batch_ids + ids));
                        Ok(batch_ids + ids)
                    },
                    Err(error) => {
                        let i = choose|i: int|
                            0 <= i < second.len() && #[trigger] second[i] == Err::<
                                RecordId,
                                UploadError,
                            >(error);
                        assert(outcomes[i + len] == Err::<RecordId, UploadError>(error));
                        Err(error)
                    },
                }
            },
        }
    }
}

/// Batching does not show: where every batch comes to what the uploads of its manifests come to
/// together, the upload ends with what those of all manifests come to together. So it ends well,
/// with an id for each manifest in input order, exactly when every manifest uploads.
pub proof fn law_batching_does_not_show(
    manifests: Seq<Record<EncryptedData>>,
    outcomes: Seq<Result<RecordId, UploadError>>,
    replies: Seq<Result<Seq<RecordId>, UploadError>>,
)
    requires
        outcomes.len() == manifests.len(),
        replies.len() == chunks(outcomes, UPLOAD_CONCURRENCY as nat).len(),
        forall|k: int|
            0 <= k < replies.len() ==> joins(
                chunks(outcomes, UPLOAD_CONCURRENCY as nat)[k],
                #[trigger] replies[k],
            ),
    ensures
        after_batches(
            uploading(manifests, Seq::empty()),
            replies,
        ) matches UploadManyState::Finished(result) && joins(outcomes, result) && (result is Ok
            <==> forall|i: int| 0 <= i < outcomes.len() ==> #[trigger] outcomes[i] is Ok),
{
    let result = lemma_batching_does_not_show(manifests, Seq::empty(), outcomes, replies);
    if let Ok(ids) = result {
        assert(Seq::empty() + ids =~= ids);
    }
}

/// At most eight packfiles are uploaded at a time.
pub proof fn law_upload_concurrency()
    ensures
        UPLOAD_CONCURRENCY == 8,
{
}

/// Whether `state` uploads the first of `manifests`, as many as may be at a time, with the others
/// still to come and `ids` given so far; or, where there are none, has ended with `ids`.
pub open spec fn goes_on_with(
    state: UploadManyState,
    manifests: Seq<Record<EncryptedData>>,
    ids: Seq<RecordId>,
) -> bool {
    match state {
        UploadManyState::Batch { batch, rest, ids: given } => {
            &&& batch + rest == manifests
            &&& 0 < batch.len() <= 8
            &&& rest.len() > 0 ==> batch.len() == 8
            &&& given == ids
        },
        UploadManyState::Finished(result) => manifests.len() == 0 && result == Ok::<
            Seq<RecordId>,
            UploadError,
        >(ids),
    }
}

/// Batches are cut from the front, and no manifest is left out: an upload starts with the first
/// manifests, and one without manifests is over, with what it has.
pub proof fn law_upload_starts_at_the_front(
    manifests: Seq<Record<EncryptedData>>,
    ids: Seq<RecordId>,
)
    ensures
        goes_on_with(uploading(manifests, ids), manifests, ids),
{
    let len = chunk_len(manifests.len(), UPLOAD_CONCURRENCY as nat) as int;
    assert(manifests.take(len) + manifests.skip(len) =~= manifests);
}

/// A batch that went well leads on to the manifests behind it, with its own ids behind those from
/// before. A batch that failed ends the upload with its failure, whatever is still to come.
pub proof fn law_batch_leads_on(
    batch: Seq<Record<EncryptedData>>,
    rest: Seq<Record<EncryptedData>>,
    ids: Seq<RecordId>,
    batch_ids: Seq<RecordId>,
    error: UploadError,
)
    ensures
        goes_on_with(
            after_batch(UploadManyState::Batch { batch, rest, ids }, Ok(batch_ids)),
            rest,
            ids + batch_ids,
        ),
        after_batch(
            UploadManyState::Batch { batch, rest, ids },
            Err(error),
        ) == UploadManyState::Finished(Err(error)),
{
    law_upload_starts_at_the_front(rest, ids + batch_ids);
}

/// An upload that is over stays as it ended.
pub proof fn law_finished_upload_is_final(
    result: Result<Seq<RecordId>, UploadError>,
    uploaded: Result<Seq<RecordId>, UploadError>,
)
    ensures
        after_batch(UploadManyState::Finished(result), uploaded) == UploadManyState::Finished(
            result,
        ),
{
}

/// A step shows the batch that it uploads and what came before and comes behind.
pub proof fn law_step_shows_its_batch(step: UploadManyStep<'_>)
    ensures
        match step {
            UploadManyStep::Batch(batch) => step@ == (UploadManyState::Batch {
                batch: batch.batch(),
                rest: batch.rest(),
                ids: batch.packfile_ids(),
            }) && batch@ == step@,
            UploadManyStep::Finished(Ok(ids)) => step@ == UploadManyState::Finished(Ok(ids@)),
            UploadManyStep::Finished(Err(error)) => step@ == UploadManyState::Finished(Err(error)),
        },
{
}

} // verus!
