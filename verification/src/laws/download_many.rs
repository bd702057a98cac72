//! What holds of the download of many manifests.
use crate::chunks::{chunk_len, chunks};
use crate::download::{starting, DownloadReply, DownloadState};
use crate::download_many::{
    after_batch, batch_skips, expanded, expanding, is_transient, lemma_first_transient_stays,
    outcomes_of, paired, settled_len, skip_of, skips, DownloadManyState, DownloadManyStep, Outcome,
    SkippedManifest, DOWNLOAD_CONCURRENCY,
};
use crate::error::DownloadError;
use crate::laws::download::{
    after_replies, law_finished_download_is_final, law_only_stored_ids_are_given, stored_by,
};
use crate::manifest::{LoadingError, Manifest};
use crate::record::{EncryptedData, Record, RecordId};
use vstd::prelude::*;

verus! {

/// The state after the batches came to all of `replies`, in order.
pub open spec fn after_batches(
    state: DownloadManyState,
    replies: Seq<Seq<Outcome>>,
) -> DownloadManyState
    decreases replies.len(),
{
    if replies.len() == 0 {
        state
    } else {
        after_batches(after_batch(state, replies[0]), replies.drop_first())
    }
}

/// The warnings that the batches give rise to, in order.
pub open spec fn all_skips(state: DownloadManyState, replies: Seq<Seq<Outcome>>) -> Seq<
    SkippedManifest,
>
    decreases replies.len(),
{
    if replies.len() == 0 {
        Seq::empty()
    } else {
        batch_skips(state, replies[0]) + all_skips(
            after_batch(state, replies[0]),
            replies.drop_first(),
        )
    }
}

/// The batches of a download.
pub open spec fn batches(manifests: Seq<Record<EncryptedData>>) -> Seq<Seq<Record<EncryptedData>>> {
    chunks(manifests, DOWNLOAD_CONCURRENCY as nat)
}

/// What the download of many manifests comes to where each comes to its own of `outcomes`: the
/// first transient fault or, without one, the ids of all that expanded.
pub open spec fn overall(outcomes: Seq<Outcome>) -> Outcome {
    let settled = settled_len(outcomes);
    if settled < outcomes.len() {
        outcomes[settled as int]
    } else {
        Ok(expanded(outcomes))
    }
}

/// The outcomes that count as settled are those before the first transient fault.
pub proof fn law_settled_ends_at_the_first_transient_fault(outcomes: Seq<Outcome>)
    ensures
        settled_len(outcomes) <= outcomes.len(),
        forall|i: int| 0 <= i < settled_len(outcomes) ==> !is_transient(#[trigger] outcomes[i]),
        settled_len(outcomes) < outcomes.len() ==> is_transient(
            outcomes[settled_len(outcomes) as int],
        ),
    decreases outcomes.len(),
{
    if outcomes.len() > 0 {
        let front = outcomes.drop_last();
        law_settled_ends_at_the_first_transient_fault(front);
        assert forall|i: int| 0 <= i < settled_len(outcomes) implies !is_transient(
            #[trigger] outcomes[i],
        ) by {
            if i < front.len() {
                assert(front[i] == outcomes[i]);
            }
        }
        if settled_len(front) < front.len() {
            assert(front[settled_len(front) as int] == outcomes[settled_len(front) as int]);
        }
    }
}

proof fn lemma_settled_len_split(first: Seq<Outcome>, second: Seq<Outcome>)
    ensures
        settled_len(first + second) == if settled_len(first) < first.len() {
            settled_len(first)
        } else {
            first.len() + settled_len(second)
        },
    decreases second.len(),
{
    law_settled_ends_at_the_first_transient_fault(first);
    if settled_len(first) < first.len() {
        assert((first + second).take(first.len() as int) =~= first);
        lemma_first_transient_stays(first + second, first.len() as int);
    } else if second.len() == 0 {
        assert(first + second =~= first);
    } else {
        lemma_settled_len_split(first, second.drop_last());
        assert((first + second).drop_last() =~= first + second.drop_last());
    }
}

proof fn lemma_expanded_split(first: Seq<Outcome>, second: Seq<Outcome>)
    ensures
        expanded(first + second) == expanded(first) + expanded(second),
    decreases second.len(),
{
    if second.len() == 0 {
        assert(first + second =~= first);
        assert(expanded(first) + expanded(second) =~= expanded(first));
    } else {
        lemma_expanded_split(first, second.drop_last());
        assert((first + second).drop_last() =~= first + second.drop_last());
        assert(expanded(first + second) =~= expanded(first) + expanded(second));
    }
}

proof fn lemma_skips_split(
    manifests: Seq<Record<EncryptedData>>,
    first: Seq<Outcome>,
    second: Seq<Outcome>,
)
    requires
        manifests.len() >= first.len() + second.len(),
    ensures
        skips(manifests, first + second) == skips(manifests.take(first.len() as int), first)
            + skips(manifests.skip(first.len() as int), second),
    decreases second.len(),
{
    let len = first.len() as int;
    if second.len() == 0 {
        assert(first + second =~= first);
        lemma_skips_look_no_further(manifests, first, len);
        assert(skips(manifests.take(len), first) + skips(manifests.skip(len), second) =~= skips(
            manifests.take(len),
            first,
        ));
    } else {
        lemma_skips_split(manifests, first, second.drop_last());
        assert((first + second).drop_last() =~= first + second.drop_last());
        assert(manifests[(first + second).len() - 1] == manifests.skip(len)[second.len() - 1]);
        assert(skips(manifests, first + second) =~= skips(manifests.take(len), first) + skips(
            manifests.skip(len),
            second,
        ));
    }
}

proof fn lemma_skips_look_no_further(
    manifests: Seq<Record<EncryptedData>>,
    outcomes: Seq<Outcome>,
    len: int,
)
    requires
        outcomes.len() <= len <= manifests.len(),
    ensures
        skips(manifests, outcomes) == skips(manifests.take(len), outcomes),
    decreases outcomes.len(),
{
    if outcomes.len() > 0 {
        lemma_skips_look_no_further(manifests, outcomes.drop_last(), len);
    }
}

proof fn lemma_finished_download_is_final(state: DownloadManyState, replies: Seq<Seq<Outcome>>)
    requires
        state is Finished,
    ensures
        after_batches(state, replies) == state,
        all_skips(state, replies) == Seq::<SkippedManifest>::empty(),
    decreases replies.len(),
{
    if replies.len() > 0 {
        lemma_finished_download_is_final(state, replies.drop_first());
    }
}

proof fn lemma_batching_does_not_show(
    manifests: Seq<Record<EncryptedData>>,
    before: Seq<RecordId>,
    outcomes: Seq<Outcome>,
)
    requires
        outcomes.len() == manifests.len(),
    ensures
        ({
            let start = expanding(manifests, before);
            let replies = chunks(outcomes, DOWNLOAD_CONCURRENCY as nat);
            let settled = settled_len(outcomes) as int;
            &&& after_batches(start, replies) == DownloadManyState::Finished(
                if settled < outcomes.len() {
                    outcomes[settled]
                } else {
                    Ok(before + expanded(outcomes))
                },
            )
            &&& all_skips(start, replies) == skips(manifests, outcomes.take(settled))
        }),
    decreases outcomes.len(),
{
    let start = expanding(manifests, before);
    let replies = chunks(outcomes, DOWNLOAD_CONCURRENCY as nat);
    law_settled_ends_at_the_first_transient_fault(outcomes);
    if outcomes.len() == 0 {
        assert(before + expanded(outcomes) =~= before);
    } else {
        let len = chunk_len(outcomes.len(), DOWNLOAD_CONCURRENCY as nat) as int;
        let first = outcomes.take(len);
        let second = outcomes.skip(len);
        let rest = manifests.skip(len);
        assert(first + second =~= outcomes);
        assert(paired(manifests.take(len), first) =~= first);
        assert(replies.drop_first() =~= chunks(second, DOWNLOAD_CONCURRENCY as nat));
        law_settled_ends_at_the_first_transient_fault(first);
        law_settled_ends_at_the_first_transient_fault(second);
        lemma_settled_len_split(first, second);
        if settled_len(first) < first.len() {
            let settled = settled_len(first) as int;
            lemma_finished_download_is_final(
                after_batch(start, replies[0]),
                replies.drop_first(),
            );
            assert(first.take(settled) =~= outcomes.take(settled));
            lemma_skips_look_no_further(manifests, first.take(settled), len);
            assert(all_skips(start, replies) =~= batch_skips(start, replies[0]));
        } else {
            let settled = settled_len(second) as int;
            lemma_batching_does_not_show(rest, before + expanded(first), second);
            lemma_expanded_split(first, second);
            assert(before + expanded(first) + expanded(second) =~= before + expanded(outcomes));
            assert(first.take(len) =~= first);
            assert(first + second.take(settled) =~= outcomes.take(len + settled));
            lemma_skips_split(manifests, first, second.take(settled));
        }
    }
}

/// Batching does not show: where every manifest comes to its own of `outcomes`, the download comes
/// to the first transient fault among them or, without one, to the ids of all that expanded, in
/// the order of the manifests. It warns of every permanent fault before the first transient one,
/// once and in order, and of nothing else.
pub proof fn law_batching_does_not_show(
    manifests: Seq<Record<EncryptedData>>,
    outcomes: Seq<Outcome>,
)
    requires
        outcomes.len() == manifests.len(),
    ensures
        ({
            let start = expanding(manifests, Seq::empty());
            let replies = chunks(outcomes, DOWNLOAD_CONCURRENCY as nat);
            &&& after_batches(start, replies) == DownloadManyState::Finished(overall(outcomes))
            &&& all_skips(start, replies) == skips(
                manifests,
                outcomes.take(settled_len(outcomes) as int),
            )
        }),
{
    lemma_batching_does_not_show(manifests, Seq::empty(), outcomes);
    assert(Seq::<RecordId>::empty() + expanded(outcomes) =~= expanded(outcomes));
    law_settled_ends_at_the_first_transient_fault(outcomes);
}

/// Permanent faults never fail a download: without a transient fault it ends well, with the ids of
/// every manifest that expanded.
pub proof fn law_permanent_faults_do_not_fail_the_download(
    manifests: Seq<Record<EncryptedData>>,
    outcomes: Seq<Outcome>,
)
    requires
        outcomes.len() == manifests.len(),
        forall|i: int| 0 <= i < outcomes.len() ==> !is_transient(#[trigger] outcomes[i]),
    ensures
        after_batches(
            expanding(manifests, Seq::empty()),
            chunks(outcomes, DOWNLOAD_CONCURRENCY as nat),
        ) == DownloadManyState::Finished(Ok(expanded(outcomes))),
{
    law_batching_does_not_show(manifests, outcomes);
    law_settled_ends_at_the_first_transient_fault(outcomes);
}

/// A transient fault is never masked: where a manifest comes to one, the download fails with the
/// first of them.
pub proof fn law_transient_faults_fail_the_download(
    manifests: Seq<Record<EncryptedData>>,
    outcomes: Seq<Outcome>,
    i: int,
)
    requires
        outcomes.len() == manifests.len(),
        0 <= i < outcomes.len(),
        is_transient(outcomes[i]),
        forall|j: int| 0 <= j < i ==> !is_transient(#[trigger] outcomes[j]),
    ensures
        after_batches(
            expanding(manifests, Seq::empty()),
            chunks(outcomes, DOWNLOAD_CONCURRENCY as nat),
        ) == DownloadManyState::Finished(outcomes[i]),
{
    law_batching_does_not_show(manifests, outcomes);
    law_settled_ends_at_the_first_transient_fault(outcomes);
}

/// The ids of a manifest that expanded stand in the result whole, behind those of the manifests
/// before it and in front of those of the manifests behind it, whatever became of them.
pub proof fn law_siblings_still_expand(outcomes: Seq<Outcome>, i: int)
    requires
        0 <= i < outcomes.len(),
        outcomes[i] is Ok,
    ensures
        expanded(outcomes) == expanded(outcomes.take(i)) + outcomes[i]->Ok_0 + expanded(
            outcomes.skip(i + 1),
        ),
{
    let front = outcomes.take(i + 1);
    assert(front + outcomes.skip(i + 1) =~= outcomes);
    assert(front.drop_last() =~= outcomes.take(i));
    lemma_expanded_split(front, outcomes.skip(i + 1));
}

/// A skip loses no id: the result is that of a download of only the manifests that expand.
pub proof fn law_skips_lose_no_id(outcomes: Seq<Outcome>)
    ensures
        expanded(outcomes) == expanded(outcomes.filter(|outcome: Outcome| outcome is Ok)),
    decreases outcomes.len(),
{
    reveal(Seq::filter);
    let ok = |outcome: Outcome| outcome is Ok;
    if outcomes.len() > 0 {
        let front = outcomes.drop_last();
        law_skips_lose_no_id(front);
        if outcomes.last() is Ok {
            assert(outcomes.filter(ok).drop_last() =~= front.filter(ok));
        } else {
            assert(expanded(outcomes) =~= expanded(front));
        }
    }
}

/// Every id in the result is one that the download of some manifest ended well with.
pub proof fn law_every_id_comes_from_an_expanded_manifest(outcomes: Seq<Outcome>, id: RecordId)
    requires
        expanded(outcomes).contains(id),
    ensures
        exists|i: int|
            0 <= i < outcomes.len() && #[trigger] outcomes[i] is Ok
                && outcomes[i]->Ok_0.contains(id),
    decreases outcomes.len(),
{
    if outcomes.len() > 0 {
        let front = outcomes.drop_last();
        if expanded(front).contains(id) {
            law_every_id_comes_from_an_expanded_manifest(front, id);
            let i = choose|i: int|
                0 <= i < front.len() && #[trigger] front[i] is Ok && front[i]->Ok_0.contains(id);
            assert(outcomes[i] == front[i]);
        } else {
            let k = choose|k: int| 0 <= k < expanded(outcomes).len() && expanded(outcomes)[k] == id;
            if k < expanded(front).len() {
                assert(expanded(front)[k] == id);
            }
            assert(outcomes.last()->Ok_0[k - expanded(front).len()] == id);
            assert(outcomes[outcomes.len() - 1] is Ok);
        }
    }
}

/// Whether `skip` warns of the manifest at `i`, and that one came to a permanent fault.
pub open spec fn warns_of(
    skip: SkippedManifest,
    manifests: Seq<Record<EncryptedData>>,
    outcomes: Seq<Outcome>,
    i: int,
) -> bool {
    outcomes[i] matches Err(error) && error.permanent() && skip == skip_of(manifests[i], error)
}

/// Exactly the manifests with a permanent fault are warned of.
pub proof fn law_exactly_permanent_faults_are_warned_of(
    manifests: Seq<Record<EncryptedData>>,
    outcomes: Seq<Outcome>,
    skip: SkippedManifest,
)
    requires
        outcomes.len() <= manifests.len(),
    ensures
        skips(manifests, outcomes).contains(skip) <==> exists|i: int|
            0 <= i < outcomes.len() && #[trigger] warns_of(skip, manifests, outcomes, i),
    decreases outcomes.len(),
{
    if outcomes.len() > 0 {
        let front = outcomes.drop_last();
        let last = outcomes.len() - 1;
        let before = skips(manifests, front);
        let all = skips(manifests, outcomes);
        law_exactly_permanent_faults_are_warned_of(manifests, front, skip);
        assert forall|i: int| 0 <= i < last implies warns_of(skip, manifests, front, i)
            == #[trigger] warns_of(skip, manifests, outcomes, i) by {
            assert(front[i] == outcomes[i]);
        }
        if all.contains(skip) {
            let k = choose|k: int| 0 <= k < all.len() && all[k] == skip;
            if k < before.len() {
                assert(before[k] == skip);
                let i = choose|i: int|
                    0 <= i < front.len() && #[trigger] warns_of(skip, manifests, front, i);
                assert(warns_of(skip, manifests, outcomes, i));
            } else {
                assert(warns_of(skip, manifests, outcomes, last));
            }
        }
        if exists|i: int| 0 <= i < outcomes.len() && #[trigger] warns_of(
            skip,
            manifests,
            outcomes,
            i,
        ) {
            let i = choose|i: int|
                0 <= i < outcomes.len() && #[trigger] warns_of(skip, manifests, outcomes, i);
            if i < last {
                assert(warns_of(skip, manifests, front, i));
                let k = choose|k: int| 0 <= k < before.len() && before[k] == skip;
                assert(all[k] == skip);
            } else {
                assert(all[all.len() - 1] == skip);
            }
        }
    }
}

proof fn lemma_batches_follow_in_order(
    manifests: Seq<Record<EncryptedData>>,
    before: Seq<RecordId>,
    replies: Seq<Seq<Outcome>>,
)
    requires
        replies.len() < batches(manifests).len(),
        forall|k: int, i: int|
            0 <= k < replies.len() && 0 <= i < replies[k].len() ==> !is_transient(
                #[trigger] replies[k][i],
            ),
    ensures
        after_batches(expanding(manifests, before), replies) matches DownloadManyState::Batch {
            batch,
            ..
        } && batch == batches(manifests)[replies.len() as int],
    decreases replies.len(),
{
    if replies.len() > 0 {
        let len = chunk_len(manifests.len(), DOWNLOAD_CONCURRENCY as nat) as int;
        let rest = manifests.skip(len);
        let seen = paired(manifests.take(len), replies[0]);
        law_settled_ends_at_the_first_transient_fault(seen);
        assert(forall|i: int| 0 <= i < seen.len() ==> #[trigger] seen[i] == replies[0][i]);
        assert(settled_len(seen) == seen.len());
        assert forall|k: int, i: int|
            0 <= k < replies.drop_first().len() && 0 <= i < replies.drop_first()[k].len() implies
            !is_transient(#[trigger] replies.drop_first()[k][i]) by {
            assert(replies.drop_first()[k][i] == replies[k + 1][i]);
        }
        lemma_batches_follow_in_order(rest, before + expanded(seen), replies.drop_first());
        assert(batches(manifests)[replies.len() as int] == batches(rest)[replies.len() - 1]);
    }
}

/// As long as no transient fault comes, the manifests are downloaded batch after batch, in order.
pub proof fn law_batches_follow_in_order(
    manifests: Seq<Record<EncryptedData>>,
    replies: Seq<Seq<Outcome>>,
)
    requires
        replies.len() < batches(manifests).len(),
        forall|k: int, i: int|
            0 <= k < replies.len() && 0 <= i < replies[k].len() ==> !is_transient(
                #[trigger] replies[k][i],
            ),
    ensures
        after_batches(
            expanding(manifests, Seq::empty()),
            replies,
        ) matches DownloadManyState::Batch { batch, .. } && batch == batches(
            manifests,
        )[replies.len() as int],
{
    lemma_batches_follow_in_order(manifests, Seq::empty(), replies);
}

proof fn lemma_after_batches_split(
    state: DownloadManyState,
    first: Seq<Seq<Outcome>>,
    second: Seq<Seq<Outcome>>,
)
    ensures
        after_batches(state, first + second) == after_batches(after_batches(state, first), second),
        all_skips(state, first + second) == all_skips(state, first) + all_skips(
            after_batches(state, first),
            second,
        ),
    decreases first.len(),
{
    if first.len() == 0 {
        assert(first + second =~= second);
        assert(all_skips(state, first) + all_skips(state, second) =~= all_skips(state, second));
    } else {
        let next = after_batch(state, first[0]);
        assert((first + second).drop_first() =~= first.drop_first() + second);
        lemma_after_batches_split(next, first.drop_first(), second);
        assert(all_skips(state, first + second) =~= all_skips(state, first) + all_skips(
            after_batches(state, first),
            second,
        ));
    }
}

/// The first batch with a transient fault ends the download with the first such fault in it,
/// whatever came before without one and whatever would have come behind. Nothing behind is warned
/// of.
pub proof fn law_first_transient_fault_ends_the_download(
    manifests: Seq<Record<EncryptedData>>,
    before: Seq<Seq<Outcome>>,
    failing: Seq<Outcome>,
    i: int,
    behind: Seq<Seq<Outcome>>,
)
    requires
        before.len() < batches(manifests).len(),
        forall|k: int, j: int|
            0 <= k < before.len() && 0 <= j < before[k].len() ==> !is_transient(
                #[trigger] before[k][j],
            ),
        0 <= i < failing.len() <= batches(manifests)[before.len() as int].len(),
        is_transient(failing[i]),
        forall|j: int| 0 <= j < i ==> !is_transient(#[trigger] failing[j]),
    ensures
        ({
            let start = expanding(manifests, Seq::empty());
            let replies = before + (seq![failing] + behind);
            &&& after_batches(start, replies) == DownloadManyState::Finished(failing[i])
            &&& all_skips(start, replies) == all_skips(start, before) + skips(
                batches(manifests)[before.len() as int],
                failing.take(i),
            )
        }),
{
    let start = expanding(manifests, Seq::empty());
    let rest = seq![failing] + behind;
    let state = after_batches(start, before);
    let batch = batches(manifests)[before.len() as int];
    law_batches_follow_in_order(manifests, before);
    lemma_after_batches_split(start, before, rest);
    assert(rest.drop_first() =~= behind);
    assert(paired(batch, failing) =~= failing);
    law_settled_ends_at_the_first_transient_fault(failing);
    assert(settled_len(failing) == i);
    lemma_finished_download_is_final(after_batch(state, failing), behind);
    assert(all_skips(state, rest) =~= batch_skips(state, failing));
}

/// Whether the download of a manifest that was read as `loaded` comes to `outcome` with `replies`.
pub open spec fn comes_to<P, C>(
    loaded: Result<Manifest, LoadingError>,
    replies: Seq<DownloadReply<P, C>>,
    outcome: Outcome,
) -> bool {
    after_replies(starting(loaded), replies) == DownloadState::<P, C>::Finished(outcome)
}

/// Whether `ids` are those of records that the store holds, as the reply at `j` shows.
pub open spec fn stored_at<P, C>(
    loaded: Result<Manifest, LoadingError>,
    replies: Seq<DownloadReply<P, C>>,
    j: int,
    ids: Seq<RecordId>,
) -> bool {
    &&& 0 <= j < replies.len()
    &&& stored_by(after_replies(starting(loaded), replies.take(j)), replies[j], ids)
}

/// Only ids of records that the local store holds are in the result of a download of many
/// manifests: each comes from a manifest whose download ended with the ids of records that were
/// just loaded from the store, or that the store had just taken.
pub proof fn law_only_stored_ids_are_in_the_result<P, C>(
    manifests: Seq<Record<EncryptedData>>,
    loaded: Seq<Result<Manifest, LoadingError>>,
    replies: Seq<Seq<DownloadReply<P, C>>>,
    outcomes: Seq<Outcome>,
    ids: Seq<RecordId>,
    id: RecordId,
)
    requires
        loaded.len() == manifests.len(),
        replies.len() == manifests.len(),
        outcomes.len() == manifests.len(),
        forall|i: int|
            0 <= i < outcomes.len() ==> comes_to(loaded[i], replies[i], #[trigger] outcomes[i]),
        after_batches(
            expanding(manifests, Seq::empty()),
            chunks(outcomes, DOWNLOAD_CONCURRENCY as nat),
        ) == DownloadManyState::Finished(Ok(ids)),
        ids.contains(id),
    ensures
        exists|i: int, j: int|
            0 <= i < outcomes.len() && outcomes[i] is Ok && outcomes[i]->Ok_0.contains(id)
                && #[trigger] stored_at(loaded[i], replies[i], j, outcomes[i]->Ok_0),
{
    law_batching_does_not_show(manifests, outcomes);
    law_settled_ends_at_the_first_transient_fault(outcomes);
    law_every_id_comes_from_an_expanded_manifest(outcomes, id);
    let i = choose|i: int|
        0 <= i < outcomes.len() && #[trigger] outcomes[i] is Ok && outcomes[i]->Ok_0.contains(id);
    let given = outcomes[i]->Ok_0;
    assert(comes_to(loaded[i], replies[i], outcomes[i]));
    if loaded[i] is Err {
        law_finished_download_is_final(starting::<P, C>(loaded[i]), replies[i]);
    }
    law_only_stored_ids_are_given(loaded[i]->Ok_0, replies[i], given);
    let start = DownloadState::<P, C>::ReadHead { manifest: loaded[i]->Ok_0 };
    let j = choose|j: int|
        0 <= j < replies[i].len() && #[trigger] stored_by(
            after_replies(start, replies[i].take(j)),
            replies[i][j],
            given,
        );
    assert(stored_at(loaded[i], replies[i], j, given));
}

/// At most eight packfiles are downloaded at a time.
pub proof fn law_download_concurrency()
    ensures
        DOWNLOAD_CONCURRENCY == 8,
{
}

/// Whether `outcome` is a fault of the transport or of the store.
pub open spec fn is_outside_fault(outcome: Outcome) -> bool {
    ||| outcome matches Err(DownloadError::Api(_))
    ||| outcome matches Err(DownloadError::Store(_))
}

/// The ids that `outcome` brings: none, where it is a fault.
pub open spec fn brought(outcome: Outcome) -> Seq<RecordId> {
    match outcome {
        Ok(ids) => ids,
        Err(_) => Seq::empty(),
    }
}

/// Whether `state` downloads the first of `manifests`, as many as may be at a time, with the others
/// still to come and `ids` expanded so far; or, where there are none, has ended with `ids`.
pub open spec fn goes_on_with(
    state: DownloadManyState,
    manifests: Seq<Record<EncryptedData>>,
    ids: Seq<RecordId>,
) -> bool {
    match state {
        DownloadManyState::Batch { batch, rest, ids: given } => {
            &&& batch + rest == manifests
            &&& 0 < batch.len() <= 8
            &&& rest.len() > 0 ==> batch.len() == 8
            &&& given == ids
        },
        DownloadManyState::Finished(outcome) => manifests.len() == 0 && outcome == Ok::<
            Seq<RecordId>,
            DownloadError,
        >(ids),
    }
}

/// Batches are cut from the front, and no manifest is left out: a download starts with the first
/// manifests, and one without manifests is over, with what it has.
pub proof fn law_download_starts_at_the_front(
    manifests: Seq<Record<EncryptedData>>,
    ids: Seq<RecordId>,
)
    ensures
        goes_on_with(expanding(manifests, ids), manifests, ids),
{
    let len = chunk_len(manifests.len(), DOWNLOAD_CONCURRENCY as nat) as int;
    assert(manifests.take(len) + manifests.skip(len) =~= manifests);
}

/// The ids that outcomes bring together are those that each brings, one behind the other.
pub proof fn law_ids_of_outcomes_are_joined(outcomes: Seq<Outcome>)
    ensures
        expanded(outcomes) == outcomes.map_values(|outcome: Outcome| brought(outcome)).flatten(),
    decreases outcomes.len(),
{
    let each = outcomes.map_values(|outcome: Outcome| brought(outcome));
    if outcomes.len() > 0 {
        let first = seq![outcomes[0]];
        let behind = outcomes.drop_first();
        law_ids_of_outcomes_are_joined(behind);
        assert(first + behind =~= outcomes);
        lemma_expanded_split(first, behind);
        assert(first.drop_last() =~= Seq::empty());
        assert(expanded(first) =~= brought(outcomes[0])) by {
            reveal_with_fuel(expanded, 2);
        }
        assert(each.drop_first() =~= behind.map_values(|outcome: Outcome| brought(outcome)));
    }
}

/// A batch without a fault of the transport or of the store leads on to the manifests behind it,
/// with the ids that its manifests brought behind those from before, and warns of its permanent
/// faults. An outcome without a manifest of its own does not count.
pub proof fn law_batch_leads_on(
    batch: Seq<Record<EncryptedData>>,
    rest: Seq<Record<EncryptedData>>,
    ids: Seq<RecordId>,
    outcomes: Seq<Outcome>,
    extra: Seq<Outcome>,
)
    requires
        outcomes.len() == batch.len() || outcomes.len() < batch.len() && extra.len() == 0,
        forall|i: int| 0 <= i < outcomes.len() ==> !is_outside_fault(#[trigger] outcomes[i]),
    ensures
        goes_on_with(
            after_batch(DownloadManyState::Batch { batch, rest, ids }, outcomes + extra),
            rest,
            ids + outcomes.map_values(|outcome: Outcome| brought(outcome)).flatten(),
        ),
        batch_skips(DownloadManyState::Batch { batch, rest, ids }, outcomes + extra) == skips(
            batch,
            outcomes,
        ),
{
    assert(paired(batch, outcomes + extra) =~= outcomes);
    law_settled_ends_at_the_first_transient_fault(outcomes);
    assert(outcomes.take(outcomes.len() as int) =~= outcomes);
    law_ids_of_outcomes_are_joined(outcomes);
    law_download_starts_at_the_front(rest, ids + expanded(outcomes));
}

/// The first fault of the transport or of the store in a batch ends the download with that fault,
/// whatever the other manifests of the batch came to and whatever is still to come. The permanent
/// faults before it are warned of.
pub proof fn law_outside_fault_ends_the_download(
    batch: Seq<Record<EncryptedData>>,
    rest: Seq<Record<EncryptedData>>,
    ids: Seq<RecordId>,
    outcomes: Seq<Outcome>,
    i: int,
)
    requires
        0 <= i < batch.len(),
        i < outcomes.len(),
        is_outside_fault(outcomes[i]),
        forall|j: int| 0 <= j < i ==> !is_outside_fault(#[trigger] outcomes[j]),
    ensures
        after_batch(
            DownloadManyState::Batch { batch, rest, ids },
            outcomes,
        ) == DownloadManyState::Finished(outcomes[i]),
        batch_skips(DownloadManyState::Batch { batch, rest, ids }, outcomes) == skips(
            batch,
            outcomes.take(i),
        ),
{
    let seen = paired(batch, outcomes);
    assert(forall|j: int| 0 <= j < seen.len() ==> #[trigger] seen[j] == outcomes[j]);
    law_settled_ends_at_the_first_transient_fault(seen);
    assert(is_transient(seen[i]));
    assert(forall|j: int| 0 <= j < i ==> !is_transient(#[trigger] seen[j]));
    assert(settled_len(seen) == i);
    assert(seen.take(i) =~= outcomes.take(i));
}

/// Warnings come one by one: none for no outcome, none more for ids or for a fault of the transport
/// or of the store, and one more, behind the others, for a permanent fault. That one names the
/// manifest at the fault's own place, by its id, host and position, and carries the fault.
pub proof fn law_warnings_come_one_by_one(
    manifests: Seq<Record<EncryptedData>>,
    outcomes: Seq<Outcome>,
    outcome: Outcome,
)
    requires
        outcomes.len() < manifests.len(),
    ensures
        skips(manifests, Seq::empty()) == Seq::<SkippedManifest>::empty(),
        skips(manifests, outcomes.push(outcome)) == match outcome {
            Ok(_) => skips(manifests, outcomes),
            Err(DownloadError::Api(_)) => skips(manifests, outcomes),
            Err(DownloadError::Store(_)) => skips(manifests, outcomes),
            Err(error) => skips(manifests, outcomes).push(
                SkippedManifest {
                    manifest_id: manifests[outcomes.len() as int].id,
                    host: manifests[outcomes.len() as int].host.id,
                    idx: manifests[outcomes.len() as int].idx,
                    error,
                },
            ),
        },
{
    assert(outcomes.push(outcome).drop_last() =~= outcomes);
}

/// A download that is over stays as it ended, and warns of nothing more.
pub proof fn law_finished_download_of_many_is_final(outcome: Outcome, outcomes: Seq<Outcome>)
    ensures
        after_batch(DownloadManyState::Finished(outcome), outcomes) == DownloadManyState::Finished(
            outcome,
        ),
        batch_skips(DownloadManyState::Finished(outcome), outcomes) == Seq::<
            SkippedManifest,
        >::empty(),
{
}

/// What the downloads of a batch came to is taken whole, one for one and in order.
pub proof fn law_outcomes_are_taken_whole(results: Seq<Result<Vec<RecordId>, DownloadError>>)
    ensures
        outcomes_of(results).len() == results.len(),
        forall|i: int|
            0 <= i < results.len() ==> #[trigger] outcomes_of(results)[i] == match results[i] {
                Ok(ids) => Ok::<Seq<RecordId>, DownloadError>(ids@),
                Err(error) => Err::<Seq<RecordId>, DownloadError>(error),
            },
{
}

/// A step shows the batch that it downloads and what came before and comes behind.
pub proof fn law_step_shows_its_batch(step: DownloadManyStep<'_>)
    ensures
        match step {
            DownloadManyStep::Batch(batch) => step@ == (DownloadManyState::Batch {
                batch: batch.batch(),
                rest: batch.rest(),
                ids: batch.ids(),
            }) && batch@ == step@,
            DownloadManyStep::Finished(Ok(ids)) => step@ == DownloadManyState::Finished(Ok(ids@)),
            DownloadManyStep::Finished(Err(error)) => step@ == DownloadManyState::Finished(
                Err(error),
            ),
        },
{
}

} // verus!
