//! Expanding many manifests, in bounded concurrent batches.
use crate::chunks::{chunk_len, split_chunk};
use crate::error::{prefixed, DownloadError};
use crate::record::{list_of, EncryptedData, HostId, Record, RecordId};
use vstd::prelude::*;

verus! {

/// How many packfiles are downloaded concurrently, at most.
pub const DOWNLOAD_CONCURRENCY: usize = 8;

/// What the download of many manifests does next.
#[derive(Debug)]
pub enum DownloadManyStep<'a> {
    /// Download a batch of manifests concurrently, each to its end.
    Batch(DownloadBatch<'a>),
    /// The download is over.
    Finished(Result<Vec<RecordId>, DownloadError>),
}

/// A batch of manifests is being downloaded.
#[derive(Debug)]
pub struct DownloadBatch<'a> {
    batch: &'a [Record<EncryptedData>],
    rest: &'a [Record<EncryptedData>],
    ids: Vec<RecordId>,
}

/// A manifest that was skipped for a permanent fault, to be warned of.
#[derive(Debug)]
pub struct SkippedManifest {
    pub manifest_id: RecordId,
    pub host: HostId,
    pub idx: u64,
    pub error: DownloadError,
}

/// What the download of one manifest came to: the ids of its history, or its fault.
pub type Outcome = Result<Seq<RecordId>, DownloadError>;

/// The mathematical value of a [`DownloadManyStep`].
#[verifier::ext_equal]
pub enum DownloadManyState {
    /// `batch` is being downloaded and `rest` is still to come; `ids` are those of the history
    /// that was expanded before.
    Batch {
        batch: Seq<Record<EncryptedData>>,
        rest: Seq<Record<EncryptedData>>,
        ids: Seq<RecordId>,
    },
    Finished(Outcome),
}

impl<'a> View for DownloadManyStep<'a> {
    type V = DownloadManyState;

    open spec fn view(&self) -> DownloadManyState {
        match *self {
            DownloadManyStep::Batch(step) => step@,
            DownloadManyStep::Finished(result) => DownloadManyState::Finished(list_of(result)),
        }
    }
}

impl<'a> View for DownloadBatch<'a> {
    type V = DownloadManyState;

    open spec fn view(&self) -> DownloadManyState {
        DownloadManyState::Batch { batch: self.batch(), rest: self.rest(), ids: self.ids() }
    }
}

impl<'a> DownloadBatch<'a> {
    #[verifier::type_invariant]
    spec fn bounded(self) -> bool {
        0 < self.batch@.len() <= DOWNLOAD_CONCURRENCY
    }

    /// The manifests of the batch.
    pub closed spec fn batch(self) -> Seq<Record<EncryptedData>> {
        self.batch@
    }

    /// The manifests behind the batch.
    pub closed spec fn rest(self) -> Seq<Record<EncryptedData>> {
        self.rest@
    }

    /// The ids of the history that was expanded before the batch.
    pub closed spec fn ids(self) -> Seq<RecordId> {
        self.ids@
    }
}

/// The mathematical values of `results`.
pub open spec fn outcomes_of(results: Seq<Result<Vec<RecordId>, DownloadError>>) -> Seq<Outcome> {
    results.map_values(|result: Result<Vec<RecordId>, DownloadError>| list_of(result))
}

/// Whether `outcome` is a fault that fails the whole sync.
pub open spec fn is_transient(outcome: Outcome) -> bool {
    outcome matches Err(error) && !error.permanent()
}

/// How many of `outcomes` come before the first transient fault: all of them, if there is none.
pub open spec fn settled_len(outcomes: Seq<Outcome>) -> nat
    decreases outcomes.len(),
{
    if outcomes.len() == 0 {
        0
    } else {
        let before = settled_len(outcomes.drop_last());
        if before == outcomes.len() - 1 && !is_transient(outcomes.last()) {
            outcomes.len()
        } else {
            before
        }
    }
}

/// A transient fault settles the matter: what comes behind it does not move it.
pub proof fn lemma_first_transient_stays(outcomes: Seq<Outcome>, n: int)
    requires
        0 <= n <= outcomes.len(),
        settled_len(outcomes.take(n)) < n,
    ensures
        settled_len(outcomes) == settled_len(outcomes.take(n)),
    decreases outcomes.len() - n,
{
    if n == outcomes.len() {
        assert(outcomes.take(n) =~= outcomes);
    } else {
        assert(outcomes.take(n + 1).drop_last() =~= outcomes.take(n));
        lemma_first_transient_stays(outcomes, n + 1);
    }
}

/// The ids that `outcomes` brought, in order.
pub open spec fn expanded(outcomes: Seq<Outcome>) -> Seq<RecordId>
    decreases outcomes.len(),
{
    if outcomes.len() == 0 {
        Seq::empty()
    } else {
        expanded(outcomes.drop_last()) + match outcomes.last() {
            Ok(ids) => ids,
            Err(_) => Seq::empty(),
        }
    }
}

/// The warning for a `manifest` that was skipped for `error`.
pub open spec fn skip_of(
    manifest: Record<EncryptedData>,
    error: DownloadError,
) -> SkippedManifest {
    SkippedManifest {
        manifest_id: manifest.id,
        host: manifest.host.id,
        idx: manifest.idx,
        error,
    }
}

/// The warnings for those of `manifests` whose outcome is a permanent fault, in order.
pub open spec fn skips(manifests: Seq<Record<EncryptedData>>, outcomes: Seq<Outcome>) -> Seq<
    SkippedManifest,
>
    decreases outcomes.len(),
{
    if outcomes.len() == 0 {
        Seq::empty()
    } else {
        let before = skips(manifests, outcomes.drop_last());
        match outcomes.last() {
            Err(error) if error.permanent() => before.push(
                skip_of(manifests[outcomes.len() - 1], error),
            ),
            _ => before,
        }
    }
}

/// The outcomes that belong to a manifest of `batch`.
pub open spec fn paired(batch: Seq<Record<EncryptedData>>, outcomes: Seq<Outcome>) -> Seq<Outcome> {
    outcomes.take(chunk_len(outcomes.len(), batch.len()) as int)
}

/// The state in which `ids` were expanded and `manifests` are still to come.
pub open spec fn expanding(
    manifests: Seq<Record<EncryptedData>>,
    ids: Seq<RecordId>,
) -> DownloadManyState {
    if manifests.len() == 0 {
        DownloadManyState::Finished(Ok(ids))
    } else {
        let len = chunk_len(manifests.len(), DOWNLOAD_CONCURRENCY as nat) as int;
        DownloadManyState::Batch { batch: manifests.take(len), rest: manifests.skip(len), ids }
    }
}

/// The state after a batch came to `outcomes`: its first transient fault ends the download;
/// without one the download goes on behind the batch, with what the batch brought.
pub open spec fn after_batch(
    state: DownloadManyState,
    outcomes: Seq<Outcome>,
) -> DownloadManyState {
    match state {
        DownloadManyState::Batch { batch, rest, ids } => {
            let seen = paired(batch, outcomes);
            let settled = settled_len(seen);
            if settled < seen.len() {
                DownloadManyState::Finished(Err(seen[settled as int]->Err_0))
            } else {
                expanding(rest, ids + expanded(seen))
            }
        },
        DownloadManyState::Finished(_) => state,
    }
}

/// The warnings that a batch gives rise to: one for each permanent fault before the first
/// transient one.
pub open spec fn batch_skips(state: DownloadManyState, outcomes: Seq<Outcome>) -> Seq<
    SkippedManifest,
> {
    match state {
        DownloadManyState::Batch { batch, .. } => {
            let seen = paired(batch, outcomes);
            skips(batch, seen.take(settled_len(seen) as int))
        },
        DownloadManyState::Finished(_) => Seq::empty(),
    }
}

/// Expands many manifests, in batches of [`DOWNLOAD_CONCURRENCY`].
///
/// A permanent fault of one manifest is skipped, with a warning: the other manifests still expand,
/// and the download ends well with the ids it could resolve. A transient fault ends the download
/// with that fault, so that it can be retried as a whole.
pub fn download_packed_many<'a>(manifests: &'a [Record<EncryptedData>]) -> (step: DownloadManyStep<
    'a,
>)
    ensures
        step@ == expanding(manifests@, Seq::empty()),
{
    download_rest(manifests, Vec::new())
}

/// The step in which `ids` were expanded and `manifests` are still to come.
fn download_rest<'a>(manifests: &'a [Record<EncryptedData>], ids: Vec<RecordId>) -> (step:
    DownloadManyStep<'a>)
    ensures
        step@ == expanding(manifests@, ids@),
{
    if manifests.len() == 0 {
        DownloadManyStep::Finished(Ok(ids))
    } else {
        let (batch, rest) = split_chunk(manifests, DOWNLOAD_CONCURRENCY);
        DownloadManyStep::Batch(DownloadBatch { batch, rest, ids })
    }
}

impl<'a> DownloadBatch<'a> {
    /// The manifests to download concurrently: at least one, and no more than the bound.
    pub fn manifests(&self) -> (manifests: &'a [Record<EncryptedData>])
        ensures
            manifests@ == self.batch(),
            0 < manifests@.len() <= DOWNLOAD_CONCURRENCY,
    {
        proof {
            use_type_invariant(self);
        }
        self.batch
    }

    /// Goes on with what the download of each manifest of the batch came to, in the order of the
    /// manifests. Beside the next step it gives the manifests that were skipped.
    pub fn resume(self, results: Vec<Result<Vec<RecordId>, DownloadError>>) -> (next: (
        DownloadManyStep<'a>,
        Vec<SkippedManifest>,
    ))
        ensures
            next.0@ == after_batch(self@, outcomes_of(results@)),
            next.1@ == batch_skips(self@, outcomes_of(results@)),
    {
        let ghost seen = paired(self.batch(), outcomes_of(results@));
        let mut results = results;
        results.truncate(self.batch.len());
        let DownloadBatch { batch, rest, mut ids } = self;
        let ghost before = ids@;
        let mut skipped: Vec<SkippedManifest> = Vec::new();
        let mut i: usize = 0;
        assert(outcomes_of(results@) =~= seen);
        #[verifier::loop_isolation(false)]
        for result in iter: results
            invariant
                i == iter.index(),
                iter.seq().len() <= batch@.len(),
                outcomes_of(iter.seq()) == seen,
                settled_len(seen.take(i as int)) == i,
                ids@ == before + expanded(seen.take(i as int)),
                skipped@ == skips(batch@, seen.take(i as int)),
        {
            proof {
                assert(seen.take(i + 1).drop_last() =~= seen.take(i as int));
            }
            match result {
                Ok(mut record_ids) => {
                    ids.append(&mut record_ids);
                },
                Err(error) => {
                    if error.is_permanent() {
                        skipped.push(
                            SkippedManifest {
                                manifest_id: batch[i].id,
                                host: batch[i].host.id,
                                idx: batch[i].idx,
                                error,
                            },
                        );
                    } else {
                        proof {
                            lemma_first_transient_stays(seen, i + 1);
                        }
                        return (DownloadManyStep::Finished(Err(error)), skipped);
                    }
                },
            }
            i = i + 1;
        }
        assert(seen.take(i as int) =~= seen);
        (download_rest(rest, ids), skipped)
    }
}

impl SkippedManifest {
    /// What the warning says where the fault says `fault`.
    pub open spec fn says(self, fault: Seq<char>) -> Seq<char> {
        "skipping unexpandable packfile manifest: "@ + fault
    }

    /// The warning's text.
    pub fn message(&self) -> (text: String)
        ensures
            exists|cause: String| #[trigger]
                self.error.caused_by(cause) && text@ == self.says(self.error.says(cause@)),
    {
        let fault = self.error.message();
        prefixed("skipping unexpandable packfile manifest: ", fault.as_str())
    }
}

} // verus!
