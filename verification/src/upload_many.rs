//! Uploading the packfiles of many manifests, in bounded concurrent batches.
use crate::chunks::{chunk_len, split_chunk};
use crate::error::UploadError;
use crate::record::{list_of, EncryptedData, Record, RecordId};
use vstd::prelude::*;

verus! {

/// How many packfiles are uploaded concurrently, at most.
pub const UPLOAD_CONCURRENCY: usize = 8;

/// What the upload of many manifests does next.
#[derive(Debug)]
pub enum UploadManyStep<'a> {
    /// Upload a batch of manifests concurrently.
    Batch(UploadBatch<'a>),
    /// The upload is over.
    Finished(Result<Vec<RecordId>, UploadError>),
}

/// A batch of manifests is being uploaded.
#[derive(Debug)]
pub struct UploadBatch<'a> {
    batch: &'a [Record<EncryptedData>],
    rest: &'a [Record<EncryptedData>],
    packfile_ids: Vec<RecordId>,
}

/// The mathematical value of an [`UploadManyStep`].
#[verifier::ext_equal]
pub enum UploadManyState {
    /// `batch` is being uploaded and `rest` is still to come; `ids` are those of the packfiles
    /// that were uploaded before.
    Batch {
        batch: Seq<Record<EncryptedData>>,
        rest: Seq<Record<EncryptedData>>,
        ids: Seq<RecordId>,
    },
    Finished(Result<Seq<RecordId>, UploadError>),
}

impl<'a> View for UploadManyStep<'a> {
    type V = UploadManyState;

    open spec fn view(&self) -> UploadManyState {
        match *self {
            UploadManyStep::Batch(step) => step@,
            UploadManyStep::Finished(result) => UploadManyState::Finished(list_of(result)),
        }
    }
}

impl<'a> View for UploadBatch<'a> {
    type V = UploadManyState;

    open spec fn view(&self) -> UploadManyState {
        UploadManyState::Batch {
            batch: self.batch(),
            rest: self.rest(),
            ids: self.packfile_ids(),
        }
    }
}

impl<'a> UploadBatch<'a> {
    #[verifier::type_invariant]
    spec fn bounded(self) -> bool {
        0 < self.batch@.len() <= UPLOAD_CONCURRENCY
    }

    /// The manifests of the batch.
    pub closed spec fn batch(self) -> Seq<Record<EncryptedData>> {
        self.batch@
    }

    /// The manifests behind the batch.
    pub closed spec fn rest(self) -> Seq<Record<EncryptedData>> {
        self.rest@
    }

    /// The ids of the packfiles that were uploaded before the batch.
    pub closed spec fn packfile_ids(self) -> Seq<RecordId> {
        self.packfile_ids@
    }
}

/// The state in which the packfiles `ids` are uploaded and `manifests` are still to come.
pub open spec fn uploading(
    manifests: Seq<Record<EncryptedData>>,
    ids: Seq<RecordId>,
) -> UploadManyState {
    if manifests.len() == 0 {
        UploadManyState::Finished(Ok(ids))
    } else {
        let len = chunk_len(manifests.len(), UPLOAD_CONCURRENCY as nat) as int;
        UploadManyState::Batch { batch: manifests.take(len), rest: manifests.skip(len), ids }
    }
}

/// The state after a batch came to `uploaded`: the ids of its packfiles, or its first failure.
pub open spec fn after_batch(
    state: UploadManyState,
    uploaded: Result<Seq<RecordId>, UploadError>,
) -> UploadManyState {
    match state {
        UploadManyState::Batch { batch, rest, ids } => match uploaded {
            Ok(batch_ids) => uploading(rest, ids + batch_ids),
            Err(error) => UploadManyState::Finished(Err(error)),
        },
        UploadManyState::Finished(_) => state,
    }
}

/// Builds and uploads the packfiles of many manifests, in batches of [`UPLOAD_CONCURRENCY`]. The
/// packfiles are independent, so those of a batch need no order between them.
///
/// The upload ends with the server's packfile ids, in the order of `manifests`. The first failure
/// ends it: packfiles that were uploaded before do no harm, since a second run uploads the range
/// again.
pub fn upload_packed_many<'a>(manifests: &'a [Record<EncryptedData>]) -> (step: UploadManyStep<'a>)
    ensures
        step@ == uploading(manifests@, Seq::empty()),
{
    upload_rest(manifests, Vec::new())
}

/// The step in which the packfiles `packfile_ids` are uploaded and `manifests` are still to come.
fn upload_rest<'a>(manifests: &'a [Record<EncryptedData>], packfile_ids: Vec<RecordId>) -> (step:
    UploadManyStep<'a>)
    ensures
        step@ == uploading(manifests@, packfile_ids@),
{
    if manifests.len() == 0 {
        UploadManyStep::Finished(Ok(packfile_ids))
    } else {
        let (batch, rest) = split_chunk(manifests, UPLOAD_CONCURRENCY);
        UploadManyStep::Batch(UploadBatch { batch, rest, packfile_ids })
    }
}

impl<'a> UploadBatch<'a> {
    /// The manifests to upload concurrently: at least one, and no more than the bound.
    pub fn manifests(&self) -> (manifests: &'a [Record<EncryptedData>])
        ensures
            manifests@ == self.batch(),
            0 < manifests@.len() <= UPLOAD_CONCURRENCY,
    {
        proof {
            use_type_invariant(self);
        }
        self.batch
    }

    /// Goes on with the packfile ids of the batch, or with the first failure in it.
    pub fn resume(self, uploaded: Result<Vec<RecordId>, UploadError>) -> (step: UploadManyStep<'a>)
        ensures
            step@ == after_batch(self@, list_of(uploaded)),
    {
        match uploaded {
            Err(error) => UploadManyStep::Finished(Err(error)),
            Ok(mut batch_ids) => {
                let mut packfile_ids = self.packfile_ids;
                packfile_ids.append(&mut batch_ids);
                upload_rest(self.rest, packfile_ids)
            },
        }
    }
}

} // verus!
