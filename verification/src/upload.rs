//! Building and uploading the packfile of one manifest.
//!
//! The upload is a sequence of requests to the packer and the server. Each step names one request
//! and takes its reply; the reply decides the next step.
use crate::error::{PackBodyError, UploadError};
use crate::manifest::{manifest_of, LoadingError, Manifest, PackManifestRecordView};
use crate::record::RecordId;
use vstd::prelude::*;

verus! {

/// What an upload does next.
#[derive(Debug)]
pub enum UploadStep<'a> {
    /// Pack the history of the manifest's range, bound to the manifest's identity.
    PackBody(PackBody<'a>),
    /// Announce the packfile to the server.
    CreatePackfile(CreatePackfile),
    /// Put the packfile where the server said.
    PutPackfile(PutPackfile),
    /// The upload is over.
    Finished(Result<RecordId, UploadError>),
}

/// The history of the range is being packed.
#[derive(Debug)]
pub struct PackBody<'a> {
    view: PackManifestRecordView<'a>,
}

/// The packfile is being announced.
#[derive(Debug)]
pub struct CreatePackfile {
    manifest_id: RecordId,
    ids: Vec<RecordId>,
    blob: Vec<u8>,
}

/// The packfile is being put.
#[derive(Debug)]
pub struct PutPackfile {
    url: String,
    blob: Vec<u8>,
    packfile_id: RecordId,
}

/// The mathematical value of an [`UploadStep`].
#[verifier::ext_equal]
pub enum UploadState {
    PackBody { manifest: Manifest },
    CreatePackfile { manifest_id: RecordId, ids: Seq<RecordId>, blob: Seq<u8> },
    PutPackfile { url: Seq<char>, blob: Seq<u8>, packfile_id: RecordId },
    Finished(Result<RecordId, UploadError>),
}

/// The mathematical value of a reply to one of an upload's requests.
pub enum UploadReply {
    Packed(Result<(Seq<u8>, Seq<RecordId>), PackBodyError>),
    Created(Result<(Seq<char>, RecordId), eyre::Report>),
    Put(Result<(), eyre::Report>),
}

impl<'a> View for UploadStep<'a> {
    type V = UploadState;

    open spec fn view(&self) -> UploadState {
        match *self {
            UploadStep::PackBody(step) => step@,
            UploadStep::CreatePackfile(step) => step@,
            UploadStep::PutPackfile(step) => step@,
            UploadStep::Finished(result) => UploadState::Finished(result),
        }
    }
}

impl<'a> PackBody<'a> {
    /// The manifest whose range is packed.
    pub closed spec fn manifest(self) -> Manifest {
        self.view@
    }
}

impl<'a> View for PackBody<'a> {
    type V = UploadState;

    open spec fn view(&self) -> UploadState {
        UploadState::PackBody { manifest: self.manifest() }
    }
}

impl CreatePackfile {
    /// The id of the manifest that the packfile belongs to.
    pub closed spec fn for_manifest(self) -> RecordId {
        self.manifest_id
    }

    /// The ids of the records that the packfile covers.
    pub closed spec fn covered(self) -> Seq<RecordId> {
        self.ids@
    }

    /// The packfile.
    pub closed spec fn packfile(self) -> Seq<u8> {
        self.blob@
    }
}

impl View for CreatePackfile {
    type V = UploadState;

    open spec fn view(&self) -> UploadState {
        UploadState::CreatePackfile {
            manifest_id: self.for_manifest(),
            ids: self.covered(),
            blob: self.packfile(),
        }
    }
}

impl PutPackfile {
    /// Where the packfile is put.
    pub closed spec fn place(self) -> Seq<char> {
        self.url@
    }

    /// The packfile.
    pub closed spec fn packfile(self) -> Seq<u8> {
        self.blob@
    }

    /// The id that the server gave the packfile.
    pub closed spec fn given_id(self) -> RecordId {
        self.packfile_id
    }
}

impl View for PutPackfile {
    type V = UploadState;

    open spec fn view(&self) -> UploadState {
        UploadState::PutPackfile {
            url: self.place(),
            blob: self.packfile(),
            packfile_id: self.given_id(),
        }
    }
}

/// The mathematical value of the packer's reply.
pub open spec fn packed_reply(
    packed: Result<(Vec<u8>, Vec<RecordId>), PackBodyError>,
) -> UploadReply {
    UploadReply::Packed(
        match packed {
            Ok((blob, ids)) => Ok((blob@, ids@)),
            Err(error) => Err(error),
        },
    )
}

/// The mathematical value of the server's reply to an announced packfile.
pub open spec fn created_reply(created: Result<(String, RecordId), eyre::Report>) -> UploadReply {
    UploadReply::Created(
        match created {
            Ok((url, packfile_id)) => Ok((url@, packfile_id)),
            Err(report) => Err(report),
        },
    )
}

/// The state in which the upload of a manifest starts.
pub open spec fn starting(loaded: Result<Manifest, LoadingError>) -> UploadState {
    match loaded {
        Ok(manifest) => UploadState::PackBody { manifest },
        Err(error) => UploadState::Finished(Err(UploadError::PackManifest(error))),
    }
}

/// The state after `reply`. A reply that `state` does not wait for changes nothing.
pub open spec fn after_reply(state: UploadState, reply: UploadReply) -> UploadState {
    match (state, reply) {
        (UploadState::PackBody { manifest }, UploadReply::Packed(reply)) => match reply {
            Err(error) => UploadState::Finished(Err(UploadError::Body(error))),
            Ok((blob, ids)) => UploadState::CreatePackfile {
                manifest_id: manifest.record.id,
                ids,
                blob,
            },
        },
        (
            UploadState::CreatePackfile { manifest_id, ids, blob },
            UploadReply::Created(reply),
        ) => match reply {
            Err(report) => UploadState::Finished(Err(UploadError::Api(report))),
            Ok((url, packfile_id)) => UploadState::PutPackfile { url, blob, packfile_id },
        },
        (
            UploadState::PutPackfile { url, blob, packfile_id },
            UploadReply::Put(reply),
        ) => match reply {
            Err(report) => UploadState::Finished(Err(UploadError::Api(report))),
            Ok(_) => UploadState::Finished(Ok(packfile_id)),
        },
        _ => state,
    }
}

/// Builds and uploads the packfile of one manifest. The manifest gives the range of history to
/// pack and the identity to which the packfile's encryption is bound. The records of the range
/// must be on the server already.
///
/// The upload ends with the server's id of the packfile.
pub fn upload_packed<'a>(view: PackManifestRecordView<'a>) -> (step: UploadStep<'a>)
    ensures
        step@ == (UploadState::PackBody { manifest: view@ }),
{
    UploadStep::PackBody(PackBody { view })
}

/// Starts the upload of a manifest that has been read. A manifest that could not be read makes no
/// request: its upload is over.
pub fn upload_loaded<'a>(loaded: Result<PackManifestRecordView<'a>, LoadingError>) -> (step:
    UploadStep<'a>)
    ensures
        step@ == starting(manifest_of(loaded)),
{
    match loaded {
        Ok(view) => upload_packed(view),
        Err(error) => UploadStep::Finished(Err(UploadError::from(error))),
    }
}

impl<'a> PackBody<'a> {
    /// The view of the manifest whose range is packed, and to whose identity the packfile is bound.
    pub fn manifest_view(&self) -> (view: PackManifestRecordView<'a>)
        ensures
            view@ == self.manifest(),
    {
        self.view
    }

    /// Goes on with the packfile and the ids of the records that it covers.
    pub fn resume(self, packed: Result<(Vec<u8>, Vec<RecordId>), PackBodyError>) -> (step:
        UploadStep<'a>)
        ensures
            step@ == after_reply(self@, packed_reply(packed)),
    {
        match packed {
            Err(error) => UploadStep::Finished(Err(UploadError::from(error))),
            Ok((blob, ids)) => UploadStep::CreatePackfile(
                CreatePackfile { manifest_id: self.view.id(), ids, blob },
            ),
        }
    }
}

impl CreatePackfile {
    /// The id of the manifest that the packfile belongs to.
    pub fn manifest_id(&self) -> (id: RecordId)
        ensures
            id == self.for_manifest(),
    {
        self.manifest_id
    }

    /// The ids of the records that the packfile covers.
    pub fn ids(&self) -> (ids: &[RecordId])
        ensures
            ids@ == self.covered(),
    {
        self.ids.as_slice()
    }

    /// The length of the packfile in bytes.
    pub fn blob_len(&self) -> (len: usize)
        ensures
            len == self.packfile().len(),
    {
        self.blob.len()
    }

    /// Goes on with the place to put the packfile and the id that the server gave it.
    pub fn resume<'a>(self, created: Result<(String, RecordId), eyre::Report>) -> (step: UploadStep<
        'a,
    >)
        ensures
            step@ == after_reply(self@, created_reply(created)),
    {
        match created {
            Err(report) => UploadStep::Finished(Err(UploadError::Api(report))),
            Ok((url, packfile_id)) => UploadStep::PutPackfile(
                PutPackfile { url, blob: self.blob, packfile_id },
            ),
        }
    }
}

impl PutPackfile {
    /// Where to put the packfile.
    pub fn url(&self) -> (url: &str)
        ensures
            url@ == self.place(),
    {
        self.url.as_str()
    }

    /// The packfile to put.
    pub fn blob(&self) -> (blob: &[u8])
        ensures
            blob@ == self.packfile(),
    {
        self.blob.as_slice()
    }

    /// Goes on once the packfile is in its place, or was refused there.
    pub fn resume<'a>(self, put: Result<(), eyre::Report>) -> (step: UploadStep<'a>)
        ensures
            step@ == after_reply(self@, UploadReply::Put(put)),
    {
        match put {
            Err(report) => UploadStep::Finished(Err(UploadError::Api(report))),
            Ok(_) => UploadStep::Finished(Ok(self.packfile_id)),
        }
    }
}

} // verus!
