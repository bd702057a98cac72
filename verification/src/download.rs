//! Expanding one packfile manifest into the local history.
//!
//! The download is a sequence of requests to the local store, the server and the codec. Each step
//! names one request and takes its reply; the reply decides the next step.
//!
//! History records come from the codec and go to the store as they are: of a payload, `P` in the
//! clear and `C` encrypted, nothing is read.
use crate::error::{DownloadError, UnpackError};
use crate::manifest::{
    manifest_of, LoadingError, Manifest, PackManifestDataV1, PackManifestRecordView,
};
use crate::record::{ids_of, list_of, record_ids, HostId, Record, RecordId, HISTORY_TAG};
use std::marker::PhantomData;
use vstd::prelude::*;

verus! {

/// What a download does next.
#[derive(Debug)]
pub enum DownloadStep<'a, P, C> {
    /// Read the last history record of the manifest's host from the local store.
    ReadHead(ReadHead<'a, P, C>),
    /// Load the records of the manifest's range from the local store.
    LoadLocal(LoadLocal<'a, P, C>),
    /// Fetch the manifest's packfile from the server.
    Fetch(Fetch<'a, P, C>),
    /// Unpack the packfile into records.
    Unpack(Unpack<'a, P, C>),
    /// Encrypt one of the records with the local key.
    Encrypt(Encrypt<P, C>),
    /// Push the encrypted records into the local store.
    Push(Push<C>),
    /// The download is over.
    Finished(Result<Vec<RecordId>, DownloadError>),
}

/// The head of the local history is being read.
#[derive(Debug)]
pub struct ReadHead<'a, P, C> {
    view: PackManifestRecordView<'a>,
    payloads: PhantomData<(P, C)>,
}

/// The range is local already; its records are being loaded.
#[derive(Debug)]
pub struct LoadLocal<'a, P, C> {
    view: PackManifestRecordView<'a>,
    payloads: PhantomData<(P, C)>,
}

/// The packfile is being fetched.
#[derive(Debug)]
pub struct Fetch<'a, P, C> {
    view: PackManifestRecordView<'a>,
    payloads: PhantomData<(P, C)>,
}

/// The packfile has arrived and is being unpacked.
#[derive(Debug)]
pub struct Unpack<'a, P, C> {
    view: PackManifestRecordView<'a>,
    blob: Vec<u8>,
    payloads: PhantomData<(P, C)>,
}

/// The records are being encrypted, in order.
#[derive(Debug)]
pub struct Encrypt<P, C> {
    records: Vec<Record<P>>,
    encrypted: Vec<Record<C>>,
}

/// The encrypted records are being pushed.
#[derive(Debug)]
pub struct Push<C> {
    records: Vec<Record<C>>,
}

/// The mathematical value of a [`DownloadStep`].
#[verifier::ext_equal]
pub enum DownloadState<P, C> {
    ReadHead { manifest: Manifest },
    LoadLocal { manifest: Manifest },
    Fetch { manifest: Manifest },
    Unpack { manifest: Manifest, blob: Seq<u8> },
    Encrypt { records: Seq<Record<P>>, encrypted: Seq<Record<C>> },
    Push { batch: Seq<Record<C>> },
    Finished(Result<Seq<RecordId>, DownloadError>),
}

/// The mathematical value of a reply to one of a download's requests.
pub enum DownloadReply<P, C> {
    Head(Result<Option<Record<C>>, eyre::Report>),
    Local(Result<Seq<Record<C>>, eyre::Report>),
    Blob(Result<Seq<u8>, eyre::Report>),
    Records(Result<Seq<Record<P>>, UnpackError>),
    Encrypted(Record<C>),
    Pushed(Result<(), eyre::Report>),
}

impl<'a, P, C> View for DownloadStep<'a, P, C> {
    type V = DownloadState<P, C>;

    open spec fn view(&self) -> DownloadState<P, C> {
        match *self {
            DownloadStep::ReadHead(step) => step@,
            DownloadStep::LoadLocal(step) => step@,
            DownloadStep::Fetch(step) => step@,
            DownloadStep::Unpack(step) => step@,
            DownloadStep::Encrypt(step) => step@,
            DownloadStep::Push(step) => DownloadState::Push { batch: step@ },
            DownloadStep::Finished(result) => DownloadState::Finished(list_of(result)),
        }
    }
}

impl<'a, P, C> ReadHead<'a, P, C> {
    /// The manifest whose range is looked for.
    pub closed spec fn manifest(self) -> Manifest {
        self.view@
    }
}

impl<'a, P, C> View for ReadHead<'a, P, C> {
    type V = DownloadState<P, C>;

    open spec fn view(&self) -> DownloadState<P, C> {
        DownloadState::ReadHead { manifest: self.manifest() }
    }
}

impl<'a, P, C> LoadLocal<'a, P, C> {
    /// The manifest whose range is loaded.
    pub closed spec fn manifest(self) -> Manifest {
        self.view@
    }
}

impl<'a, P, C> View for LoadLocal<'a, P, C> {
    type V = DownloadState<P, C>;

    open spec fn view(&self) -> DownloadState<P, C> {
        DownloadState::LoadLocal { manifest: self.manifest() }
    }
}

impl<'a, P, C> Fetch<'a, P, C> {
    /// The manifest whose packfile is fetched.
    pub closed spec fn manifest(self) -> Manifest {
        self.view@
    }
}

impl<'a, P, C> View for Fetch<'a, P, C> {
    type V = DownloadState<P, C>;

    open spec fn view(&self) -> DownloadState<P, C> {
        DownloadState::Fetch { manifest: self.manifest() }
    }
}

impl<'a, P, C> Unpack<'a, P, C> {
    /// The manifest whose packfile is unpacked.
    pub closed spec fn manifest(self) -> Manifest {
        self.view@
    }

    /// The packfile.
    pub closed spec fn packfile(self) -> Seq<u8> {
        self.blob@
    }
}

impl<'a, P, C> View for Unpack<'a, P, C> {
    type V = DownloadState<P, C>;

    open spec fn view(&self) -> DownloadState<P, C> {
        DownloadState::Unpack { manifest: self.manifest(), blob: self.packfile() }
    }
}

impl<P, C> Encrypt<P, C> {
    /// The records to encrypt.
    pub closed spec fn records(self) -> Seq<Record<P>> {
        self.records@
    }

    /// Those that are encrypted already.
    pub closed spec fn encrypted(self) -> Seq<Record<C>> {
        self.encrypted@
    }

    #[verifier::type_invariant]
    spec fn one_is_left(self) -> bool {
        self.encrypted@.len() < self.records@.len()
    }
}

impl<P, C> View for Encrypt<P, C> {
    type V = DownloadState<P, C>;

    open spec fn view(&self) -> DownloadState<P, C> {
        DownloadState::Encrypt { records: self.records(), encrypted: self.encrypted() }
    }
}

impl<C> View for Push<C> {
    type V = Seq<Record<C>>;

    closed spec fn view(&self) -> Seq<Record<C>> {
        self.records@
    }
}

/// The state in which the download of a manifest starts.
pub open spec fn starting<P, C>(loaded: Result<Manifest, LoadingError>) -> DownloadState<P, C> {
    match loaded {
        Ok(manifest) => DownloadState::ReadHead { manifest },
        Err(error) => DownloadState::Finished(Err(DownloadError::PackManifest(error))),
    }
}

/// Whether the history up to `head` holds the range of `manifest`: history is contiguous, and a
/// packfile covers a prefix of it.
pub open spec fn covers<C>(head: Option<Record<C>>, manifest: Manifest) -> bool {
    head matches Some(record) && record.idx >= manifest.range.end_idx
}

/// The state in which `encrypted` of `records` are done: the next one is encrypted, or all are
/// pushed.
pub open spec fn encrypting<P, C>(
    records: Seq<Record<P>>,
    encrypted: Seq<Record<C>>,
) -> DownloadState<P, C> {
    if encrypted.len() < records.len() {
        DownloadState::Encrypt { records, encrypted }
    } else {
        DownloadState::Push { batch: encrypted }
    }
}

/// The state after `reply`. A reply that `state` does not wait for changes nothing.
pub open spec fn after_reply<P, C>(
    state: DownloadState<P, C>,
    reply: DownloadReply<P, C>,
) -> DownloadState<P, C> {
    match (state, reply) {
        (DownloadState::ReadHead { manifest }, DownloadReply::Head(reply)) => match reply {
            Err(report) => DownloadState::Finished(Err(DownloadError::Store(report))),
            Ok(head) => if covers(head, manifest) {
                DownloadState::LoadLocal { manifest }
            } else {
                DownloadState::Fetch { manifest }
            },
        },
        (DownloadState::LoadLocal { manifest }, DownloadReply::Local(reply)) => match reply {
            Err(report) => DownloadState::Finished(Err(DownloadError::Store(report))),
            Ok(records) => DownloadState::Finished(Ok(ids_of(records))),
        },
        (DownloadState::Fetch { manifest }, DownloadReply::Blob(reply)) => match reply {
            Err(report) => DownloadState::Finished(Err(DownloadError::Api(report))),
            Ok(blob) => DownloadState::Unpack { manifest, blob },
        },
        (DownloadState::Unpack { manifest, blob }, DownloadReply::Records(reply)) => match reply {
            Err(error) => DownloadState::Finished(Err(DownloadError::Unpack(error))),
            Ok(records) => encrypting(records, Seq::empty()),
        },
        (
            DownloadState::Encrypt { records, encrypted },
            DownloadReply::Encrypted(record),
        ) => encrypting(records, encrypted.push(record)),
        (DownloadState::Push { batch }, DownloadReply::Pushed(reply)) => match reply {
            Err(report) => DownloadState::Finished(Err(DownloadError::Store(report))),
            Ok(_) => DownloadState::Finished(Ok(ids_of(batch))),
        },
        _ => state,
    }
}

/// Fetches, unpacks and stores the history that one manifest covers. The first step reads the
/// head of the local history: a range that is local already needs no packfile.
///
/// The download ends with the ids of the history records in the manifest's range, whether they
/// were stored just now or were local already.
pub fn download_packed<'a, P, C>(view: PackManifestRecordView<'a>) -> (step: DownloadStep<'a, P, C>)
    ensures
        step@ == (DownloadState::<P, C>::ReadHead { manifest: view@ }),
{
    DownloadStep::ReadHead(ReadHead { view, payloads: PhantomData })
}

/// Starts the download of a manifest that has been read. A manifest that could not be read makes
/// no request: its download is over.
pub fn download_loaded<'a, P, C>(
    loaded: Result<PackManifestRecordView<'a>, LoadingError>,
) -> (step: DownloadStep<'a, P, C>)
    ensures
        step@ == starting::<P, C>(manifest_of(loaded)),
{
    match loaded {
        Ok(view) => download_packed(view),
        Err(error) => DownloadStep::Finished(Err(DownloadError::from(error))),
    }
}

impl<'a, P, C> ReadHead<'a, P, C> {
    /// The host whose history head is read.
    pub fn host_id(&self) -> (host: HostId)
        ensures
            host == self.manifest().record.host.id,
    {
        self.view.host_id()
    }

    /// The tag under which it is read.
    pub fn tag(&self) -> (tag: &'static str)
        ensures
            tag@ == HISTORY_TAG@,
    {
        HISTORY_TAG
    }

    /// Goes on with the last local history record of the host, if there is one.
    pub fn resume(self, head: Result<Option<Record<C>>, eyre::Report>) -> (step:
        DownloadStep<'a, P, C>)
        ensures
            step@ == after_reply(self@, DownloadReply::Head(head)),
    {
        match head {
            Err(report) => DownloadStep::Finished(Err(DownloadError::Store(report))),
            Ok(Some(record)) if record.idx >= self.view.range().end_idx => DownloadStep::LoadLocal(
                LoadLocal { view: self.view, payloads: PhantomData },
            ),
            Ok(_) => DownloadStep::Fetch(Fetch { view: self.view, payloads: PhantomData }),
        }
    }
}

impl<'a, P, C> LoadLocal<'a, P, C> {
    /// The host whose records are loaded.
    pub fn host_id(&self) -> (host: HostId)
        ensures
            host == self.manifest().record.host.id,
    {
        self.view.host_id()
    }

    /// The tag under which they are loaded.
    pub fn tag(&self) -> (tag: &'static str)
        ensures
            tag@ == HISTORY_TAG@,
    {
        HISTORY_TAG
    }

    /// The range that is loaded.
    pub fn range(&self) -> (range: PackManifestDataV1)
        ensures
            range == self.manifest().range,
    {
        self.view.range()
    }

    /// Goes on with the local records of the range.
    pub fn resume(self, local: Result<Vec<Record<C>>, eyre::Report>) -> (step:
        DownloadStep<'a, P, C>)
        ensures
            step@ == after_reply(self@, DownloadReply::Local(list_of(local))),
    {
        match local {
            Err(report) => DownloadStep::Finished(Err(DownloadError::Store(report))),
            Ok(records) => DownloadStep::Finished(Ok(record_ids(records.as_slice()))),
        }
    }
}

impl<'a, P, C> Fetch<'a, P, C> {
    /// The id under which the packfile is fetched: the manifest's.
    pub fn packfile(&self) -> (id: RecordId)
        ensures
            id == self.manifest().record.id,
    {
        self.view.id()
    }

    /// Goes on with the packfile.
    pub fn resume(self, blob: Result<Vec<u8>, eyre::Report>) -> (step: DownloadStep<'a, P, C>)
        ensures
            step@ == after_reply(self@, DownloadReply::Blob(list_of(blob))),
    {
        match blob {
            Err(report) => DownloadStep::Finished(Err(DownloadError::Api(report))),
            Ok(blob) => DownloadStep::Unpack(
                Unpack { view: self.view, blob, payloads: PhantomData },
            ),
        }
    }
}

impl<'a, P, C> Unpack<'a, P, C> {
    /// The view of the manifest to whose identity the packfile is bound.
    pub fn manifest_view(&self) -> (view: PackManifestRecordView<'a>)
        ensures
            view@ == self.manifest(),
    {
        self.view
    }

    /// The packfile to unpack.
    pub fn blob(&self) -> (blob: &[u8])
        ensures
            blob@ == self.packfile(),
    {
        self.blob.as_slice()
    }

    /// Goes on with the records that the packfile held.
    pub fn resume(self, records: Result<Vec<Record<P>>, UnpackError>) -> (step:
        DownloadStep<'a, P, C>)
        ensures
            step@ == after_reply(self@, DownloadReply::Records(list_of(records))),
    {
        match records {
            Err(error) => DownloadStep::Finished(Err(DownloadError::from(error))),
            Ok(records) => encrypt_rest(records, Vec::new()),
        }
    }
}

/// The step in which `encrypted` of `records` are done.
fn encrypt_rest<'a, P, C>(
    records: Vec<Record<P>>,
    encrypted: Vec<Record<C>>,
) -> (step: DownloadStep<'a, P, C>)
    ensures
        step@ == encrypting(records@, encrypted@),
{
    if encrypted.len() < records.len() {
        DownloadStep::Encrypt(Encrypt { records, encrypted })
    } else {
        DownloadStep::Push(Push { records: encrypted })
    }
}

impl<P, C> Encrypt<P, C> {
    /// The record to encrypt: the first that is not encrypted yet.
    pub fn record(&self) -> (record: &Record<P>)
        ensures
            self.encrypted().len() < self.records().len(),
            *record == self.records()[self.encrypted().len() as int],
    {
        proof {
            use_type_invariant(self);
        }
        &self.records[self.encrypted.len()]
    }

    /// Goes on with the record, encrypted.
    pub fn resume<'a>(self, record: Record<C>) -> (step: DownloadStep<'a, P, C>)
        ensures
            step@ == after_reply(self@, DownloadReply::Encrypted(record)),
    {
        let Encrypt { records, mut encrypted } = self;
        encrypted.push(record);
        encrypt_rest(records, encrypted)
    }
}

impl<C> Push<C> {
    /// The records to push.
    pub fn records(&self) -> (records: &[Record<C>])
        ensures
            records@ == self@,
    {
        self.records.as_slice()
    }

    /// Goes on once the records are in the local store, or the store has refused them.
    pub fn resume<'a, P>(self, pushed: Result<(), eyre::Report>) -> (step: DownloadStep<'a, P, C>)
        ensures
            step@ == after_reply(
                DownloadState::<P, C>::Push { batch: self@ },
                DownloadReply::Pushed(pushed),
            ),
    {
        match pushed {
            Err(report) => DownloadStep::Finished(Err(DownloadError::Store(report))),
            Ok(_) => DownloadStep::Finished(Ok(record_ids(self.records.as_slice()))),
        }
    }
}

} // verus!
