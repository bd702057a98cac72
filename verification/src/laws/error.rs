//! What holds of faults: which of them a retry can mend, where they come from and what they say.
use crate::download_many::{is_transient, skip_of};
use crate::error::{DownloadError, PackBodyError, UnpackError, UploadError};
use crate::manifest::LoadingError;
use crate::record::{EncryptedData, Record, RecordId};
use vstd::prelude::*;
use vstd::std_specs::convert::FromSpec;

verus! {

/// Every fault of the manifest and of the unpacking is permanent, whatever is wrong there. No fault
/// of the transport or of the local store is, whatever it reports.
pub proof fn law_permanent_faults(
    loading: LoadingError,
    unpacking: UnpackError,
    report: eyre::Report,
)
    ensures
        DownloadError::PackManifest(loading).permanent(),
        DownloadError::Unpack(unpacking).permanent(),
        !DownloadError::Api(report).permanent(),
        !DownloadError::Store(report).permanent(),
{
}

/// An outcome fails the whole sync exactly where it is a fault of the transport or of the store.
pub proof fn law_transient_outcomes(
    ids: Seq<RecordId>,
    loading: LoadingError,
    unpacking: UnpackError,
    report: eyre::Report,
)
    ensures
        !is_transient(Ok(ids)),
        !is_transient(Err(DownloadError::PackManifest(loading))),
        !is_transient(Err(DownloadError::Unpack(unpacking))),
        is_transient(Err(DownloadError::Api(report))),
        is_transient(Err(DownloadError::Store(report))),
{
}

/// An error that is taken up by an upload or a download keeps its kind and its cause.
pub proof fn law_errors_are_taken_up_whole(
    loading: LoadingError,
    packing: PackBodyError,
    unpacking: UnpackError,
)
    ensures
        UploadError::from_spec(loading) == UploadError::PackManifest(loading),
        UploadError::from_spec(packing) == UploadError::Body(packing),
        DownloadError::from_spec(loading) == DownloadError::PackManifest(loading),
        DownloadError::from_spec(unpacking) == DownloadError::Unpack(unpacking),
{
}

/// What is wrong with a manifest is said in these words; a decoder's reason is kept whole.
pub proof fn law_loading_errors_say(reason: String, start_idx: u64, end_idx: u64)
    ensures
        LoadingError::UnknownVersion.text() == "unknown packfile manifest version"@,
        LoadingError::MalformedBody(reason).text() == "malformed packfile manifest: "@ + reason@,
        (LoadingError::InvertedRange { start_idx, end_idx }).text()
            == "packfile manifest range is inverted"@,
{
}

/// A failed upload says which part failed and then all that its cause says. A failure to pack says
/// what the packer says and nothing else.
pub proof fn law_upload_errors_say(
    loading: LoadingError,
    packing: PackBodyError,
    report: eyre::Report,
    cause: Seq<char>,
)
    ensures
        UploadError::PackManifest(loading).says(cause) == "failed to load the packfile manifest: "@
            + cause,
        UploadError::Body(packing).says(cause) == cause,
        UploadError::Api(report).says(cause) == "packfile upload failed: "@ + cause,
{
}

/// The cause of a failed upload is what the error inside it says.
pub proof fn law_upload_causes(
    loading: LoadingError,
    packing: PackBodyError,
    report: eyre::Report,
    cause: String,
)
    ensures
        UploadError::PackManifest(loading).caused_by(cause) <==> cause@ == loading.text(),
        UploadError::Body(packing).caused_by(cause) <==> cause@ == packing.0@,
        UploadError::Api(report).caused_by(cause)
            <==> vstd::string::to_string_from_display_ensures(&report, cause),
{
}

/// A failed download says which part failed and then all that its cause says. A failure to unpack
/// says what the codec says and nothing else.
pub proof fn law_download_errors_say(
    loading: LoadingError,
    unpacking: UnpackError,
    report: eyre::Report,
    cause: Seq<char>,
)
    ensures
        DownloadError::PackManifest(loading).says(cause)
            == "failed to load the packfile manifest: "@ + cause,
        DownloadError::Unpack(unpacking).says(cause) == cause,
        DownloadError::Api(report).says(cause) == "packfile download failed: "@ + cause,
        DownloadError::Store(report).says(cause) == "failed to store the unpacked history: "@
            + cause,
{
}

/// The cause of a failed download is what the error inside it says.
pub proof fn law_download_causes(
    loading: LoadingError,
    unpacking: UnpackError,
    report: eyre::Report,
    cause: String,
)
    ensures
        DownloadError::PackManifest(loading).caused_by(cause) <==> cause@ == loading.text(),
        DownloadError::Unpack(unpacking).caused_by(cause) <==> cause@ == unpacking.0@,
        DownloadError::Api(report).caused_by(cause)
            <==> vstd::string::to_string_from_display_ensures(&report, cause),
        DownloadError::Store(report).caused_by(cause)
            <==> vstd::string::to_string_from_display_ensures(&report, cause),
{
}

/// A warning names the manifest that was skipped by its own id, host and position, carries its
/// fault whole, and says all that the fault says.
pub proof fn law_warnings_name_their_manifest(
    manifest: Record<EncryptedData>,
    error: DownloadError,
    fault: Seq<char>,
)
    ensures
        skip_of(manifest, error).manifest_id == manifest.id,
        skip_of(manifest, error).host == manifest.host.id,
        skip_of(manifest, error).idx == manifest.idx,
        skip_of(manifest, error).error == error,
        skip_of(manifest, error).says(fault) == "skipping unexpandable packfile manifest: "@
            + fault,
{
}

} // verus!
