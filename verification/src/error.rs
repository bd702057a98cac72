//! What can go wrong in a sync, and which faults a retry can mend.
use crate::manifest::LoadingError;
use vstd::prelude::*;
use vstd::std_specs::convert::FromSpecImpl;

verus! {

/// `eyre::Report`, the error that the transport and the local store answer with. Nothing is
/// claimed of it but that it is a type: it is handed on as it came.
#[verifier::external_type_specification]
#[verifier::external_body]
pub struct ExReport(eyre::Report);

/// The covered history could not be packed; the packer's words.
#[derive(Debug)]
pub struct PackBodyError(pub String);

/// A packfile could not be unpacked (codec, authentication or encoding); the codec's words.
#[derive(Debug)]
pub struct UnpackError(pub String);

/// Why a packfile was not uploaded.
#[derive(Debug)]
pub enum UploadError {
    /// The manifest could not be read.
    PackManifest(LoadingError),
    /// The packfile could not be built.
    Body(PackBodyError),
    /// The server or the way to it failed.
    Api(eyre::Report),
}

impl UploadError {
    /// Whether `cause` is what the error inside this one says.
    pub open spec fn caused_by(self, cause: String) -> bool {
        match self {
            UploadError::PackManifest(error) => cause@ == error.text(),
            UploadError::Body(error) => cause@ == error.0@,
            UploadError::Api(report) => vstd::string::to_string_from_display_ensures(
                &report,
                cause,
            ),
        }
    }

    /// What this error says where the error inside it says `cause`.
    pub open spec fn says(self, cause: Seq<char>) -> Seq<char> {
        match self {
            UploadError::PackManifest(_) => "failed to load the packfile manifest: "@ + cause,
            UploadError::Body(_) => cause,
            UploadError::Api(_) => "packfile upload failed: "@ + cause,
        }
    }

    /// The error's text where the error inside it says `cause`.
    pub fn describe(&self, cause: &str) -> (text: String)
        ensures
            text@ == self.says(cause@),
    {
        match self {
            UploadError::PackManifest(_) => prefixed(
                "failed to load the packfile manifest: ",
                cause,
            ),
            UploadError::Body(_) => cause.to_owned(),
            UploadError::Api(_) => prefixed("packfile upload failed: ", cause),
        }
    }

    /// The error's text.
    pub fn message(&self) -> (text: String)
        ensures
            exists|cause: String| #[trigger] self.caused_by(cause) && text@ == self.says(cause@),
    {
        let cause = match self {
            UploadError::PackManifest(error) => error.message(),
            UploadError::Body(error) => error.0.clone(),
            UploadError::Api(report) => report.to_string(),
        };
        assert(self.caused_by(cause));
        self.describe(cause.as_str())
    }
}

impl From<LoadingError> for UploadError {
    fn from(error: LoadingError) -> (result: UploadError) {
        UploadError::PackManifest(error)
    }
}

impl FromSpecImpl<LoadingError> for UploadError {
    open spec fn obeys_from_spec() -> bool {
        true
    }

    open spec fn from_spec(error: LoadingError) -> UploadError {
        UploadError::PackManifest(error)
    }
}

impl From<PackBodyError> for UploadError {
    fn from(error: PackBodyError) -> (result: UploadError) {
        UploadError::Body(error)
    }
}

impl FromSpecImpl<PackBodyError> for UploadError {
    open spec fn obeys_from_spec() -> bool {
        true
    }

    open spec fn from_spec(error: PackBodyError) -> UploadError {
        UploadError::Body(error)
    }
}

/// Why a packfile was not expanded into the local history.
#[derive(Debug)]
pub enum DownloadError {
    /// The manifest could not be read.
    PackManifest(LoadingError),
    /// The server or the way to it failed.
    Api(eyre::Report),
    /// The packfile arrived and could not be unpacked.
    Unpack(UnpackError),
    /// The local store failed.
    Store(eyre::Report),
}

impl DownloadError {
    /// Whether the fault lies in the one manifest or packfile, and so is the same on a retry.
    pub open spec fn permanent(self) -> bool {
        self is PackManifest || self is Unpack
    }

    /// Whether the fault is permanent: intrinsic to this one manifest or packfile and identical
    /// on a retry. Such a fault is skipped, with a warning. A transient fault (the transport, the
    /// local store) is not this manifest's, and fails the whole sync so that it can be retried.
    pub fn is_permanent(&self) -> (permanent: bool)
        ensures
            permanent == self.permanent(),
    {
        match self {
            // Unknown version, malformed body or inverted range: found before any I/O.
            DownloadError::PackManifest(_) => true,
            // A packfile of a later codec, a wrong key or corruption on the server.
            DownloadError::Unpack(_) => true,
            DownloadError::Api(_) | DownloadError::Store(_) => false,
        }
    }

    /// Whether `cause` is what the error inside this one says.
    pub open spec fn caused_by(self, cause: String) -> bool {
        match self {
            DownloadError::PackManifest(error) => cause@ == error.text(),
            DownloadError::Unpack(error) => cause@ == error.0@,
            DownloadError::Api(report) | DownloadError::Store(report) =>
                vstd::string::to_string_from_display_ensures(&report, cause),
        }
    }

    /// What this error says where the error inside it says `cause`.
    pub open spec fn says(self, cause: Seq<char>) -> Seq<char> {
        match self {
            DownloadError::PackManifest(_) => "failed to load the packfile manifest: "@ + cause,
            DownloadError::Api(_) => "packfile download failed: "@ + cause,
            DownloadError::Unpack(_) => cause,
            DownloadError::Store(_) => "failed to store the unpacked history: "@ + cause,
        }
    }

    /// The error's text where the error inside it says `cause`.
    pub fn describe(&self, cause: &str) -> (text: String)
        ensures
            text@ == self.says(cause@),
    {
        match self {
            DownloadError::PackManifest(_) => prefixed(
                "failed to load the packfile manifest: ",
                cause,
            ),
            DownloadError::Api(_) => prefixed("packfile download failed: ", cause),
            DownloadError::Unpack(_) => cause.to_owned(),
            DownloadError::Store(_) => prefixed("failed to store the unpacked history: ", cause),
        }
    }

    /// The error's text.
    pub fn message(&self) -> (text: String)
        ensures
            exists|cause: String| #[trigger] self.caused_by(cause) && text@ == self.says(cause@),
    {
        let cause = match self {
            DownloadError::PackManifest(error) => error.message(),
            DownloadError::Unpack(error) => error.0.clone(),
            DownloadError::Api(report) => report.to_string(),
            DownloadError::Store(report) => report.to_string(),
        };
        assert(self.caused_by(cause));
        self.describe(cause.as_str())
    }
}

impl From<LoadingError> for DownloadError {
    fn from(error: LoadingError) -> (result: DownloadError) {
        DownloadError::PackManifest(error)
    }
}

impl FromSpecImpl<LoadingError> for DownloadError {
    open spec fn obeys_from_spec() -> bool {
        true
    }

    open spec fn from_spec(error: LoadingError) -> DownloadError {
        DownloadError::PackManifest(error)
    }
}

impl From<UnpackError> for DownloadError {
    fn from(error: UnpackError) -> (result: DownloadError) {
        DownloadError::Unpack(error)
    }
}

impl FromSpecImpl<UnpackError> for DownloadError {
    open spec fn obeys_from_spec() -> bool {
        true
    }

    open spec fn from_spec(error: UnpackError) -> DownloadError {
        DownloadError::Unpack(error)
    }
}

/// `cause` behind `prefix`.
pub(crate) fn prefixed(prefix: &str, cause: &str) -> (text: String)
    ensures
        text@ == prefix@ + cause@,
{
    let mut text = prefix.to_owned();
    text.append(cause);
    text
}

} // verus!
