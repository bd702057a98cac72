//! Syncs packed history in both directions: uploads the packfiles of manifests, and expands remote
//! manifests back into the local history.
//!
//! The library decides; its caller performs. Every operation is a step that names one request, to
//! the local store, the server or the codec, and takes the reply. [`laws`] states what holds of
//! whole syncs.
pub mod chunks;
pub mod download;
pub mod download_many;
pub mod error;
pub mod laws;
pub mod manifest;
pub mod record;
pub mod upload;
pub mod upload_many;

pub use download::{download_loaded, download_packed, DownloadStep};
pub use download_many::{
    download_packed_many, DownloadBatch, DownloadManyStep, SkippedManifest, DOWNLOAD_CONCURRENCY,
};
pub use error::{DownloadError, PackBodyError, UnpackError, UploadError};
pub use manifest::{manifest_body, LoadingError, PackManifestDataV1, PackManifestRecordView};
pub use record::{DecryptedData, EncryptedData, Host, HostId, Record, RecordId, HISTORY_TAG};
pub use upload::{upload_loaded, upload_packed, UploadStep};
pub use upload_many::{upload_packed_many, UploadBatch, UploadManyStep, UPLOAD_CONCURRENCY};
