//! What holds of whole syncs, over all replies that the store, the server and the codec can give.
pub mod chunks;
pub mod download;
pub mod download_many;
pub mod error;
pub mod manifest;
pub mod record;
pub mod round_trip;
pub mod store;
pub mod upload;
pub mod upload_many;
