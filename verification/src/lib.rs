//! The disk-independent core of a photo browser: which files of a folder are
//! photos, how they merge with the folder's sidecar of ratings and labels, how
//! subfolders are listed, what a photo's embedded tags say, and which steps a
//! rename takes. Callers do the reading and writing and hand over plain values.

pub mod arrange;
pub mod extensions;
pub mod model;
pub mod order;
pub mod paths;
pub mod rename;
pub mod scan;
pub mod sidecar;
pub mod store;
pub mod subfolders;
pub mod tags;
pub mod text;

pub use model::{AppData, CatalogError, FolderNode, FolderScanResult, PhotoEntry, PhotoMeta};
pub use sidecar::FolderMeta;
pub use tags::ExifData;
