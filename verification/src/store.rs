//! What reading a stored document gave, and what is made of it: the
//! tolerant load that browsing uses, and the strict loads that editing uses.

use vstd::prelude::*;
use crate::model::{AppData, CatalogError, CatalogFault};
use crate::sidecar::{empty_sidecar, FolderMeta, FolderMetaView};

verus! {

/// What reading a stored document gave.
#[derive(Debug, PartialEq, Eq)]
pub enum StoredFile<T> {
    /// There is no such file.
    Missing,
    /// The file is there and could not be read; the text is the system's.
    Unreadable(String),
    /// The file was read and is not a document of the expected form; the
    /// text is the parser's.
    Malformed(String),
    /// The document.
    Parsed(T),
}

/// The sidecar that a tolerant load makes of what was read.
pub open spec fn tolerant(file: StoredFile<FolderMeta>) -> FolderMetaView {
    match file {
        StoredFile::Parsed(stored) => stored@,
        _ => empty_sidecar(),
    }
}

/// The sidecar to browse a folder with: the stored one if it could be had,
/// else an empty one. A missing, unreadable or malformed file never stops
/// the browsing.
pub fn load_tolerant(file: StoredFile<FolderMeta>) -> (meta: FolderMeta)
    ensures
        meta@ == tolerant(file),
        file matches StoredFile::Parsed(stored) ==> meta == stored,
{
    match file {
        StoredFile::Parsed(stored) => stored,
        _ => FolderMeta::new(),
    }
}

/// The sidecar to edit: an empty one where the folder has no file, the
/// stored one where it has, and an error where the file could not be read or
/// is malformed, so that the caller can warn before overwriting it.
pub fn load_folder_meta(file: StoredFile<FolderMeta>) -> (loaded: Result<FolderMeta, CatalogError>)
    ensures
        match file {
            StoredFile::Missing => loaded matches Ok(meta) && meta@ == empty_sidecar(),
            StoredFile::Unreadable(text) => loaded matches Err(error) && error@
                == CatalogFault::Io(text@),
            StoredFile::Malformed(text) => loaded matches Err(error) && error@
                == CatalogFault::Parse(text@),
            StoredFile::Parsed(stored) => loaded matches Ok(meta) && meta == stored,
        },
{
    match file {
        StoredFile::Missing => Ok(FolderMeta::new()),
        StoredFile::Unreadable(text) => Err(CatalogError::Io(text)),
        StoredFile::Malformed(text) => Err(CatalogError::Parse(text)),
        StoredFile::Parsed(stored) => Ok(stored),
    }
}

/// The application's state: a fresh one where nothing is stored yet, the
/// stored one where there is one, and an error where the file could not be
/// read or is malformed.
pub fn load_data(file: StoredFile<AppData>) -> (loaded: Result<AppData, CatalogError>)
    ensures
        match file {
            StoredFile::Missing => loaded matches Ok(data) && data@.workspaces.len() == 0
                && data@.active_workspace is None,
            StoredFile::Unreadable(text) => loaded matches Err(error) && error@
                == CatalogFault::Io(text@),
            StoredFile::Malformed(text) => loaded matches Err(error) && error@
                == CatalogFault::Parse(text@),
            StoredFile::Parsed(stored) => loaded matches Ok(data) && data == stored,
        },
{
    match file {
        StoredFile::Missing => Ok(AppData::default()),
        StoredFile::Unreadable(text) => Err(CatalogError::Io(text)),
        StoredFile::Malformed(text) => Err(CatalogError::Parse(text)),
        StoredFile::Parsed(stored) => Ok(stored),
    }
}

} // verus!
