//! The records the library hands out and takes in, each with the
//! mathematical value (its view) that the contracts speak of.

use vstd::prelude::*;

verus! {

/// The views of a sequence's elements, in order.
pub open spec fn views<T: View>(items: Seq<T>) -> Seq<T::V> {
    items.map_values(|item: T| item@)
}

/// What a user has noted about one photo.
#[derive(Debug, PartialEq, Eq)]
pub struct PhotoMeta {
    pub rating: u8,
    pub label: String,
    pub flagged: bool,
    pub rejected: bool,
}

/// The value of a `PhotoMeta`.
pub struct PhotoTag {
    pub rating: u8,
    pub label: Seq<char>,
    pub flagged: bool,
    pub rejected: bool,
}

/// The annotation of a photo nobody has annotated: rating 0, no label, not
/// flagged, not rejected.
pub open spec fn default_tag() -> PhotoTag {
    PhotoTag { rating: 0, label: Seq::empty(), flagged: false, rejected: false }
}

impl View for PhotoMeta {
    type V = PhotoTag;

    open spec fn view(&self) -> PhotoTag {
        PhotoTag {
            rating: self.rating,
            label: self.label@,
            flagged: self.flagged,
            rejected: self.rejected,
        }
    }
}

impl Clone for PhotoMeta {
    fn clone(&self) -> (copy: Self)
        ensures
            copy == *self,
    {
        PhotoMeta {
            rating: self.rating,
            label: self.label.clone(),
            flagged: self.flagged,
            rejected: self.rejected,
        }
    }
}

impl Default for PhotoMeta {
    fn default() -> (meta: Self)
        ensures
            meta@ == default_tag(),
    {
        PhotoMeta { rating: 0, label: String::new(), flagged: false, rejected: false }
    }
}

/// One photo of a scanned folder: where it is, what the file system says of
/// it, and the user's annotation.
#[derive(Debug, PartialEq, Eq)]
pub struct PhotoEntry {
    pub path: String,
    pub filename: String,
    pub size: u64,
    pub modified: u64,
    pub rating: u8,
    pub label: String,
    pub flagged: bool,
    pub rejected: bool,
}

/// The value of a `PhotoEntry`.
pub struct PhotoEntryView {
    pub path: Seq<char>,
    pub filename: Seq<char>,
    pub size: u64,
    pub modified: u64,
    pub rating: u8,
    pub label: Seq<char>,
    pub flagged: bool,
    pub rejected: bool,
}

impl PhotoEntryView {
    /// The annotation that the entry carries.
    pub open spec fn tag(self) -> PhotoTag {
        PhotoTag {
            rating: self.rating,
            label: self.label,
            flagged: self.flagged,
            rejected: self.rejected,
        }
    }
}

impl View for PhotoEntry {
    type V = PhotoEntryView;

    open spec fn view(&self) -> PhotoEntryView {
        PhotoEntryView {
            path: self.path@,
            filename: self.filename@,
            size: self.size,
            modified: self.modified,
            rating: self.rating,
            label: self.label@,
            flagged: self.flagged,
            rejected: self.rejected,
        }
    }
}

impl Clone for PhotoEntry {
    fn clone(&self) -> (copy: Self)
        ensures
            copy == *self,
    {
        PhotoEntry {
            path: self.path.clone(),
            filename: self.filename.clone(),
            size: self.size,
            modified: self.modified,
            rating: self.rating,
            label: self.label.clone(),
            flagged: self.flagged,
            rejected: self.rejected,
        }
    }
}

/// The photos of one folder, newest first.
#[derive(Debug, PartialEq, Eq)]
pub struct FolderScanResult {
    pub photos: Vec<PhotoEntry>,
    pub folder_path: String,
}

/// The value of a `FolderScanResult`.
pub struct FolderScanView {
    pub photos: Seq<PhotoEntryView>,
    pub folder_path: Seq<char>,
}

impl View for FolderScanResult {
    type V = FolderScanView;

    open spec fn view(&self) -> FolderScanView {
        FolderScanView { photos: views(self.photos@), folder_path: self.folder_path@ }
    }
}

/// One subfolder in a listing.
#[derive(Debug, PartialEq, Eq)]
pub struct FolderNode {
    pub name: String,
    pub path: String,
    pub has_children: bool,
}

/// The value of a `FolderNode`.
pub struct FolderNodeView {
    pub name: Seq<char>,
    pub path: Seq<char>,
    pub has_children: bool,
}

impl View for FolderNode {
    type V = FolderNodeView;

    open spec fn view(&self) -> FolderNodeView {
        FolderNodeView { name: self.name@, path: self.path@, has_children: self.has_children }
    }
}

impl Clone for FolderNode {
    fn clone(&self) -> (copy: Self)
        ensures
            copy == *self,
    {
        FolderNode {
            name: self.name.clone(),
            path: self.path.clone(),
            has_children: self.has_children,
        }
    }
}

/// The application's own state: the folders opened as workspaces and the one
/// that is active.
#[derive(Debug, PartialEq, Eq)]
pub struct AppData {
    pub workspaces: Vec<String>,
    pub active_workspace: Option<String>,
}

/// The value of an `AppData`.
pub struct AppDataView {
    pub workspaces: Seq<Seq<char>>,
    pub active_workspace: Option<Seq<char>>,
}

impl View for AppData {
    type V = AppDataView;

    open spec fn view(&self) -> AppDataView {
        AppDataView {
            workspaces: views(self.workspaces@),
            active_workspace: match self.active_workspace {
                Some(path) => Some(path@),
                None => None,
            },
        }
    }
}

impl Default for AppData {
    fn default() -> (data: Self)
        ensures
            data@.workspaces.len() == 0,
            data@.active_workspace is None,
    {
        AppData { workspaces: Vec::new(), active_workspace: None }
    }
}

/// Why an operation did not succeed.
#[derive(Debug, PartialEq, Eq)]
pub enum CatalogError {
    /// The named file does not exist.
    NotFound(String),
    /// A file of that name exists already.
    AlreadyExists(String),
    /// Reading or writing failed; the text is the system's.
    Io(String),
    /// A stored document is malformed; the text is the parser's.
    Parse(String),
}

/// The value of a `CatalogError`.
pub enum CatalogFault {
    NotFound(Seq<char>),
    AlreadyExists(Seq<char>),
    Io(Seq<char>),
    Parse(Seq<char>),
}

impl View for CatalogError {
    type V = CatalogFault;

    open spec fn view(&self) -> CatalogFault {
        match self {
            CatalogError::NotFound(name) => CatalogFault::NotFound(name@),
            CatalogError::AlreadyExists(name) => CatalogFault::AlreadyExists(name@),
            CatalogError::Io(text) => CatalogFault::Io(text@),
            CatalogError::Parse(text) => CatalogFault::Parse(text@),
        }
    }
}

impl CatalogFault {
    /// The message shown to the user.
    pub open spec fn message(self) -> Seq<char> {
        match self {
            CatalogFault::NotFound(name) => "文件不存在: "@ + name,
            CatalogFault::AlreadyExists(name) => "文件已存在: "@ + name,
            CatalogFault::Io(text) => text,
            CatalogFault::Parse(text) => text,
        }
    }
}

impl CatalogError {
    /// The message shown to the user.
    pub fn message(&self) -> (text: String)
        ensures
            text@ == self@.message(),
    {
        match self {
            CatalogError::NotFound(name) => "文件不存在: ".to_owned().concat(name.as_str()),
            CatalogError::AlreadyExists(name) => {
                "文件已存在: ".to_owned().concat(name.as_str())
            },
            CatalogError::Io(text) => text.clone(),
            CatalogError::Parse(text) => text.clone(),
        }
    }
}

} // verus!
