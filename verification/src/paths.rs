//! The paths of the files that the library asks its caller to touch.

use vstd::prelude::*;

verus! {

/// The file name of a folder's sidecar.
pub const SIDECAR_FILE_NAME: &'static str = ".photo_meta.json";

/// The file name of the application's state, in the directory that the
/// application owns.
pub const APP_DATA_FILE_NAME: &'static str = "data.json";

/// What replaces a document's extension in the name of the temporary file
/// that is written before the document is replaced.
pub const TEMPORARY_EXTENSION: &'static str = "json.tmp";

/// The path that `std::path::Path::join` makes of a folder's path and a
/// name under it, by the rules of the platform.
pub uninterp spec fn adjoined(base: Seq<char>, name: Seq<char>) -> Seq<char>;

/// Calls `std::path::Path::join`, which adjoins `name` to `base` with the
/// platform's separator where one is needed, and lets an absolute `name`
/// replace `base`. Both parts are text, so the joined path is text too.
/// Nothing is claimed of it but that it is the function `adjoined` of the
/// two parts.
#[verifier::external_body]
pub(crate) fn adjoin(base: &str, name: &str) -> (path: String)
    ensures
        path@ == adjoined(base@, name@),
{
    std::path::Path::new(base).join(name).to_string_lossy().into_owned()
}

/// The path that `std::path::Path::with_extension` makes of a path and a
/// new extension.
pub uninterp spec fn with_extension(path: Seq<char>, extension: Seq<char>) -> Seq<char>;

/// Calls `std::path::Path::with_extension`, which puts `extension` in place
/// of the extension of the path's last component, or adds it where there is
/// none. It panics on an extension that holds a path separator, so none may
/// be given. Nothing is claimed of the result but that it is the function
/// `with_extension` of the two parts.
#[verifier::external_body]
pub(crate) fn replace_extension(path: &str, extension: &str) -> (changed: String)
    requires
        !extension@.contains('/'),
        !extension@.contains('\\'),
    ensures
        changed@ == with_extension(path@, extension@),
{
    std::path::Path::new(path).with_extension(extension).to_string_lossy().into_owned()
}

/// The path of the sidecar of the folder at `folder_path`.
pub fn folder_meta_file(folder_path: &str) -> (path: String)
    ensures
        path@ == adjoined(folder_path@, SIDECAR_FILE_NAME@),
{
    adjoin(folder_path, SIDECAR_FILE_NAME)
}

/// The path of the application's state, given the directory that the
/// application owns.
pub fn app_data_file(data_dir: &str) -> (path: String)
    ensures
        path@ == adjoined(data_dir@, APP_DATA_FILE_NAME@),
{
    adjoin(data_dir, APP_DATA_FILE_NAME)
}

/// The path of the temporary file that is written, and then renamed, to
/// replace the document at `path` all at once.
pub fn temporary_file(path: &str) -> (temporary: String)
    ensures
        temporary@ == with_extension(path@, TEMPORARY_EXTENSION@),
{
    proof {
        reveal_strlit("json.tmp");
    }
    replace_extension(path, TEMPORARY_EXTENSION)
}

} // verus!
