//! The folder scan: which of a folder's files are photos, what the sidecar
//! says of each, and the order in which they are shown.

use vstd::prelude::*;
use crate::arrange::{arrange, order_of, rank_of, Ranked};
use crate::extensions::{has_supported_extension, is_photo_name};
use crate::model::{
    default_tag, views, CatalogError, CatalogFault, FolderScanResult, PhotoEntry, PhotoEntryView,
};
use crate::order::{
    is_arrangement, is_connected, lemma_arrangement_is_unique, lemma_arrangement_keeps_length,
};
use crate::sidecar::{tag_or_default, Annotations, FolderMeta};
use crate::store::{load_tolerant, tolerant, StoredFile};

verus! {

/// What enumerating a folder found for one of its children.
#[derive(Debug, PartialEq, Eq)]
pub struct FileRecord {
    /// The child's full path.
    pub path: String,
    /// The last component of the path.
    pub filename: String,
    /// Whether the child is a regular file.
    pub is_file: bool,
    /// Its size in bytes, if the file system gave it.
    pub size: Option<u64>,
    /// When it was last modified, in milliseconds since the epoch, if the
    /// file system gave a time and that time is not before the epoch.
    pub modified: Option<u128>,
}

/// The value of a `FileRecord`.
pub struct FileRecordView {
    pub path: Seq<char>,
    pub filename: Seq<char>,
    pub is_file: bool,
    pub size: Option<u64>,
    pub modified: Option<u128>,
}

impl View for FileRecord {
    type V = FileRecordView;

    open spec fn view(&self) -> FileRecordView {
        FileRecordView {
            path: self.path@,
            filename: self.filename@,
            is_file: self.is_file,
            size: self.size,
            modified: self.modified,
        }
    }
}

/// The size shown for a file: what the file system gave, else 0.
pub open spec fn size_shown(size: Option<u64>) -> u64 {
    match size {
        Some(bytes) => bytes,
        None => 0,
    }
}

/// The time shown for a file: the milliseconds the file system gave, cut to
/// 64 bits, else 0.
pub open spec fn time_shown(modified: Option<u128>) -> u64 {
    match modified {
        Some(millis) => (millis % 0x1_0000_0000_0000_0000) as u64,
        None => 0,
    }
}

/// Whether the scan keeps a child: a regular file with a supported extension.
pub open spec fn is_photo(record: FileRecordView) -> bool {
    record.is_file && is_photo_name(record.filename)
}

/// The entry that the scan makes of a kept child.
pub open spec fn entry_of(photos: Annotations, record: FileRecordView) -> PhotoEntryView {
    let tag = tag_or_default(photos, record.filename);
    PhotoEntryView {
        path: record.path,
        filename: record.filename,
        size: size_shown(record.size),
        modified: time_shown(record.modified),
        rating: tag.rating,
        label: tag.label,
        flagged: tag.flagged,
        rejected: tag.rejected,
    }
}

/// The test `is_photo`.
pub open spec fn photo_test() -> spec_fn(FileRecordView) -> bool {
    |record: FileRecordView| is_photo(record)
}

/// The function `entry_of` for fixed annotations.
pub open spec fn entry_maker(photos: Annotations) -> spec_fn(FileRecordView) -> PhotoEntryView {
    |record: FileRecordView| entry_of(photos, record)
}

/// The entries of the photos among `found`, in the order of `found`.
pub open spec fn merged(photos: Annotations, found: Seq<FileRecordView>) -> Seq<PhotoEntryView> {
    found.filter(photo_test()).map_values(entry_maker(photos))
}

/// The rank by which photos are arranged: the time of last modification.
pub open spec fn photo_time() -> spec_fn(PhotoEntryView) -> u64 {
    |entry: PhotoEntryView| entry.modified
}

/// A later time precedes an earlier one.
pub open spec fn newer() -> spec_fn(u64, u64) -> bool {
    |a: u64, b: u64| a > b
}

/// The time shown for a file.
fn shown_time(modified: Option<u128>) -> (time: u64)
    ensures
        time == time_shown(modified),
{
    match modified {
        Some(millis) => (millis % 0x1_0000_0000_0000_0000) as u64,
        None => 0,
    }
}

/// The entries of the photos among `found`, each with the sidecar's
/// annotation for its file name or the default one, in the order of `found`.
pub fn merge_with_sidecar(
    sidecar: &FolderMeta,
    found: Vec<FileRecord>,
) -> (entries: Vec<PhotoEntry>)
    ensures
        views(entries@) == merged(sidecar@.photos, views(found@)),
{
    let mut entries: Vec<PhotoEntry> = Vec::new();
    let ghost all = found@;
    proof {
        assert(views(all.take(0)) =~= Seq::empty());
        assert(merged(sidecar@.photos, Seq::empty()) =~= Seq::empty()) by {
            reveal(Seq::filter);
        }
        assert(views(entries@) =~= Seq::empty());
    }
    for record in it: found
        invariant
            it.seq() == all,
            views(entries@) == merged(sidecar@.photos, views(all.take(it.index() as int))),
    {
        let ghost before = views(all.take(it.index() as int));
        let ghost old_entries = views(entries@);
        proof {
            assert(views(all.take(it.index() + 1)) =~= before.push(record@));
            before.lemma_filter_push(record@, photo_test());
        }
        if record.is_file && has_supported_extension(record.filename.as_str()) {
            let tag = sidecar.tag_for(record.filename.as_str());
            let size = match record.size {
                Some(bytes) => bytes,
                None => 0,
            };
            let entry = PhotoEntry {
                path: record.path,
                filename: record.filename,
                size,
                modified: shown_time(record.modified),
                rating: tag.rating,
                label: tag.label,
                flagged: tag.flagged,
                rejected: tag.rejected,
            };
            proof {
                assert(entry@ == entry_of(sidecar@.photos, record@));
                before.filter(photo_test()).lemma_push_map_commute(
                    entry_maker(sidecar@.photos),
                    record@,
                );
            }
            entries.push(entry);
            proof {
                assert(views(entries@) =~= old_entries.push(entry@));
            }
        }
    }
    proof {
        assert(all.take(all.len() as int) =~= all);
    }
    entries
}

impl Ranked for PhotoEntry {
    type Rank = u64;

    open spec fn rank(value: PhotoEntryView) -> u64 {
        value.modified
    }

    open spec fn precedes(a: u64, b: u64) -> bool {
        a > b
    }

    proof fn lemma_ranks_are_ordered(a: u64, b: u64, c: u64) {
    }

    fn comes_before(&self, other: &Self) -> (before: bool) {
        self.modified > other.modified
    }
}

/// Arranges entries newest first; entries of one time keep their order.
pub fn arrange_newest_first(entries: Vec<PhotoEntry>) -> (arranged: Vec<PhotoEntry>)
    ensures
        is_arrangement(views(entries@), views(arranged@), photo_time(), newer()),
{
    proof {
        assert(rank_of::<PhotoEntry>() =~= photo_time());
        assert(order_of::<PhotoEntry>() =~= newer());
    }
    arrange(entries)
}

/// Of an arrangement of the photos among `found`: there are as many entries
/// as photos, each carries the annotation that `photos` holds for its file
/// name or the default one, and no entry is newer than one before it.
pub proof fn lemma_scan_shows_every_photo(
    photos: Annotations,
    found: Seq<FileRecordView>,
    shown: Seq<PhotoEntryView>,
)
    requires
        is_arrangement(merged(photos, found), shown, photo_time(), newer()),
    ensures
        shown.len() == found.filter(photo_test()).len(),
        forall|i: int|
            0 <= i < shown.len() ==> (#[trigger] shown[i]).tag() == tag_or_default(
                photos,
                shown[i].filename,
            ),
        forall|i: int, j: int|
            0 <= i < j < shown.len() ==> (#[trigger] shown[i]).modified >= (
            #[trigger] shown[j]).modified,
{
    let source = merged(photos, found);
    lemma_arrangement_keeps_length(source, shown, photo_time(), newer());
    assert forall|i: int| 0 <= i < shown.len() implies (#[trigger] shown[i]).tag()
        == tag_or_default(photos, shown[i].filename) by {
        vstd::seq_lib::to_multiset_contains(shown, shown[i]);
        vstd::seq_lib::to_multiset_contains(source, shown[i]);
        assert(shown.contains(shown[i]));
        let j = choose|j: int| 0 <= j < source.len() && source[j] == shown[i];
        assert(source[j] == entry_of(photos, found.filter(photo_test())[j]));
    }
    assert forall|i: int, j: int| 0 <= i < j < shown.len() implies (#[trigger] shown[i]).modified
        >= (#[trigger] shown[j]).modified by {
        assert(!newer()(photo_time()(shown[j]), photo_time()(shown[i])));
    }
}

/// Entries have one arrangement newest first only.
pub proof fn lemma_newest_first_is_unique(
    entries: Seq<PhotoEntryView>,
    first: Seq<PhotoEntryView>,
    second: Seq<PhotoEntryView>,
)
    requires
        is_arrangement(entries, first, photo_time(), newer()),
        is_arrangement(entries, second, photo_time(), newer()),
    ensures
        first == second,
{
    assert(is_connected(newer()));
    lemma_arrangement_is_unique(entries, first, second, photo_time(), newer());
}

/// Scans a folder from what was read of it: `sidecar` is what reading the
/// folder's sidecar gave, `listing` the folder's children, or the system's
/// message where the folder could not be enumerated. Only that failure fails
/// the scan. Otherwise the result holds one entry for each regular file with
/// a supported extension, annotated from the sidecar, loaded tolerantly,
/// newest first, entries of one time in the order of the listing.
pub fn scan_folder(
    folder_path: String,
    sidecar: StoredFile<FolderMeta>,
    listing: Result<Vec<FileRecord>, String>,
) -> (scanned: Result<FolderScanResult, CatalogError>)
    ensures
        match listing {
            Err(text) => scanned matches Err(error) && error@ == CatalogFault::Io(text@),
            Ok(found) => scanned matches Ok(scan) && {
                &&& scan@.folder_path == folder_path@
                &&& is_arrangement(
                    merged(tolerant(sidecar).photos, views(found@)),
                    scan@.photos,
                    photo_time(),
                    newer(),
                )
                &&& scan@.photos.len() == views(found@).filter(photo_test()).len()
                &&& forall|i: int|
                    0 <= i < scan@.photos.len() ==> (#[trigger] scan@.photos[i]).tag()
                        == tag_or_default(tolerant(sidecar).photos, scan@.photos[i].filename)
                &&& forall|i: int, j: int|
                    0 <= i < j < scan@.photos.len() ==> (#[trigger] scan@.photos[i]).modified >= (
                    #[trigger] scan@.photos[j]).modified
                &&& !(sidecar is Parsed) ==> forall|i: int|
                    0 <= i < scan@.photos.len() ==> (#[trigger] scan@.photos[i]).tag()
                        == default_tag()
            },
        },
{
    match listing {
        Err(text) => Err(CatalogError::Io(text)),
        Ok(found) => {
            let ghost records = views(found@);
            let meta = load_tolerant(sidecar);
            let entries = merge_with_sidecar(&meta, found);
            let photos = arrange_newest_first(entries);
            let scan = FolderScanResult { photos, folder_path };
            proof {
                lemma_scan_shows_every_photo(meta@.photos, records, scan@.photos);
            }
            Ok(scan)
        },
    }
}

} // verus!
