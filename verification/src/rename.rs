//! Renaming a photo: which step follows which answer of the file system.
//!
//! The caller performs each action and reports what came of it as the next
//! event; the library decides what to do then. The file is moved first and
//! the sidecar rewritten after, in two steps: a caller that is interrupted
//! between them leaves the file renamed and its annotation under the old
//! name.

use vstd::prelude::*;
use crate::model::{CatalogError, CatalogFault};
use crate::paths::{adjoin, adjoined, SIDECAR_FILE_NAME};
use crate::sidecar::{rekeyed, Annotations, FolderMeta, FolderMetaView};
use crate::store::{load_tolerant, tolerant, StoredFile};

verus! {

/// What the caller reports.
#[derive(Debug, PartialEq, Eq)]
pub enum RenameEvent {
    /// The rename was asked for; nothing has been done yet.
    Requested,
    /// Whether the file to rename exists.
    SourceProbed(bool),
    /// Whether something exists under the new name.
    DestinationProbed(bool),
    /// The file was moved, or the system's message where it was not.
    FileMoved(Result<(), String>),
    /// What reading the folder's sidecar gave.
    SidecarRead(StoredFile<FolderMeta>),
    /// The sidecar was written, or the system's message where it was not.
    SidecarWritten(Result<(), String>),
}

/// What the caller is to do next.
#[derive(Debug, PartialEq, Eq)]
pub enum RenameAction {
    /// Find out whether the file at this path exists.
    ProbeSource(String),
    /// Find out whether anything exists at this path.
    ProbeDestination(String),
    /// Move the file.
    MoveFile { from: String, to: String },
    /// Read the sidecar at this path.
    ReadSidecar(String),
    /// Write this sidecar to this path, all or nothing.
    WriteSidecar { path: String, meta: FolderMeta },
    /// Stop: the rename is done, or has failed.
    Finish(Result<(), CatalogError>),
}

/// The value of a `RenameAction`.
pub enum RenameStep {
    ProbeSource(Seq<char>),
    ProbeDestination(Seq<char>),
    MoveFile { from: Seq<char>, to: Seq<char> },
    ReadSidecar(Seq<char>),
    WriteSidecar { path: Seq<char>, meta: FolderMetaView },
    Finish(Result<(), CatalogFault>),
}

impl View for RenameAction {
    type V = RenameStep;

    open spec fn view(&self) -> RenameStep {
        match self {
            RenameAction::ProbeSource(path) => RenameStep::ProbeSource(path@),
            RenameAction::ProbeDestination(path) => RenameStep::ProbeDestination(path@),
            RenameAction::MoveFile { from, to } => RenameStep::MoveFile { from: from@, to: to@ },
            RenameAction::ReadSidecar(path) => RenameStep::ReadSidecar(path@),
            RenameAction::WriteSidecar { path, meta } => RenameStep::WriteSidecar {
                path: path@,
                meta: meta@,
            },
            RenameAction::Finish(Ok(())) => RenameStep::Finish(Ok(())),
            RenameAction::Finish(Err(error)) => RenameStep::Finish(Err(error@)),
        }
    }
}

impl RenameStep {
    /// Whether the step changes anything on disk.
    pub open spec fn changes_disk(self) -> bool {
        self is MoveFile || self is WriteSidecar
    }
}

/// The step that follows an event, in the rename of `old_name` to
/// `new_name` in the folder at `folder`.
pub open spec fn next_step(
    folder: Seq<char>,
    old_name: Seq<char>,
    new_name: Seq<char>,
    event: RenameEvent,
) -> RenameStep {
    match event {
        RenameEvent::Requested => RenameStep::ProbeSource(adjoined(folder, old_name)),
        RenameEvent::SourceProbed(exists) => if exists {
            RenameStep::ProbeDestination(adjoined(folder, new_name))
        } else {
            RenameStep::Finish(Err(CatalogFault::NotFound(old_name)))
        },
        RenameEvent::DestinationProbed(exists) => if exists {
            RenameStep::Finish(Err(CatalogFault::AlreadyExists(new_name)))
        } else {
            RenameStep::MoveFile {
                from: adjoined(folder, old_name),
                to: adjoined(folder, new_name),
            }
        },
        RenameEvent::FileMoved(Ok(_)) => RenameStep::ReadSidecar(
            adjoined(folder, SIDECAR_FILE_NAME@),
        ),
        RenameEvent::FileMoved(Err(text)) => RenameStep::Finish(Err(CatalogFault::Io(text@))),
        RenameEvent::SidecarRead(file) => {
            let stored = tolerant(file);
            if stored.photos.contains_key(old_name) {
                RenameStep::WriteSidecar {
                    path: adjoined(folder, SIDECAR_FILE_NAME@),
                    meta: FolderMetaView {
                        version: stored.version,
                        photos: rekeyed(stored.photos, old_name, new_name),
                    },
                }
            } else {
                RenameStep::Finish(Ok(()))
            }
        },
        RenameEvent::SidecarWritten(Ok(_)) => RenameStep::Finish(Ok(())),
        RenameEvent::SidecarWritten(Err(text)) => RenameStep::Finish(Err(CatalogFault::Io(text@))),
    }
}

/// Whether `event` reports what came of `step`.
pub open spec fn answers(step: RenameStep, event: RenameEvent) -> bool {
    match step {
        RenameStep::ProbeSource(_) => event is SourceProbed,
        RenameStep::ProbeDestination(_) => event is DestinationProbed,
        RenameStep::MoveFile { .. } => event is FileMoved,
        RenameStep::ReadSidecar(_) => event is SidecarRead,
        RenameStep::WriteSidecar { .. } => event is SidecarWritten,
        RenameStep::Finish(_) => false,
    }
}

/// Whether `events` is what a caller reports in the course of one rename:
/// first the request, then the outcome of each step taken.
pub open spec fn is_run(
    folder: Seq<char>,
    old_name: Seq<char>,
    new_name: Seq<char>,
    events: Seq<RenameEvent>,
) -> bool {
    &&& events.len() > 0
    &&& events[0] is Requested
    &&& forall|i: int|
        0 < i < events.len() ==> answers(
            next_step(folder, old_name, new_name, events[i - 1]),
            #[trigger] events[i],
        )
}

/// The next action in the rename of `old_name` to `new_name` in the folder
/// at `folder_path`, given what the caller reports. The source must exist
/// and the destination must not, and both are asked before anything is
/// changed. A sidecar that is missing or cannot be used counts as empty; it
/// is rewritten only where it holds an annotation for `old_name`.
pub fn rename_photo(
    folder_path: &str,
    old_name: &str,
    new_name: &str,
    event: RenameEvent,
) -> (action: RenameAction)
    ensures
        action@ == next_step(folder_path@, old_name@, new_name@, event),
{
    match event {
        RenameEvent::Requested => RenameAction::ProbeSource(adjoin(folder_path, old_name)),
        RenameEvent::SourceProbed(exists) => if exists {
            RenameAction::ProbeDestination(adjoin(folder_path, new_name))
        } else {
            RenameAction::Finish(Err(CatalogError::NotFound(old_name.to_owned())))
        },
        RenameEvent::DestinationProbed(exists) => if exists {
            RenameAction::Finish(Err(CatalogError::AlreadyExists(new_name.to_owned())))
        } else {
            RenameAction::MoveFile {
                from: adjoin(folder_path, old_name),
                to: adjoin(folder_path, new_name),
            }
        },
        RenameEvent::FileMoved(Ok(_)) => RenameAction::ReadSidecar(
            adjoin(folder_path, SIDECAR_FILE_NAME),
        ),
        RenameEvent::FileMoved(Err(text)) => RenameAction::Finish(Err(CatalogError::Io(text))),
        RenameEvent::SidecarRead(file) => {
            let mut meta = load_tolerant(file);
            if meta.rekey(old_name, new_name.to_owned()) {
                RenameAction::WriteSidecar { path: adjoin(folder_path, SIDECAR_FILE_NAME), meta }
            } else {
                RenameAction::Finish(Ok(()))
            }
        },
        RenameEvent::SidecarWritten(Ok(_)) => RenameAction::Finish(Ok(())),
        RenameEvent::SidecarWritten(Err(text)) => RenameAction::Finish(Err(CatalogError::Io(text))),
    }
}

/// Moving an annotation leaves it under the new name and, where the names
/// differ, not under the old one; every other name keeps what it had. Where
/// the old name has no annotation, nothing changes.
pub proof fn lemma_rekey_moves_one_annotation(
    photos: Annotations,
    old_name: Seq<char>,
    new_name: Seq<char>,
)
    ensures
        photos.contains_key(old_name) ==> {
            &&& rekeyed(photos, old_name, new_name).contains_key(new_name)
            &&& rekeyed(photos, old_name, new_name)[new_name] == photos[old_name]
            &&& old_name != new_name ==> !rekeyed(photos, old_name, new_name).contains_key(old_name)
        },
        !photos.contains_key(old_name) ==> rekeyed(photos, old_name, new_name) == photos,
        forall|other: Seq<char>|
            other != old_name && other != new_name ==> {
                &&& rekeyed(photos, old_name, new_name).contains_key(other) == photos.contains_key(
                    other,
                )
                &&& photos.contains_key(other) ==> #[trigger] rekeyed(
                    photos,
                    old_name,
                    new_name,
                )[other] == photos[other]
            },
{
}

/// Where the sidecar holds an annotation for the old name, the rename writes
/// it back with that annotation under the new name and, where the names
/// differ, none under the old one. Where it holds none, or cannot be used,
/// the rename ends without writing.
pub proof fn lemma_rename_moves_the_annotation(
    folder: Seq<char>,
    old_name: Seq<char>,
    new_name: Seq<char>,
    file: StoredFile<FolderMeta>,
)
    ensures
        tolerant(file).photos.contains_key(old_name) ==> {
            &&& next_step(folder, old_name, new_name, RenameEvent::SidecarRead(file))
                matches RenameStep::WriteSidecar { meta, .. }
            &&& meta.version == tolerant(file).version
            &&& meta.photos.contains_key(new_name)
            &&& meta.photos[new_name] == tolerant(file).photos[old_name]
            &&& old_name != new_name ==> !meta.photos.contains_key(old_name)
        },
        !tolerant(file).photos.contains_key(old_name) ==> next_step(
            folder,
            old_name,
            new_name,
            RenameEvent::SidecarRead(file),
        ) == RenameStep::Finish(Ok(())),
        !(file is Parsed) ==> next_step(folder, old_name, new_name, RenameEvent::SidecarRead(file))
            == RenameStep::Finish(Ok(())),
{
}

/// In a rename, nothing on disk is changed before the source was found to
/// exist and the destination found to be free.
pub proof fn lemma_rename_asks_before_it_changes(
    folder: Seq<char>,
    old_name: Seq<char>,
    new_name: Seq<char>,
    events: Seq<RenameEvent>,
    at: int,
)
    requires
        is_run(folder, old_name, new_name, events),
        0 <= at < events.len(),
        next_step(folder, old_name, new_name, events[at]).changes_disk(),
    ensures
        at >= 2,
        events[1] == RenameEvent::SourceProbed(true),
        events[2] == RenameEvent::DestinationProbed(false),
{
    lemma_run_begins_with_probes(folder, old_name, new_name, events);
}

/// A run begins with the request and the two probes, in that order, and
/// holds no second request or probe.
proof fn lemma_run_begins_with_probes(
    folder: Seq<char>,
    old_name: Seq<char>,
    new_name: Seq<char>,
    events: Seq<RenameEvent>,
)
    requires
        is_run(folder, old_name, new_name, events),
    ensures
        forall|i: int| 0 <= i < events.len() ==> ((#[trigger] events[i]) is Requested <==> i == 0),
        forall|i: int|
            0 <= i < events.len() ==> ((#[trigger] events[i]) is SourceProbed <==> i == 1),
        forall|i: int|
            0 <= i < events.len() ==> ((#[trigger] events[i]) is DestinationProbed <==> i == 2),
        events.len() > 2 ==> events[1] == RenameEvent::SourceProbed(true),
        events.len() > 3 ==> events[2] == RenameEvent::DestinationProbed(false),
{
    assert forall|i: int| 0 <= i < events.len() implies ((#[trigger] events[i]) is Requested <==> i
        == 0) by {
        if i > 0 {
            assert(answers(next_step(folder, old_name, new_name, events[i - 1]), events[i]));
        }
    }
    assert forall|i: int| 0 <= i < events.len() implies ((#[trigger] events[i]) is SourceProbed
        <==> i == 1) by {
        if i > 0 {
            assert(answers(next_step(folder, old_name, new_name, events[i - 1]), events[i]));
            if i > 1 {
                assert(!(events[i - 1] is Requested));
            }
        }
    }
    assert forall|i: int| 0 <= i < events.len() implies ((#[trigger] events[i])
        is DestinationProbed <==> i == 2) by {
        if i > 0 {
            assert(answers(next_step(folder, old_name, new_name, events[i - 1]), events[i]));
            if i != 2 {
                assert(!(events[i - 1] is SourceProbed));
            } else {
                assert(events[1] is SourceProbed);
            }
        }
    }
    if events.len() > 2 {
        assert(answers(next_step(folder, old_name, new_name, events[1]), events[2]));
    }
    if events.len() > 3 {
        assert(answers(next_step(folder, old_name, new_name, events[2]), events[3]));
    }
}

/// Where the file to rename does not exist, the rename ends there with
/// `NotFound`, and no step of it changes anything on disk.
pub proof fn lemma_missing_source_stops_rename(
    folder: Seq<char>,
    old_name: Seq<char>,
    new_name: Seq<char>,
    events: Seq<RenameEvent>,
    at: int,
)
    requires
        is_run(folder, old_name, new_name, events),
        0 <= at < events.len(),
        events[at] == RenameEvent::SourceProbed(false),
    ensures
        at == events.len() - 1,
        next_step(folder, old_name, new_name, events[at]) == RenameStep::Finish(
            Err(CatalogFault::NotFound(old_name)),
        ),
        forall|i: int|
            0 <= i < events.len() ==> !next_step(
                folder,
                old_name,
                new_name,
                #[trigger] events[i],
            ).changes_disk(),
{
    lemma_run_begins_with_probes(folder, old_name, new_name, events);
    if events.len() > 2 {
        assert(answers(next_step(folder, old_name, new_name, events[1]), events[2]));
    }
}

/// Where the destination exists already, the rename ends there with
/// `AlreadyExists`, and no step of it changes anything on disk.
pub proof fn lemma_existing_destination_stops_rename(
    folder: Seq<char>,
    old_name: Seq<char>,
    new_name: Seq<char>,
    events: Seq<RenameEvent>,
    at: int,
)
    requires
        is_run(folder, old_name, new_name, events),
        0 <= at < events.len(),
        events[at] == RenameEvent::DestinationProbed(true),
    ensures
        at == events.len() - 1,
        next_step(folder, old_name, new_name, events[at]) == RenameStep::Finish(
            Err(CatalogFault::AlreadyExists(new_name)),
        ),
        forall|i: int|
            0 <= i < events.len() ==> !next_step(
                folder,
                old_name,
                new_name,
                #[trigger] events[i],
            ).changes_disk(),
{
    lemma_run_begins_with_probes(folder, old_name, new_name, events);
    assert(at == 2);
    if events.len() > 3 {
        assert(answers(next_step(folder, old_name, new_name, events[2]), events[3]));
    }
    assert forall|i: int| 0 <= i < events.len() implies !next_step(
        folder,
        old_name,
        new_name,
        #[trigger] events[i],
    ).changes_disk() by {
        if i == 1 {
            assert(events[1] is SourceProbed);
        }
    }
}

} // verus!
