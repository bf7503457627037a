//! The per-folder sidecar: the annotations of a folder's photos, keyed by
//! file name, and the two ways of loading it.

use vstd::prelude::*;
use crate::model::{default_tag, PhotoMeta, PhotoTag};
use crate::text::same_text;

verus! {

/// The annotation stored for one file name.
#[derive(Debug, PartialEq, Eq)]
pub struct SidecarEntry {
    pub filename: String,
    pub meta: PhotoMeta,
}

impl Clone for SidecarEntry {
    fn clone(&self) -> (copy: Self)
        ensures
            copy == *self,
    {
        SidecarEntry { filename: self.filename.clone(), meta: self.meta.clone() }
    }
}

/// The content of a folder's sidecar: a schema version and one annotation
/// per file name. No file name occurs twice; entries keep the order in which
/// their names were first inserted. Two sidecars are equal under `==` when
/// they hold the same entries in the same order.
#[derive(Debug, PartialEq, Eq)]
pub struct FolderMeta {
    version: u32,
    entries: Vec<SidecarEntry>,
}

/// Annotations by file name.
pub type Annotations = Map<Seq<char>, PhotoTag>;

/// The value of a `FolderMeta`.
pub struct FolderMetaView {
    pub version: u32,
    pub photos: Annotations,
}

/// The sidecar of a folder that has none: version 1 and no annotations.
pub open spec fn empty_sidecar() -> FolderMetaView {
    FolderMetaView { version: 1, photos: Map::empty() }
}

/// The annotation that `photos` holds for `name`, or the default one.
pub open spec fn tag_or_default(photos: Annotations, name: Seq<char>) -> PhotoTag {
    if photos.contains_key(name) {
        photos[name]
    } else {
        default_tag()
    }
}

/// What moving the annotation of `old_name` to `new_name` makes of `photos`:
/// unchanged where `old_name` has none.
pub open spec fn rekeyed(
    photos: Annotations,
    old_name: Seq<char>,
    new_name: Seq<char>,
) -> Annotations {
    if photos.contains_key(old_name) {
        photos.remove(old_name).insert(new_name, photos[old_name])
    } else {
        photos
    }
}

/// Whether the entries listed are exactly the annotations of `photos`, each
/// name once.
pub open spec fn lists(entries: Seq<SidecarEntry>, photos: Annotations) -> bool {
    &&& forall|i: int, j: int|
        0 <= i < j < entries.len() ==> (#[trigger] entries[i]).filename@ != (
        #[trigger] entries[j]).filename@
    &&& forall|i: int|
        0 <= i < entries.len() ==> photos.contains_key((#[trigger] entries[i]).filename@)
            && photos[entries[i].filename@] == entries[i].meta@
    &&& forall|name: Seq<char>| #[trigger]
        photos.contains_key(name) ==> exists|i: int|
            0 <= i < entries.len() && (#[trigger] entries[i]).filename@ == name
}

/// Whether an entry of this name is among `entries`.
spec fn holds_name(entries: Seq<SidecarEntry>, name: Seq<char>) -> bool {
    exists|i: int| 0 <= i < entries.len() && (#[trigger] entries[i]).filename@ == name
}

/// Where an entry of this name stands among `entries`.
spec fn place_of(entries: Seq<SidecarEntry>, name: Seq<char>) -> int {
    choose|i: int| 0 <= i < entries.len() && (#[trigger] entries[i]).filename@ == name
}

/// No two entries have one name.
spec fn distinct_names(entries: Seq<SidecarEntry>) -> bool {
    forall|i: int, j: int|
        0 <= i < j < entries.len() ==> (#[trigger] entries[i]).filename@ != (
        #[trigger] entries[j]).filename@
}

/// The annotations that `entries` holds, by name.
spec fn tags_of(entries: Seq<SidecarEntry>) -> Annotations {
    Map::new(
        |name: Seq<char>| holds_name(entries, name),
        |name: Seq<char>| entries[place_of(entries, name)].meta@,
    )
}

/// Among distinct names, a name is found where it stands.
proof fn lemma_place_of(entries: Seq<SidecarEntry>, i: int)
    requires
        distinct_names(entries),
        0 <= i < entries.len(),
    ensures
        holds_name(entries, entries[i].filename@),
        place_of(entries, entries[i].filename@) == i,
        tags_of(entries)[entries[i].filename@] == entries[i].meta@,
{
    let name = entries[i].filename@;
    assert(holds_name(entries, name));
    let p = place_of(entries, name);
    if p < i {
        assert(entries[p].filename@ != entries[i].filename@);
    } else if i < p {
        assert(entries[i].filename@ != entries[p].filename@);
    }
}

/// Entries of distinct names list their own annotations.
proof fn lemma_tags_listed(entries: Seq<SidecarEntry>)
    requires
        distinct_names(entries),
    ensures
        lists(entries, tags_of(entries)),
{
    assert forall|i: int| 0 <= i < entries.len() implies tags_of(entries).contains_key(
        (#[trigger] entries[i]).filename@,
    ) && tags_of(entries)[entries[i].filename@] == entries[i].meta@ by {
        lemma_place_of(entries, i);
    }
}

/// Putting a new annotation in the place of the one that a name has.
proof fn lemma_replaced(entries: Seq<SidecarEntry>, i: int, entry: SidecarEntry)
    requires
        distinct_names(entries),
        0 <= i < entries.len(),
        entries[i].filename@ == entry.filename@,
    ensures
        distinct_names(entries.update(i, entry)),
        tags_of(entries.update(i, entry)) == tags_of(entries).insert(entry.filename@, entry.meta@),
{
    let after = entries.update(i, entry);
    assert forall|a: int, b: int| 0 <= a < b < after.len() implies (#[trigger] after[a]).filename@
        != (#[trigger] after[b]).filename@ by {
        assert(after[a].filename@ == entries[a].filename@);
        assert(after[b].filename@ == entries[b].filename@);
    }
    assert forall|name: Seq<char>| holds_name(after, name) == holds_name(entries, name) by {
        if holds_name(after, name) {
            assert(entries[place_of(after, name)].filename@ == name);
        }
        if holds_name(entries, name) {
            assert(after[place_of(entries, name)].filename@ == name);
        }
    }
    assert(holds_name(entries, entry.filename@));
    assert forall|name: Seq<char>| holds_name(after, name) implies tags_of(after)[name] == tags_of(
        entries,
    ).insert(entry.filename@, entry.meta@)[name] by {
        let p = place_of(after, name);
        lemma_place_of(after, p);
        assert(entries[p].filename@ == name);
        lemma_place_of(entries, p);
    }
    assert(tags_of(after) =~= tags_of(entries).insert(entry.filename@, entry.meta@));
}

/// Adding an annotation for a name that has none.
proof fn lemma_appended(entries: Seq<SidecarEntry>, entry: SidecarEntry)
    requires
        distinct_names(entries),
        !holds_name(entries, entry.filename@),
    ensures
        distinct_names(entries.push(entry)),
        tags_of(entries.push(entry)) == tags_of(entries).insert(entry.filename@, entry.meta@),
{
    let after = entries.push(entry);
    let last = entries.len() as int;
    assert forall|a: int, b: int| 0 <= a < b < after.len() implies (#[trigger] after[a]).filename@
        != (#[trigger] after[b]).filename@ by {
        assert(after[a] == entries[a]);
        if b < last {
            assert(after[b] == entries[b]);
        }
    }
    assert forall|name: Seq<char>|
        holds_name(after, name) == (name == entry.filename@ || holds_name(entries, name)) by {
        if holds_name(after, name) {
            let p = place_of(after, name);
            if p < last {
                assert(entries[p].filename@ == name);
            }
        }
        if holds_name(entries, name) {
            assert(after[place_of(entries, name)].filename@ == name);
        }
        assert(after[last].filename@ == entry.filename@);
    }
    assert forall|name: Seq<char>| holds_name(after, name) implies tags_of(after)[name] == tags_of(
        entries,
    ).insert(entry.filename@, entry.meta@)[name] by {
        let p = place_of(after, name);
        lemma_place_of(after, p);
        if p < last {
            assert(entries[p] == after[p]);
            lemma_place_of(entries, p);
        }
    }
    assert(tags_of(after) =~= tags_of(entries).insert(entry.filename@, entry.meta@));
}

/// Taking out the annotation that a name has.
proof fn lemma_removed(entries: Seq<SidecarEntry>, i: int)
    requires
        distinct_names(entries),
        0 <= i < entries.len(),
    ensures
        distinct_names(entries.remove(i)),
        tags_of(entries.remove(i)) == tags_of(entries).remove(entries[i].filename@),
{
    let after = entries.remove(i);
    let gone = entries[i].filename@;
    let place_before = |p: int| if p < i { p } else { p + 1 };
    assert forall|a: int| 0 <= a < after.len() implies #[trigger] after[a] == entries[place_before(
        a,
    )] by {}
    assert forall|a: int, b: int| 0 <= a < b < after.len() implies (#[trigger] after[a]).filename@
        != (#[trigger] after[b]).filename@ by {
        assert(after[a] == entries[place_before(a)] && after[b] == entries[place_before(b)]);
    }
    assert forall|name: Seq<char>|
        holds_name(after, name) == (name != gone && holds_name(entries, name)) by {
        if holds_name(after, name) {
            let p = place_before(place_of(after, name));
            assert(entries[p].filename@ == name);
            lemma_place_of(entries, p);
            lemma_place_of(entries, i);
        }
        if name != gone && holds_name(entries, name) {
            let p = place_of(entries, name);
            assert(after[if p < i { p } else { p - 1 }].filename@ == name);
        }
    }
    assert forall|name: Seq<char>| holds_name(after, name) implies tags_of(after)[name] == tags_of(
        entries,
    )[name] by {
        let p = place_of(after, name);
        lemma_place_of(after, p);
        assert(entries[place_before(p)] == after[p]);
        lemma_place_of(entries, place_before(p));
    }
    assert(tags_of(after) =~= tags_of(entries).remove(gone));
}

/// Where the entry of this name stands, if there is one.
fn find(entries: &Vec<SidecarEntry>, filename: &str) -> (place: Option<usize>)
    ensures
        match place {
            Some(i) => i < entries@.len() && entries@[i as int].filename@ == filename@,
            None => !holds_name(entries@, filename@),
        },
{
    let mut i: usize = 0;
    while i < entries.len()
        invariant
            i <= entries@.len(),
            forall|j: int| 0 <= j < i ==> (#[trigger] entries@[j]).filename@ != filename@,
        decreases entries@.len() - i,
    {
        if same_text(entries[i].filename.as_str(), filename) {
            return Some(i);
        }
        i += 1;
    }
    None
}

/// Stores an annotation under a name, in place of the one it had.
fn put(entries: &mut Vec<SidecarEntry>, filename: String, meta: PhotoMeta)
    requires
        distinct_names(old(entries)@),
    ensures
        distinct_names(final(entries)@),
        tags_of(final(entries)@) == tags_of(old(entries)@).insert(filename@, meta@),
{
    let entry = SidecarEntry { filename, meta };
    match find(entries, entry.filename.as_str()) {
        Some(i) => {
            proof {
                lemma_replaced(entries@, i as int, entry);
            }
            entries.set(i, entry);
        },
        None => {
            proof {
                lemma_appended(entries@, entry);
            }
            entries.push(entry);
        },
    }
}

/// Takes out the annotation of a name.
fn take_out(entries: &mut Vec<SidecarEntry>, filename: &str) -> (removed: Option<PhotoMeta>)
    requires
        distinct_names(old(entries)@),
    ensures
        distinct_names(final(entries)@),
        tags_of(final(entries)@) == tags_of(old(entries)@).remove(filename@),
        removed is Some <==> tags_of(old(entries)@).contains_key(filename@),
        removed matches Some(meta) ==> meta@ == tags_of(old(entries)@)[filename@],
{
    match find(entries, filename) {
        Some(i) => {
            proof {
                lemma_place_of(entries@, i as int);
                lemma_removed(entries@, i as int);
            }
            Some(entries.remove(i).meta)
        },
        None => {
            proof {
                assert(tags_of(entries@) =~= tags_of(entries@).remove(filename@));
            }
            None
        },
    }
}

impl View for FolderMeta {
    type V = FolderMetaView;

    closed spec fn view(&self) -> FolderMetaView {
        FolderMetaView { version: self.version, photos: tags_of(self.entries@) }
    }
}

impl FolderMeta {
    #[verifier::type_invariant]
    spec fn names_are_distinct(self) -> bool {
        distinct_names(self.entries@)
    }

    /// An empty sidecar of the current schema version.
    pub fn new() -> (meta: Self)
        ensures
            meta@ == empty_sidecar(),
    {
        let meta = FolderMeta { version: default_version(), entries: Vec::new() };
        assert(meta@.photos =~= Map::empty());
        meta
    }

    /// An empty sidecar that records the given schema version.
    pub fn with_version(version: u32) -> (meta: Self)
        ensures
            meta@.version == version,
            meta@.photos == Annotations::empty(),
    {
        let meta = FolderMeta { version, entries: Vec::new() };
        assert(meta@.photos =~= Map::empty());
        meta
    }

    /// The schema version.
    pub fn version(&self) -> (version: u32)
        ensures
            version == self@.version,
    {
        self.version
    }

    /// The entries, in the order in which their names were first inserted.
    pub fn entries(&self) -> (entries: &Vec<SidecarEntry>)
        ensures
            lists(entries@, self@.photos),
    {
        proof {
            use_type_invariant(self);
            lemma_tags_listed(self.entries@);
        }
        &self.entries
    }

    /// The annotation stored for `filename`, if there is one.
    pub fn get(&self, filename: &str) -> (found: Option<&PhotoMeta>)
        ensures
            found is Some <==> self@.photos.contains_key(filename@),
            found matches Some(meta) ==> meta@ == self@.photos[filename@],
    {
        proof {
            use_type_invariant(self);
        }
        match find(&self.entries, filename) {
            Some(i) => {
                proof {
                    lemma_place_of(self.entries@, i as int);
                }
                Some(&self.entries[i].meta)
            },
            None => None,
        }
    }

    /// The annotation of `filename`: the stored one, or the default.
    pub fn tag_for(&self, filename: &str) -> (meta: PhotoMeta)
        ensures
            meta@ == tag_or_default(self@.photos, filename@),
    {
        match self.get(filename) {
            Some(meta) => meta.clone(),
            None => PhotoMeta::default(),
        }
    }

    /// Stores `meta` for `filename`, in place of what was stored for it.
    pub fn insert(&mut self, filename: String, meta: PhotoMeta)
        ensures
            final(self)@.version == old(self)@.version,
            final(self)@.photos == old(self)@.photos.insert(filename@, meta@),
    {
        proof {
            use_type_invariant(&*self);
        }
        let mut entries: Vec<SidecarEntry> = Vec::new();
        core::mem::swap(&mut self.entries, &mut entries);
        put(&mut entries, filename, meta);
        self.entries = entries;
    }

    /// Takes out what is stored for `filename`.
    pub fn remove(&mut self, filename: &str) -> (removed: Option<PhotoMeta>)
        ensures
            final(self)@.version == old(self)@.version,
            final(self)@.photos == old(self)@.photos.remove(filename@),
            removed is Some <==> old(self)@.photos.contains_key(filename@),
            removed matches Some(meta) ==> meta@ == old(self)@.photos[filename@],
    {
        proof {
            use_type_invariant(&*self);
        }
        let mut entries: Vec<SidecarEntry> = Vec::new();
        core::mem::swap(&mut self.entries, &mut entries);
        let removed = take_out(&mut entries, filename);
        self.entries = entries;
        removed
    }

    /// Moves the annotation of `old_name` to `new_name`, replacing what
    /// `new_name` had. Where `old_name` has none, nothing changes. Returns
    /// whether anything was moved.
    pub fn rekey(&mut self, old_name: &str, new_name: String) -> (moved: bool)
        ensures
            final(self)@.version == old(self)@.version,
            final(self)@.photos == rekeyed(old(self)@.photos, old_name@, new_name@),
            moved == old(self)@.photos.contains_key(old_name@),
    {
        match self.remove(old_name) {
            Some(meta) => {
                self.insert(new_name, meta);
                true
            },
            None => {
                proof {
                    assert(old(self)@.photos.remove(old_name@) =~= old(self)@.photos);
                }
                false
            },
        }
    }
}

impl Clone for FolderMeta {
    fn clone(&self) -> (copy: Self)
        ensures
            copy@ == self@,
    {
        proof {
            use_type_invariant(self);
        }
        let mut entries: Vec<SidecarEntry> = Vec::new();
        let mut i: usize = 0;
        while i < self.entries.len()
            invariant
                i <= self.entries@.len(),
                entries@ == self.entries@.take(i as int),
            decreases self.entries@.len() - i,
        {
            entries.push(self.entries[i].clone());
            proof {
                assert(self.entries@.take(i + 1) =~= self.entries@.take(i as int).push(
                    self.entries@[i as int],
                ));
            }
            i += 1;
        }
        proof {
            assert(self.entries@.take(i as int) =~= self.entries@);
        }
        FolderMeta { version: self.version, entries }
    }
}

impl Default for FolderMeta {
    fn default() -> (meta: Self)
        ensures
            meta@ == empty_sidecar(),
    {
        FolderMeta::new()
    }
}

/// The schema version written into every new sidecar.
pub fn default_version() -> (version: u32)
    ensures
        version == 1,
{
    1
}

} // verus!
