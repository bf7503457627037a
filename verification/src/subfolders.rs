//! The subfolder listing: which children of a folder are shown as
//! subfolders, whether each has anything to show, and their order.

use vstd::prelude::*;
use crate::extensions::{has_supported_extension, is_photo_name};
use crate::model::{views, CatalogError, CatalogFault, FolderNode, FolderNodeView};
use crate::arrange::{arrange, order_of, rank_of, Ranked};
use crate::order::{
    is_arrangement, is_connected, lemma_arrangement_is_unique, lemma_arrangement_keeps_length,
};
use crate::text::{
    chars_before, chars_of, first_char, lemma_text_before_is_asymmetric,
    lemma_text_before_is_connected, lemma_text_not_before, lowercased, text_before, text_order,
    to_lowercase,
};

verus! {

/// What a look into a subfolder found for one of its children.
#[derive(Debug, PartialEq, Eq)]
pub struct ChildProbe {
    /// The child's name.
    pub name: String,
    /// Whether it is a directory, if the file system said.
    pub is_dir: Option<bool>,
}

/// The value of a `ChildProbe`.
pub struct ChildProbeView {
    pub name: Seq<char>,
    pub is_dir: Option<bool>,
}

impl View for ChildProbe {
    type V = ChildProbeView;

    open spec fn view(&self) -> ChildProbeView {
        ChildProbeView { name: self.name@, is_dir: self.is_dir }
    }
}

/// What enumerating a folder found for one of its children.
#[derive(Debug, PartialEq, Eq)]
pub struct FolderChild {
    /// The child's name.
    pub name: String,
    /// The child's full path.
    pub path: String,
    /// Whether it is a directory, or the system's message where that could
    /// not be learned. Such a child is left out of the listing; the others
    /// are listed all the same.
    pub is_dir: Result<bool, String>,
    /// The child's own children, if it is a directory that could be
    /// enumerated. A listing cut off behind the first child that counts
    /// serves as well as the whole.
    pub children: Option<Vec<ChildProbe>>,
}

/// The value of a `FolderChild`.
pub struct FolderChildView {
    pub name: Seq<char>,
    pub path: Seq<char>,
    pub is_dir: Result<bool, Seq<char>>,
    pub children: Option<Seq<ChildProbeView>>,
}

impl View for FolderChild {
    type V = FolderChildView;

    open spec fn view(&self) -> FolderChildView {
        FolderChildView {
            name: self.name@,
            path: self.path@,
            is_dir: match self.is_dir {
                Ok(is_dir) => Ok(is_dir),
                Err(text) => Err(text@),
            },
            children: match self.children {
                Some(children) => Some(views(children@)),
                None => None,
            },
        }
    }
}

/// A name is hidden when it begins with `.`.
pub open spec fn is_hidden(name: Seq<char>) -> bool {
    name.len() > 0 && name[0] == '.'
}

/// Whether a subfolder's child is something to show: a directory that is
/// not hidden, or a file that is a photo.
pub open spec fn counts_as_child(probe: ChildProbeView) -> bool {
    match probe.is_dir {
        Some(true) => !is_hidden(probe.name),
        Some(false) => is_photo_name(probe.name),
        None => false,
    }
}

/// Whether one of `probes` is something to show.
pub open spec fn any_counts(probes: Seq<ChildProbeView>) -> bool {
    exists|i: int| 0 <= i < probes.len() && counts_as_child(#[trigger] probes[i])
}

/// Whether a subfolder has anything to show. One that could not be
/// enumerated has not.
pub open spec fn has_children(children: Option<Seq<ChildProbeView>>) -> bool {
    match children {
        Some(probes) => any_counts(probes),
        None => false,
    }
}

/// Whether a child is listed: one that is known to be a directory and is
/// not hidden.
pub open spec fn is_listed(child: FolderChildView) -> bool {
    child.is_dir == Ok::<bool, Seq<char>>(true) && !is_hidden(child.name)
}

/// The node that the listing makes of a listed child.
pub open spec fn node_of(child: FolderChildView) -> FolderNodeView {
    FolderNodeView {
        name: child.name,
        path: child.path,
        has_children: has_children(child.children),
    }
}

/// The test `is_listed`.
pub open spec fn listed_test() -> spec_fn(FolderChildView) -> bool {
    |child: FolderChildView| is_listed(child)
}

/// The function `node_of`.
pub open spec fn node_maker() -> spec_fn(FolderChildView) -> FolderNodeView {
    |child: FolderChildView| node_of(child)
}

/// The nodes of the listed children, in the order of `children`.
pub open spec fn listed(children: Seq<FolderChildView>) -> Seq<FolderNodeView> {
    children.filter(listed_test()).map_values(node_maker())
}

/// The rank by which folders are arranged: the name in lower case.
pub open spec fn folder_rank() -> spec_fn(FolderNodeView) -> Seq<char> {
    |node: FolderNodeView| lowercased(node.name)
}

/// Whether `name` is hidden.
pub fn is_hidden_name(name: &str) -> (hidden: bool)
    ensures
        hidden == is_hidden(name@),
{
    match first_char(name) {
        Some(first) => first == '.',
        None => false,
    }
}

/// Whether a subfolder's child of this name is something to show.
pub fn is_displayable_child(name: &str, is_dir: Option<bool>) -> (counts: bool)
    ensures
        counts == counts_as_child(ChildProbeView { name: name@, is_dir }),
{
    match is_dir {
        Some(true) => !is_hidden_name(name),
        Some(false) => has_supported_extension(name),
        None => false,
    }
}

/// Whether one of these children of a subfolder is something to show.
pub fn any_displayable(probes: &Vec<ChildProbe>) -> (any: bool)
    ensures
        any == has_children(Some(views(probes@))),
{
    let mut i: usize = 0;
    while i < probes.len()
        invariant
            i <= probes@.len(),
            forall|j: int| 0 <= j < i ==> !counts_as_child(#[trigger] views(probes@)[j]),
        decreases probes@.len() - i,
    {
        if is_displayable_child(probes[i].name.as_str(), probes[i].is_dir) {
            assert(counts_as_child(views(probes@)[i as int]));
            return true;
        }
        i += 1;
    }
    false
}

/// Whether a subfolder with these children has anything to show.
pub fn has_displayable_children(children: &Option<Vec<ChildProbe>>) -> (any: bool)
    ensures
        any == has_children(
            match *children {
                Some(probes) => Some(views(probes@)),
                None => None,
            },
        ),
{
    match children {
        None => false,
        Some(probes) => any_displayable(probes),
    }
}

impl Ranked for FolderNode {
    type Rank = Seq<char>;

    open spec fn rank(value: FolderNodeView) -> Seq<char> {
        lowercased(value.name)
    }

    open spec fn precedes(a: Seq<char>, b: Seq<char>) -> bool {
        text_before(a, b)
    }

    proof fn lemma_ranks_are_ordered(a: Seq<char>, b: Seq<char>, c: Seq<char>) {
        lemma_text_before_is_asymmetric(a, b);
        lemma_text_not_before(a, b, c);
    }

    fn comes_before(&self, other: &Self) -> (before: bool) {
        let own = to_lowercase(self.name.as_str());
        let others = to_lowercase(other.name.as_str());
        chars_before(&chars_of(own.as_str()), &chars_of(others.as_str()))
    }
}

/// Arranges nodes by name, ignoring case; nodes whose names differ in case
/// only keep their order.
pub fn arrange_by_name(nodes: Vec<FolderNode>) -> (arranged: Vec<FolderNode>)
    ensures
        is_arrangement(views(nodes@), views(arranged@), folder_rank(), text_order()),
{
    proof {
        assert(rank_of::<FolderNode>() =~= folder_rank());
        assert(order_of::<FolderNode>() =~= text_order());
    }
    arrange(nodes)
}

/// Nodes have one arrangement by name only.
pub proof fn lemma_by_name_is_unique(
    nodes: Seq<FolderNodeView>,
    first: Seq<FolderNodeView>,
    second: Seq<FolderNodeView>,
)
    requires
        is_arrangement(nodes, first, folder_rank(), text_order()),
        is_arrangement(nodes, second, folder_rank(), text_order()),
    ensures
        first == second,
{
    assert(is_connected(text_order())) by {
        assert forall|a: Seq<char>, b: Seq<char>| a != b implies #[trigger] text_order()(a, b)
            || text_order()(b, a) by {
            lemma_text_before_is_connected(a, b);
        }
    }
    lemma_arrangement_is_unique(nodes, first, second, folder_rank(), text_order());
}

/// The nodes of the listed children, in the order of `children`. A child
/// of which the file system did not say whether it is a directory is left
/// out like any child that is none.
pub fn collect_subfolders(children: Vec<FolderChild>) -> (nodes: Vec<FolderNode>)
    ensures
        views(nodes@) == listed(views(children@)),
{
    let ghost all = children@;
    let mut nodes: Vec<FolderNode> = Vec::new();
    proof {
        assert(views(all.take(0)) =~= Seq::empty());
        assert(listed(Seq::empty()) =~= Seq::empty()) by {
            reveal(Seq::filter);
        }
        assert(views(nodes@) =~= Seq::empty());
    }
    for child in it: children
        invariant
            it.seq() == all,
            views(nodes@) == listed(views(all.take(it.index() as int))),
    {
        let ghost before = views(all.take(it.index() as int));
        let ghost old_nodes = views(nodes@);
        proof {
            assert(views(all.take(it.index() + 1)) =~= before.push(child@));
            before.lemma_filter_push(child@, listed_test());
        }
        let is_directory = match child.is_dir {
            Ok(is_dir) => is_dir,
            Err(_) => false,
        };
        if is_directory && !is_hidden_name(child.name.as_str()) {
            let node = FolderNode {
                has_children: has_displayable_children(&child.children),
                name: child.name,
                path: child.path,
            };
            proof {
                assert(node@ == node_of(child@));
                before.filter(listed_test()).lemma_push_map_commute(node_maker(), child@);
            }
            nodes.push(node);
            proof {
                assert(views(nodes@) =~= old_nodes.push(node@));
            }
        }
    }
    proof {
        assert(all.take(all.len() as int) =~= all);
    }
    nodes
}

/// Of an arrangement of the nodes of the listed children: there are as many
/// nodes as listed children, none is hidden, and the name of no node, in
/// lower case, comes before that of a node before it.
pub proof fn lemma_listing_shows_every_subfolder(
    children: Seq<FolderChildView>,
    shown: Seq<FolderNodeView>,
)
    requires
        is_arrangement(listed(children), shown, folder_rank(), text_order()),
    ensures
        shown.len() == children.filter(listed_test()).len(),
        forall|i: int| 0 <= i < shown.len() ==> !is_hidden((#[trigger] shown[i]).name),
        forall|i: int, j: int|
            0 <= i < j < shown.len() ==> !text_before(
                lowercased((#[trigger] shown[j]).name),
                lowercased((#[trigger] shown[i]).name),
            ),
{
    let source = listed(children);
    lemma_arrangement_keeps_length(source, shown, folder_rank(), text_order());
    assert forall|i: int| 0 <= i < shown.len() implies !is_hidden((#[trigger] shown[i]).name) by {
        vstd::seq_lib::to_multiset_contains(shown, shown[i]);
        vstd::seq_lib::to_multiset_contains(source, shown[i]);
        assert(shown.contains(shown[i]));
        let j = choose|j: int| 0 <= j < source.len() && source[j] == shown[i];
        assert(source[j] == node_of(children.filter(listed_test())[j]));
        children.lemma_filter_pred(listed_test(), j);
    }
    assert forall|i: int, j: int| 0 <= i < j < shown.len() implies !text_before(
        lowercased((#[trigger] shown[j]).name),
        lowercased((#[trigger] shown[i]).name),
    ) by {
        assert(!text_order()(folder_rank()(shown[j]), folder_rank()(shown[i])));
    }
}

/// Lists a folder's subfolders from what was read of it: `listing` holds the
/// folder's children, or the system's message where the folder could not be
/// enumerated. Only that failure fails the listing. Otherwise it holds one
/// node for each child that is known to be a directory and is not hidden,
/// arranged by name without regard to case; a child whose kind could not be
/// learned is left out, and a subfolder that could not be looked into is
/// listed as one with nothing to show.
pub fn list_subfolders(
    listing: Result<Vec<FolderChild>, String>,
) -> (listed_nodes: Result<Vec<FolderNode>, CatalogError>)
    ensures
        match listing {
            Err(text) => listed_nodes matches Err(error) && error@ == CatalogFault::Io(text@),
            Ok(children) => listed_nodes matches Ok(nodes) && {
                &&& is_arrangement(
                    listed(views(children@)),
                    views(nodes@),
                    folder_rank(),
                    text_order(),
                )
                &&& nodes@.len() == views(children@).filter(listed_test()).len()
                &&& forall|i: int|
                    0 <= i < nodes@.len() ==> !is_hidden((#[trigger] views(nodes@)[i]).name)
                &&& forall|i: int, j: int|
                    0 <= i < j < nodes@.len() ==> !text_before(
                        lowercased((#[trigger] views(nodes@)[j]).name),
                        lowercased((#[trigger] views(nodes@)[i]).name),
                    )
            },
        },
{
    match listing {
        Err(text) => Err(CatalogError::Io(text)),
        Ok(children) => {
            let ghost found = views(children@);
            let arranged = arrange_by_name(collect_subfolders(children));
            proof {
                lemma_listing_shows_every_subfolder(found, views(arranged@));
            }
            Ok(arranged)
        },
    }
}

} // verus!
