use photo_catalog::model::{CatalogError, FolderNode};
use photo_catalog::subfolders::{
    any_displayable, arrange_by_name, collect_subfolders, has_displayable_children,
    is_displayable_child, is_hidden_name, list_subfolders, ChildProbe, FolderChild,
};

fn folder(name: &str) -> FolderChild {
    FolderChild {
        name: name.to_string(),
        path: format!("/root/{}", name),
        is_dir: Ok(true),
        children: Some(vec![]),
    }
}

fn folder_with(name: &str, children: Vec<ChildProbe>) -> FolderChild {
    FolderChild {
        name: name.to_string(),
        path: format!("/root/{}", name),
        is_dir: Ok(true),
        children: Some(children),
    }
}

fn plain_file(name: &str) -> FolderChild {
    FolderChild {
        name: name.to_string(),
        path: format!("/root/{}", name),
        is_dir: Ok(false),
        children: None,
    }
}

fn probe(name: &str, is_dir: bool) -> ChildProbe {
    ChildProbe { name: name.to_string(), is_dir: Some(is_dir) }
}

fn node(name: &str, has_children: bool) -> FolderNode {
    FolderNode { name: name.to_string(), path: format!("/root/{}", name), has_children }
}

fn names(nodes: &[FolderNode]) -> Vec<String> {
    nodes.iter().map(|node| node.name.clone()).collect()
}

#[test]
fn hidden_folders_are_left_out_and_case_is_ignored() {
    let listing = vec![folder("Zebra"), folder("apple"), folder(".hidden")];
    let nodes = list_subfolders(Ok(listing)).unwrap();
    assert_eq!(names(&nodes), vec!["apple", "Zebra"]);
}

#[test]
fn only_directories_are_listed() {
    let listing = vec![plain_file("photo.jpg"), folder("trips"), plain_file("notes")];
    assert_eq!(list_subfolders(Ok(listing)), Ok(vec![node("trips", false)]));
}

#[test]
fn a_listing_of_nothing_is_empty() {
    assert_eq!(list_subfolders(Ok(vec![])), Ok(vec![]));
}

#[test]
fn a_listing_fails_where_the_folder_cannot_be_enumerated() {
    assert_eq!(
        list_subfolders(Err("Not a directory (os error 20)".to_string())),
        Err(CatalogError::Io("Not a directory (os error 20)".to_string()))
    );
}

#[test]
fn a_child_of_unknown_kind_is_left_out_and_the_others_are_listed() {
    let mut broken = folder("b");
    broken.is_dir = Err("first failure".to_string());
    let mut also_broken = folder("d");
    also_broken.is_dir = Err("second failure".to_string());
    let listing = vec![folder("c"), broken, folder("a"), also_broken];
    assert_eq!(list_subfolders(Ok(listing)), Ok(vec![node("a", false), node("c", false)]));
}

#[test]
fn a_listing_of_children_of_unknown_kind_only_is_empty() {
    let mut broken = folder("b");
    broken.is_dir = Err("no access".to_string());
    assert_eq!(list_subfolders(Ok(vec![broken])), Ok(vec![]));
}

#[test]
fn a_closed_subfolder_is_listed_beside_a_child_of_unknown_kind() {
    let mut closed = folder("closed");
    closed.children = None;
    let mut broken = folder_with("broken", vec![probe("a.jpg", false)]);
    broken.is_dir = Err("no access".to_string());
    let listing = vec![broken, closed, folder_with("open", vec![probe("a.jpg", false)])];
    assert_eq!(
        list_subfolders(Ok(listing)),
        Ok(vec![node("closed", false), node("open", true)])
    );
}

#[test]
fn subfolders_are_collected_in_the_order_of_the_listing() {
    let listing = vec![
        folder("zebra"),
        plain_file("a.jpg"),
        folder(".cache"),
        folder_with("Apple", vec![probe("x.png", false)]),
    ];
    assert_eq!(collect_subfolders(listing), vec![node("zebra", false), node("Apple", true)]);
    let mut broken = folder("b");
    broken.is_dir = Err("no access".to_string());
    assert_eq!(
        collect_subfolders(vec![folder("z"), broken, folder("a")]),
        vec![node("z", false), node("a", false)]
    );
}

#[test]
fn a_subfolder_with_a_photo_has_children() {
    let listing =
        vec![folder_with("trips", vec![probe("notes.txt", false), probe("a.JPG", false)])];
    assert_eq!(list_subfolders(Ok(listing)), Ok(vec![node("trips", true)]));
}

#[test]
fn a_subfolder_with_a_visible_folder_has_children() {
    let listing = vec![folder_with("trips", vec![probe("2024", true)])];
    assert_eq!(list_subfolders(Ok(listing)), Ok(vec![node("trips", true)]));
}

#[test]
fn hidden_folders_and_other_files_are_no_children() {
    let listing = vec![folder_with(
        "trips",
        vec![probe(".git", true), probe("notes.txt", false), probe("jpg", false)],
    )];
    assert_eq!(list_subfolders(Ok(listing)), Ok(vec![node("trips", false)]));
}

#[test]
fn a_folder_named_like_a_photo_is_a_child_and_a_hidden_photo_too() {
    assert!(is_displayable_child("a.jpg", Some(true)));
    assert!(is_displayable_child(".a.jpg", Some(false)));
    assert!(!is_displayable_child(".a.jpg", Some(true)));
    assert!(!is_displayable_child("plain", Some(false)));
}

#[test]
fn a_child_of_unknown_kind_does_not_count() {
    assert!(!is_displayable_child("a.jpg", None));
    assert!(!is_displayable_child("folder", None));
    let listing = vec![folder_with(
        "trips",
        vec![ChildProbe { name: "a.jpg".to_string(), is_dir: None }],
    )];
    assert_eq!(list_subfolders(Ok(listing)), Ok(vec![node("trips", false)]));
}

#[test]
fn a_subfolder_that_cannot_be_enumerated_has_no_children() {
    let mut closed = folder("closed");
    closed.children = None;
    assert_eq!(list_subfolders(Ok(vec![closed])), Ok(vec![node("closed", false)]));
    assert!(!has_displayable_children(&None));
}

#[test]
fn children_are_found_anywhere_in_the_listing() {
    assert!(!any_displayable(&vec![]));
    assert!(any_displayable(&vec![probe("x", false), probe("y", false), probe("z.png", false)]));
    assert!(any_displayable(&vec![probe("sub", true), probe("y", false)]));
    assert!(has_displayable_children(&Some(vec![probe("a.gif", false)])));
    assert!(!has_displayable_children(&Some(vec![probe("a.txt", false)])));
}

#[test]
fn a_name_is_hidden_by_a_leading_dot() {
    assert!(is_hidden_name(".git"));
    assert!(is_hidden_name("."));
    assert!(!is_hidden_name("git"));
    assert!(!is_hidden_name("a.b"));
    assert!(!is_hidden_name(""));
}

#[test]
fn names_that_differ_in_case_only_keep_their_order() {
    let listing =
        vec![folder("b"), folder("Photos"), folder("photos"), folder("PHOTOS"), folder("a")];
    let nodes = list_subfolders(Ok(listing)).unwrap();
    assert_eq!(names(&nodes), vec!["a", "b", "Photos", "photos", "PHOTOS"]);
}

#[test]
fn arranging_by_name_agrees_with_a_stable_sort() {
    let names_in = [
        "delta", "Alpha", "charlie", "alpha", "Bravo", "", "ALPHA", "Émile", "echo", "Zulu",
        "zulu2",
    ];
    let nodes: Vec<FolderNode> = names_in.iter().map(|name| node(name, false)).collect();
    let mut expected = nodes.clone();
    expected.sort_by(|a, b| a.name.to_lowercase().cmp(&b.name.to_lowercase()));
    assert_eq!(arrange_by_name(nodes), expected);
}
