use photo_catalog::text::{chars_before, chars_of, contains_char, first_char, same_text};

fn before(a: &str, b: &str) -> bool {
    chars_before(&chars_of(a), &chars_of(b))
}

#[test]
fn the_characters_of_a_text() {
    assert_eq!(chars_of("a.b"), vec!['a', '.', 'b']);
    assert_eq!(chars_of(""), Vec::<char>::new());
    assert_eq!(chars_of("é照"), vec!['é', '照']);
}

#[test]
fn texts_are_the_same_by_their_characters() {
    assert!(same_text("jpg", "jpg"));
    assert!(same_text("", ""));
    assert!(!same_text("jpg", "jpeg"));
    assert!(!same_text("jpg", "JPG"));
}

#[test]
fn texts_of_other_scripts_are_compared_too() {
    assert!(same_text("照片.png", "照片.png"));
    assert!(!same_text("照片.png", "照片.jpg"));
    assert!(!same_text("é", "e"));
    assert!(!same_text("ab", "abc"));
    assert!(!same_text("abc", "ab"));
}

#[test]
fn the_first_character_of_a_text() {
    assert_eq!(first_char(".git"), Some('.'));
    assert_eq!(first_char("照片"), Some('照'));
    assert_eq!(first_char("a"), Some('a'));
    assert_eq!(first_char(""), None);
}

#[test]
fn a_character_is_found_where_it_occurs() {
    assert!(contains_char("S", 'S'));
    assert!(contains_char("North-West", 'W'));
    assert!(!contains_char("N", 'S'));
    assert!(!contains_char("", 'S'));
    assert!(!contains_char("s", 'S'));
}

#[test]
fn texts_are_ordered_character_by_character() {
    assert!(before("apple", "zebra"));
    assert!(!before("zebra", "apple"));
    assert!(before("abc", "abd"));
    assert!(before("Zebra", "apple"));
}

#[test]
fn a_proper_prefix_comes_first() {
    assert!(before("", "a"));
    assert!(before("ab", "abc"));
    assert!(!before("abc", "ab"));
}

#[test]
fn no_text_comes_before_itself() {
    assert!(!before("", ""));
    assert!(!before("same", "same"));
}

#[test]
fn the_order_of_texts_agrees_with_the_standard_library() {
    let words = ["", "a", "A", "ab", "abc", "b", "é", "z", "照", "Zebra", "apple", "~"];
    for a in words {
        for b in words {
            assert_eq!(before(a, b), a < b, "for {:?} and {:?}", a, b);
        }
    }
}
