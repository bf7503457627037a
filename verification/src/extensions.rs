//! Which files count as photos: the supported extensions and how a file
//! name's extension is found.

use vstd::prelude::*;
use crate::text::{chars_of, lowercased, same_text, to_lowercase};

verus! {

/// The extensions of the image formats the browser shows, in lower case.
pub open spec fn supported_list() -> Seq<Seq<char>> {
    seq![
        "jpg"@,
        "jpeg"@,
        "png"@,
        "webp"@,
        "heic"@,
        "heif"@,
        "tiff"@,
        "tif"@,
        "gif"@,
        "bmp"@,
        "avif"@,
    ]
}

/// Whether a lower-case extension is one of the supported ones.
pub open spec fn is_supported(extension: Seq<char>) -> bool {
    supported_list().contains(extension)
}

/// The position of the last `.` in `name`, or -1 if it has none.
pub open spec fn last_dot(name: Seq<char>) -> int
    decreases name.len(),
{
    if name.len() == 0 {
        -1
    } else if name.last() == '.' {
        name.len() - 1
    } else {
        last_dot(name.drop_last())
    }
}

/// The extension of a file name: what follows its last `.`, unless the name
/// has no `.` or its only `.` is the first character; then it is empty.
pub open spec fn extension_of(name: Seq<char>) -> Seq<char> {
    let dot = last_dot(name);
    if dot > 0 {
        name.subrange(dot + 1, name.len() as int)
    } else {
        Seq::empty()
    }
}

/// Whether a file of this name is a photo: its extension, in lower case, is
/// supported.
pub open spec fn is_photo_name(name: Seq<char>) -> bool {
    is_supported(lowercased(extension_of(name)))
}

/// The supported extensions, in lower case.
pub fn supported_extensions() -> (list: Vec<&'static str>)
    ensures
        list@.len() == supported_list().len(),
        forall|i: int| 0 <= i < list@.len() ==> (#[trigger] list@[i])@ == supported_list()[i],
{
    let mut list: Vec<&'static str> = Vec::new();
    list.push("jpg");
    list.push("jpeg");
    list.push("png");
    list.push("webp");
    list.push("heic");
    list.push("heif");
    list.push("tiff");
    list.push("tif");
    list.push("gif");
    list.push("bmp");
    list.push("avif");
    list
}

/// Whether `extension`, taken as it stands, is a supported one.
pub fn is_supported_extension(extension: &str) -> (supported: bool)
    ensures
        supported == is_supported(extension@),
{
    let list = supported_extensions();
    let mut i: usize = 0;
    while i < list.len()
        invariant
            i <= list.len(),
            list@.len() == supported_list().len(),
            forall|j: int| 0 <= j < list@.len() ==> (#[trigger] list@[j])@ == supported_list()[j],
            forall|j: int| 0 <= j < i ==> supported_list()[j] != extension@,
        decreases list.len() - i,
    {
        if same_text(list[i], extension) {
            assert(supported_list()[i as int] == extension@);
            return true;
        }
        i += 1;
    }
    false
}

/// The extension of a file name.
pub fn file_extension(name: &str) -> (extension: String)
    ensures
        extension@ == extension_of(name@),
{
    let chars = chars_of(name);
    let mut end: usize = chars.len();
    proof {
        assert(name@.take(end as int) =~= name@);
    }
    while end > 0 && chars[end - 1] != '.'
        invariant
            end <= chars.len(),
            chars@ == name@,
            last_dot(name@) == last_dot(name@.take(end as int)),
        decreases end,
    {
        proof {
            assert(name@.take(end as int).drop_last() =~= name@.take(end - 1));
        }
        end -= 1;
    }
    if end > 1 {
        name.substring_char(end, chars.len()).to_owned()
    } else {
        String::new()
    }
}

/// Whether a file of this name is a photo.
pub fn has_supported_extension(name: &str) -> (supported: bool)
    ensures
        supported == is_photo_name(name@),
{
    let extension = file_extension(name);
    let lower = to_lowercase(extension.as_str());
    is_supported_extension(lower.as_str())
}

} // verus!
