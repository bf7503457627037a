use photo_catalog::paths::{
    app_data_file, folder_meta_file, temporary_file, APP_DATA_FILE_NAME, SIDECAR_FILE_NAME,
    TEMPORARY_EXTENSION,
};
use std::path::Path;

#[test]
fn the_names_of_the_stored_documents() {
    assert_eq!(SIDECAR_FILE_NAME, ".photo_meta.json");
    assert_eq!(APP_DATA_FILE_NAME, "data.json");
    assert_eq!(TEMPORARY_EXTENSION, "json.tmp");
}

#[test]
fn the_sidecar_lies_in_its_folder() {
    assert_eq!(
        Path::new(&folder_meta_file("/photos/2024")),
        Path::new("/photos/2024").join(".photo_meta.json")
    );
    assert_ne!(folder_meta_file("/photos/2024"), "/photos/2024");
}

#[test]
fn the_sidecar_of_a_folder_with_a_trailing_separator() {
    assert_eq!(
        Path::new(&folder_meta_file("/photos/")),
        Path::new("/photos/").join(".photo_meta.json")
    );
}

#[test]
fn the_sidecar_of_the_current_folder() {
    assert_eq!(folder_meta_file(""), ".photo_meta.json");
}

#[test]
fn the_application_state_lies_in_its_directory() {
    assert_eq!(
        Path::new(&app_data_file("/home/u/.local/share/app")),
        Path::new("/home/u/.local/share/app").join("data.json")
    );
}

#[test]
fn the_temporary_file_of_the_sidecar() {
    let sidecar = folder_meta_file("/photos");
    let temporary = temporary_file(&sidecar);
    assert_eq!(Path::new(&temporary), Path::new(&sidecar).with_extension("json.tmp"));
    assert_eq!(Path::new(&temporary).file_name().unwrap(), ".photo_meta.json.tmp");
}

#[test]
fn the_temporary_file_of_the_application_state() {
    let temporary = temporary_file(&app_data_file("/data"));
    assert_eq!(Path::new(&temporary).file_name().unwrap(), "data.json.tmp");
    assert_eq!(Path::new(&temporary).parent().unwrap(), Path::new("/data"));
}
