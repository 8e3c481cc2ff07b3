use marks::error::MarkError;
use marks::location::{marks_path, resolve_storage_path};

#[test]
fn marks_path_appends_the_config_file_to_the_home() {
    assert_eq!(marks_path("/home/u"), "/home/u/.config/marks.list");
    assert_eq!(marks_path(""), "/.config/marks.list");
}

#[test]
fn resolved_storage_path_ends_with_the_config_file() {
    match resolve_storage_path() {
        Ok(path) => assert!(path.ends_with("/.config/marks.list")),
        Err(e) => assert_eq!(e, MarkError::NoHome),
    }
}
