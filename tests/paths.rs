use zip_resize::paths::{
    append_suffix_to_filename, determine_output_path, relative_path, replacement_path,
};

#[test]
fn test_append_suffix_to_filename() {
    let path = append_suffix_to_filename("/path1/path2/test.txt", "suffix");
    assert_eq!(path, "/path1/path2/test_suffix.txt");
}

#[test]
fn suffix_without_extension() {
    assert_eq!(append_suffix_to_filename("dir/book", "x"), "dir/book_x");
}

#[test]
fn suffix_keeps_hidden_file_name_whole() {
    assert_eq!(append_suffix_to_filename("a/.cbz", "x"), "a/.cbz_x");
}

#[test]
fn suffix_on_last_dot_only() {
    assert_eq!(append_suffix_to_filename("a.b/c.tar.zip", "x"), "a.b/c.tar_x.zip");
}

#[test]
fn output_beside_input_by_default() {
    assert_eq!(determine_output_path("/in/book.zip", None), "/in/book_resized.zip");
}

#[test]
fn output_into_directory() {
    assert_eq!(determine_output_path("/in/book.zip", Some("/out")), "/out/book.zip");
    assert_eq!(determine_output_path("/in/book.zip", Some("/out/")), "/out/book.zip");
    assert_eq!(determine_output_path("book.zip", Some("")), "book.zip");
}

#[test]
fn relative_path_below_base() {
    assert_eq!(relative_path("/tmp/w/a/b.png", "/tmp/w"), Some("a/b.png".to_string()));
    assert_eq!(relative_path("/tmp/w", "/tmp/w"), Some(String::new()));
}

#[test]
fn relative_path_base_with_slash() {
    assert_eq!(relative_path("/tmp/w/a/b.png", "/tmp/w/"), Some("a/b.png".to_string()));
    assert_eq!(relative_path("/tmp/w/", "/tmp/w/"), Some(String::new()));
}

#[test]
fn relative_path_outside_base() {
    assert_eq!(relative_path("/tmp/wx/a.png", "/tmp/w"), None);
    assert_eq!(relative_path("/tmp", "/tmp/w"), None);
    assert_eq!(relative_path("/other/a.png", "/tmp/w"), None);
}

#[test]
fn replacement_keeps_stem() {
    assert_eq!(replacement_path("/w/ch1/p001.png"), "/w/ch1/p001.webp");
    assert_eq!(replacement_path("/w/p002"), "/w/p002.webp");
    assert_eq!(replacement_path("/w/p003.webp"), "/w/p003.webp");
}

#[test]
fn suffix_keeps_empty_extension_dot() {
    assert_eq!(append_suffix_to_filename("/a/b.", "x"), "/a/b_x.");
}
