use lazymagick::paths::{join_path, path_file_name, path_with_extension, PathParts};
use lazymagick::text::{
    contains, has_prefix, has_suffix, join_strs, lines_str, split_once_str, split_str,
    split_words, trim_str, trims_to_empty,
};

#[test]
fn trimming_and_emptiness() {
    assert_eq!(trim_str("  a b \t"), "a b");
    assert!(trims_to_empty(" \t\n"));
    assert!(!trims_to_empty(" x "));
}

#[test]
fn searching_text() {
    assert!(contains("-quality 85", "quality"));
    assert!(!contains("abc", "abd"));
    assert!(has_prefix("#fff", "#"));
    assert!(has_suffix("photo.png", ".png"));
}

#[test]
fn splitting_text() {
    assert_eq!(split_str("a,b,,c", ','), vec!["a", "b", "", "c"]);
    assert_eq!(lines_str("one\r\ntwo\n"), vec!["one", "two"]);
    assert_eq!(split_words("  -resize   50%  -strip "), vec!["-resize", "50%", "-strip"]);
    assert_eq!(
        split_once_str("Geometry: 10x20", ": "),
        Some(("Geometry".to_string(), "10x20".to_string()))
    );
    assert_eq!(join_strs(&vec!["a".to_string(), "b".to_string()], ", "), "a, b");
}

#[test]
fn path_pieces() {
    let p = PathParts::new("/tmp/photos/cat.JPG");
    assert_eq!(p.file_name(), Some("cat.JPG".to_string()));
    assert_eq!(p.stem_or_empty(), "cat");
    assert_eq!(p.extension(), Some("JPG".to_string()));
    assert_eq!(p.parent_or_empty(), "/tmp/photos");
    assert_eq!(join_path("/tmp", "a.png"), "/tmp/a.png");
    assert_eq!(path_with_extension("/tmp/a.png", "webp"), "/tmp/a.webp");
    assert_eq!(path_file_name("/"), None);
    let dotfile = PathParts::new(".bashrc");
    assert_eq!(dotfile.extension(), None);
    assert_eq!(dotfile.stem_or_empty(), ".bashrc");
}
