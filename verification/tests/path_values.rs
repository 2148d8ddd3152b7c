use itb_io::directory::Directory;
use itb_io::file::File;
use itb_io::has_path::HasPath;
use itb_io::paths;

#[test]
fn path_should_be_reported_with_trailing_slash() {
    let dir = Directory::from("test");

    assert_eq!("test/", dir.path());
    assert_eq!("test", dir.path);
}

#[test]
fn path_should_be_reported_without_trailing_slash() {
    let file = File::from("test.txt");

    assert_eq!("test.txt", file.path());
    assert_eq!("test.txt", file.path);
}

#[test]
fn normalize_replaces_backslashes_with_forward_slashes() {
    assert_eq!("a/b/c", paths::normalize("a\\b\\c"));
    assert_eq!("already/fine", paths::normalize("already/fine"));
    assert_eq!("", paths::normalize(""));
}

#[test]
fn directory_name_is_final_segment() {
    assert_eq!("test", Directory::from("some/path/test").name());
    assert_eq!("top", Directory::from("top").name());
}

#[test]
fn directory_name_ignores_a_trailing_separator() {
    assert_eq!("b", Directory::from("/a/b/").name());
}

#[test]
fn file_name_and_extension_are_split_at_last_dot() {
    let f = File::from("some/dir/archive.tar.gz");
    assert_eq!("archive.tar.gz", f.name());
    assert_eq!("archive.tar", f.name_without_extension());
    assert_eq!(Some("gz".to_string()), f.extension());
}

#[test]
fn file_without_dot_has_no_extension() {
    let f = File::from("some/dir/readme");
    assert_eq!("readme", f.name());
    assert_eq!("readme", f.name_without_extension());
    assert_eq!(None, f.extension());
}

#[test]
fn leading_dot_alone_is_not_an_extension() {
    let f = File::from("home/user/.gitignore");
    assert_eq!(".gitignore", f.name_without_extension());
    assert_eq!(None, f.extension());
}

#[test]
fn trailing_dot_gives_empty_extension() {
    let f = File::from("dir/oddity.");
    assert_eq!("oddity", f.name_without_extension());
    assert_eq!(Some(String::new()), f.extension());
}
