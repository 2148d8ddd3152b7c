use itb_io::directory::Directory;
use itb_io::errors::FsError;
use itb_io::file::File;
use itb_io::has_parent::HasParent;
use itb_io::has_path::HasPath;
use itb_io::has_relative_path::HasRelativePath;
use itb_io::roots::Roots;

fn game_and_save() -> Roots {
    Roots::new("/game".to_string(), "/save".to_string()).unwrap()
}

#[test]
fn relative_path_should_be_reported_with_trailing_slash() {
    let roots = game_and_save();
    let tmp_dir = tempfile::TempDir::new().unwrap();
    let dir = Directory::from(tmp_dir.path().to_str().unwrap());

    assert!(dir.relative_path(&roots).unwrap().ends_with("/"));
}

#[test]
fn relative_path_should_be_reported_without_trailing_slash() {
    let roots = game_and_save();
    let tmp_file = tempfile::NamedTempFile::new().unwrap();
    let file = File::from(tmp_file.path().to_str().unwrap());

    assert!(!file.relative_path(&roots).unwrap().ends_with("/"));
}

#[test]
fn relativize_should_return_none_for_path_in_different_root() {
    let dir = Directory::from("test");
    let separate_dir = Directory::from("/save");

    let result = separate_dir.relativize(&dir.path);

    assert!(result.is_none());
}

#[test]
fn relativize_should_remove_common_path() {
    let roots = game_and_save();
    let dir = Directory::from("some/path/test");
    let parent_dir = dir.parent(&roots).unwrap();

    let result = parent_dir.relativize(&dir.path());

    assert!(result.is_some());
    let relative_path = result.unwrap();
    assert!(!relative_path.contains(&parent_dir.path()));
}

#[test]
fn relativize_should_add_parent_shorthands() {
    let dir = Directory::from("some/path/test");
    let result = dir.relativize("some");

    assert!(result.is_some());
    let relative_path = result.unwrap();
    assert_eq!("../..", relative_path);
}

#[test]
fn relativize_should_report_path_with_trailing_slash_if_directory_exists_on_file_system() {
    let tmp_file = tempfile::NamedTempFile::new().unwrap();
    let tmp_dir = tmp_file.path().parent().unwrap();

    let dir = Directory::from(tmp_dir.to_str().unwrap());
    let parent_dir = Directory::from(tmp_dir.parent().unwrap().to_str().unwrap());

    let result = parent_dir.relativize(&dir.path());

    assert!(result.is_some());
    let relative_path = result.unwrap();
    assert!(relative_path.ends_with("/"));
}

#[test]
fn is_ancestor_should_return_true_for_child_absolute_path() {
    let dir = Directory::from("/game/some/path");
    let test_path = format!("{}/{}", dir.path, "test");
    let result = dir.is_ancestor(&test_path);

    assert!(result.is_ok());
    assert!(result.unwrap());
}

#[test]
fn is_ancestor_should_return_false_for_non_child_absolute_path() {
    let dir = Directory::from("/game/some/path");
    let test_path = format!("{}/{}", "/game/some", "test");

    let result = dir.is_ancestor(&test_path);

    assert!(result.is_ok());
    assert!(!result.unwrap());
}

#[test]
fn is_ancestor_matches_whole_components_only() {
    let dir = Directory::from("/a/b");
    assert_eq!(Ok(false), dir.is_ancestor("/a/bc").map_err(|_| ()));
    assert_eq!(Ok(true), dir.is_ancestor("/a/b").map_err(|_| ()));
    assert_eq!(Ok(true), dir.is_ancestor("/a/b/c").map_err(|_| ()));
}

#[test]
fn is_ancestor_should_return_error_for_relative_path() {
    let dir = Directory::from("/game/some/path");
    let test_path = "test";

    let result = dir.is_ancestor(test_path);

    assert!(result.is_err());
    assert!(matches!(result, Err(FsError::NotAbsolutePath)));
}

#[test]
fn relativizing_a_directory_against_itself_is_empty() {
    let dir = Directory::from("/game/mods");
    assert_eq!("", dir.relativize("/game/mods").unwrap());
}

#[test]
fn relativize_spelled_appends_separator_exactly_for_directories() {
    let dir = Directory::from("/game");
    assert_eq!(
        "mods/sub/",
        dir.relativize_spelled("/game/mods/sub", true).unwrap()
    );
    assert_eq!(
        "mods/sub",
        dir.relativize_spelled("/game/mods/sub", false).unwrap()
    );
}

#[test]
fn relativize_against_the_bare_root_drops_the_leading_separator() {
    let dir = Directory::from("/");
    assert_eq!("etc/x", dir.relativize("/etc/x").unwrap());
}
