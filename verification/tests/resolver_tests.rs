use itb_io::errors::FsError;
use itb_io::path_filter::PathFilter;
use itb_io::roots::{RootResolver, UserProfile};

fn named_dir_in(parent: &std::path::Path, name: &str) -> tempfile::TempDir {
    tempfile::Builder::new()
        .prefix(name)
        .rand_bytes(0)
        .tempdir_in(parent)
        .unwrap()
}

fn marker_in(dir: &std::path::Path) -> tempfile::NamedTempFile {
    tempfile::Builder::new()
        .prefix("io_test")
        .suffix(".txt")
        .rand_bytes(0)
        .tempfile_in(dir)
        .unwrap()
}

#[test]
fn empty_dir_should_not_be_valid_save_data_location() {
    let tmp_dir = tempfile::tempdir().unwrap();
    let result = PathFilter::is_save_data_location_valid(tmp_dir.path().to_str().unwrap());

    assert!(!result);
}

#[test]
fn dir_containing_io_test_should_be_valid_save_data_location() {
    let tmp_dir = tempfile::tempdir().unwrap();
    let tmp_file = marker_in(tmp_dir.path());

    let result = PathFilter::is_save_data_location_valid(tmp_dir.path().to_str().unwrap());

    assert!(result);

    drop(tmp_file);
}

#[test]
fn dir_returned_by_save_data_directory_should_be_valid_save_data_location() {
    let docs = tempfile::tempdir().unwrap();
    let my_games = named_dir_in(docs.path(), "My Games");
    let game_saves = named_dir_in(my_games.path(), "Into The Breach");
    let marker = marker_in(game_saves.path());

    let profile = UserProfile { document_dir: Some(docs.path().to_str().unwrap().to_string()) };
    let mut resolver = RootResolver::new("/game".to_string(), Some(profile)).unwrap();
    let maybe_dir = resolver.save_data_root();

    if maybe_dir.is_err() {
        panic!(
            "Could not find save data directory, is ITB installed? {:?}",
            maybe_dir.err().unwrap()
        );
    }

    let result = PathFilter::is_save_data_location_valid(&maybe_dir.unwrap());

    assert!(result);

    drop(marker);
}

#[test]
fn missing_home_directory_is_unresolvable() {
    let mut resolver = RootResolver::new("/game".to_string(), None).unwrap();
    assert!(matches!(
        resolver.save_data_root(),
        Err(FsError::SaveDataLocationUnresolvable)
    ));
}

#[test]
fn failed_resolution_is_retried_and_success_is_memoized() {
    let docs = tempfile::tempdir().unwrap();
    let my_games = named_dir_in(docs.path(), "My Games");
    let game_saves = named_dir_in(my_games.path(), "Into The Breach");

    let profile = UserProfile { document_dir: Some(docs.path().to_str().unwrap().to_string()) };
    let mut resolver = RootResolver::new("/game".to_string(), Some(profile)).unwrap();

    // No marker file anywhere yet: the search fails, and the failure is not
    // cached.
    assert!(matches!(
        resolver.save_data_root(),
        Err(FsError::SaveDataLocationUnresolvable)
    ));

    // Once the marker appears, the very same resolver finds the directory.
    let marker = marker_in(game_saves.path());
    let first = resolver.save_data_root().unwrap();
    assert_eq!(game_saves.path().to_str().unwrap(), first);

    // Resolution is idempotent within a process: the memoized value comes
    // back even after the marker disappears.
    drop(marker);
    let second = resolver.save_data_root().unwrap();
    assert_eq!(first, second);
}

#[test]
fn resolver_requires_a_canonical_installation_root() {
    assert!(matches!(
        RootResolver::new("relative".to_string(), None),
        Err(FsError::NotAbsolutePath)
    ));
}
