use itb_io::directory::Directory;
use itb_io::errors::FsError;

#[test]
fn listing_a_missing_directory_fails_not_found() {
    let dir = Directory::from("/no/such/directory/anywhere");
    assert!(matches!(dir.files(), Err(FsError::NotFound)));
    assert!(matches!(dir.directories(), Err(FsError::NotFound)));
}

#[test]
fn files_lists_immediate_file_children() {
    let tmp_dir = tempfile::tempdir().unwrap();
    let inner = tempfile::NamedTempFile::new_in(tmp_dir.path()).unwrap();
    let dir = Directory::from(tmp_dir.path().to_str().unwrap());

    let files = dir.files().unwrap();
    assert_eq!(1, files.len());
    assert_eq!(inner.path().to_str().unwrap(), files[0].path);
    assert!(files[0].path.starts_with(&dir.path));

    // The only child is a file, so no directory is listed.
    assert_eq!(0, dir.directories().unwrap().len());
}

#[test]
fn directories_lists_immediate_directory_children() {
    let tmp_dir = tempfile::tempdir().unwrap();
    let sub = tempfile::tempdir_in(tmp_dir.path()).unwrap();
    let dir = Directory::from(tmp_dir.path().to_str().unwrap());

    let dirs = dir.directories().unwrap();
    assert_eq!(1, dirs.len());
    assert_eq!(sub.path().to_str().unwrap(), dirs[0].path);

    assert_eq!(0, dir.files().unwrap().len());
}
