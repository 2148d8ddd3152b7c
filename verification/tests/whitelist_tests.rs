use itb_io::construct;
use itb_io::errors::FsError;
use itb_io::has_parent::HasParent;
use itb_io::has_path::HasPath;
use itb_io::has_relative_path::HasRelativePath;
use itb_io::has_root::HasRoot;
use itb_io::path_filter::PathFilter;
use itb_io::roots::Roots;

fn game_and_save() -> Roots {
    Roots::new("/game".to_string(), "/save".to_string()).unwrap()
}

#[test]
fn roots_must_be_canonical_absolute() {
    assert!(Roots::new("/game".to_string(), "/save".to_string()).is_ok());
    assert!(matches!(
        Roots::new("game".to_string(), "/save".to_string()),
        Err(FsError::NotAbsolutePath)
    ));
    assert!(matches!(
        Roots::new("/game/".to_string(), "/save".to_string()),
        Err(FsError::NotAbsolutePath)
    ));
    assert!(matches!(
        Roots::new("/game".to_string(), "/save//data".to_string()),
        Err(FsError::NotAbsolutePath)
    ));
    assert!(matches!(
        Roots::new("/game/../save".to_string(), "/save".to_string()),
        Err(FsError::NotAbsolutePath)
    ));
}

#[test]
fn descendants_of_either_root_are_whitelisted() {
    let roots = game_and_save();
    assert!(PathFilter::is_whitelisted("/game/mods/a.lua", &roots));
    assert!(PathFilter::is_whitelisted("/save/profile/slot0", &roots));
    assert!(PathFilter::is_whitelisted("/game", &roots));
    assert!(PathFilter::is_whitelisted("/save", &roots));
}

#[test]
fn paths_outside_both_roots_are_not_whitelisted() {
    let roots = game_and_save();
    assert!(!PathFilter::is_whitelisted("/etc/passwd", &roots));
    assert!(!PathFilter::is_whitelisted("/", &roots));
    assert!(!PathFilter::is_whitelisted("/other/save", &roots));
}

#[test]
fn containment_stops_at_component_boundaries() {
    let roots = game_and_save();
    assert!(!PathFilter::is_whitelisted("/gamedata", &roots));
    assert!(!PathFilter::is_whitelisted("/gamedata/x", &roots));
    assert!(!PathFilter::is_whitelisted("/saved", &roots));
    assert!(matches!(
        construct::file("/gamedata/x", &roots),
        Err(FsError::NotWhitelisted)
    ));
}

#[test]
fn backslashes_are_normalized_before_the_whitelist_test() {
    let roots = game_and_save();
    let f = construct::file("mods\\a.lua", &roots).unwrap();
    assert_eq!("/game/mods/a.lua", f.path);
}

#[test]
fn root_choice_stops_at_component_boundaries() {
    let roots = Roots::new("/sa".to_string(), "/save".to_string()).unwrap();
    let f = construct::file("/save/x", &roots).unwrap();
    assert_eq!("/save", f.root(&roots).unwrap().path);
}

#[test]
fn dot_dot_traversal_is_resolved_before_the_whitelist_test() {
    let roots = game_and_save();
    assert!(!PathFilter::is_whitelisted("/game/../etc/passwd", &roots));
    assert!(PathFilter::is_whitelisted("/game/mods/../mods/a.lua", &roots));
    assert!(!PathFilter::is_whitelisted("/game/..", &roots));
}

#[test]
fn relative_paths_resolve_against_the_installation_root() {
    let roots = game_and_save();
    assert!(PathFilter::is_whitelisted("mods/a.lua", &roots));
    assert!(PathFilter::is_whitelisted("./mods", &roots));
    assert!(!PathFilter::is_whitelisted("../outside", &roots));
}

#[test]
fn construct_file_outside_both_roots_fails_not_whitelisted() {
    let roots = game_and_save();
    assert!(matches!(
        construct::file("/etc/passwd", &roots),
        Err(FsError::NotWhitelisted)
    ));
    assert!(matches!(
        construct::directory("/etc", &roots),
        Err(FsError::NotWhitelisted)
    ));
}

#[test]
fn construct_stores_the_resolved_absolute_path() {
    let roots = game_and_save();
    let f = construct::file("/game/mods/../mods/a.lua", &roots).unwrap();
    assert_eq!("/game/mods/a.lua", f.path);
    let d = construct::directory("mods", &roots).unwrap();
    assert_eq!("/game/mods", d.path);
}

#[test]
fn construct_refuses_a_path_with_no_final_component() {
    let roots = Roots::new("/".to_string(), "/save".to_string()).unwrap();
    assert!(matches!(
        construct::file("/", &roots),
        Err(FsError::NoFinalComponent)
    ));
}

#[test]
fn parent_of_a_root_directory_fails_not_whitelisted() {
    let roots = game_and_save();
    let root_dir = construct::directory("/game", &roots).unwrap();
    assert!(matches!(
        root_dir.parent(&roots),
        Err(FsError::NotWhitelisted)
    ));
}

#[test]
fn parent_inside_the_sandbox_is_returned() {
    let roots = game_and_save();
    let d = construct::directory("/game/mods/sub", &roots).unwrap();
    let p = d.parent(&roots).unwrap();
    assert_eq!("/game/mods", p.path);
    let pp = p.parent(&roots).unwrap();
    assert_eq!("/game", pp.path);
    assert!(matches!(pp.parent(&roots), Err(FsError::NotWhitelisted)));
}

#[test]
fn root_and_relative_path_follow_the_containing_root() {
    let roots = game_and_save();
    let f = construct::file("/game/mods/a.lua", &roots).unwrap();
    assert_eq!("/game", f.root(&roots).unwrap().path);
    assert_eq!("mods/a.lua", f.relative_path(&roots).unwrap());

    let d = construct::directory("/save/profile", &roots).unwrap();
    assert_eq!("/save", d.root(&roots).unwrap().path);

    let own_root = construct::directory("/game", &roots).unwrap();
    assert_eq!("", own_root.relative_path(&roots).unwrap());
}

#[test]
fn directory_file_joins_segments_beneath_it() {
    let roots = game_and_save();
    let d = construct::directory("/game/mods", &roots).unwrap();
    let f = d
        .file(&vec!["sub".to_string(), "x.txt".to_string()], &roots)
        .unwrap();
    assert_eq!("/game/mods/sub/x.txt", f.path);
    let sub = d.directory(&vec!["sub".to_string()], &roots).unwrap();
    assert_eq!("/game/mods/sub", sub.path);
}

#[test]
fn directory_file_cannot_traverse_out_of_the_sandbox() {
    let roots = game_and_save();
    let d = construct::directory("/game/mods", &roots).unwrap();
    let escape = d.file(
        &vec![
            "..".to_string(),
            "..".to_string(),
            "etc".to_string(),
            "passwd".to_string(),
        ],
        &roots,
    );
    assert!(matches!(escape, Err(FsError::NotWhitelisted)));
}

#[test]
fn end_to_end_scenario_with_two_roots() {
    let roots = game_and_save();
    assert!(construct::file("/game/mods/a.lua", &roots).is_ok());
    assert!(matches!(
        construct::file("/etc/passwd", &roots),
        Err(FsError::NotWhitelisted)
    ));
    let mods = construct::directory("/game/mods", &roots).unwrap();
    assert_eq!(
        "sub/x.txt",
        mods.relativize("/game/mods/sub/x.txt").unwrap()
    );
    let sub = construct::directory("/game/mods/sub", &roots).unwrap();
    assert_eq!("..", sub.relativize("/game/mods").unwrap());
}

#[test]
fn anchoring_prefixes_naked_relative_paths() {
    assert_eq!("./some_file.txt", construct::normalize("some_file.txt"));
    assert_eq!("./already", construct::normalize("./already"));
    assert_eq!("../up", construct::normalize("../up"));
    assert_eq!("/abs", construct::normalize("/abs"));
    assert_eq!("./.hidden", construct::normalize(".hidden"));
    assert_eq!("..", construct::normalize(".."));
}

#[test]
fn file_parent_is_its_containing_directory() {
    let roots = game_and_save();
    let f = itb_io::construct::file("/save/profile/slot0.sav", &roots).unwrap();
    let p = f.parent(&roots).unwrap();
    assert_eq!("/save/profile", p.path);
}
