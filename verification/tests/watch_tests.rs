use accsm::text::display_name;
use accsm::watch::{should_refresh, FsEventKind, FsEventPath};

fn path(file_name: &str, is_dir: bool, inside_root: bool, depth: usize) -> FsEventPath {
    FsEventPath { file_name: file_name.to_string(), is_dir, inside_root, depth }
}

#[test]
fn leaf_file_event_triggers_refresh() {
    assert!(should_refresh(
        &FsEventKind::Modify,
        &vec![path("setup.json", false, true, 5)],
    ));
}

#[test]
fn directory_event_triggers_refresh() {
    assert!(should_refresh(&FsEventKind::Create, &vec![path("newtrack", true, true, 2)]));
}

#[test]
fn shallow_event_triggers_refresh() {
    // not a leaf file, not a directory, but within the three levels
    assert!(should_refresh(&FsEventKind::Remove, &vec![path("notes.txt", false, true, 3)]));
}

#[test]
fn deep_foreign_file_is_ignored() {
    assert!(!should_refresh(
        &FsEventKind::Modify,
        &vec![path("cache.tmp", false, true, 4)],
    ));
}

#[test]
fn paths_outside_the_root_are_ignored() {
    assert!(!should_refresh(
        &FsEventKind::Modify,
        &vec![path("setup.json", false, false, 1)],
    ));
}

#[test]
fn other_event_kinds_are_ignored() {
    assert!(!should_refresh(
        &FsEventKind::Other,
        &vec![path("setup.json", false, true, 1)],
    ));
}

#[test]
fn any_single_qualifying_path_suffices() {
    assert!(should_refresh(
        &FsEventKind::Modify,
        &vec![
            path("a.bin", false, true, 9),
            path("b.json", false, true, 9),
        ],
    ));
    assert!(!should_refresh(&FsEventKind::Modify, &vec![]));
}

#[test]
fn bare_suffix_is_not_an_extension() {
    // a file literally named ".json" has no extension and is deep enough
    // to be ignored
    assert!(!should_refresh(
        &FsEventKind::Modify,
        &vec![path(".json", false, true, 7)],
    ));
}

#[test]
fn display_name_strips_suffix_and_underscores() {
    assert_eq!(display_name("quali_wet_2.json"), "quali wet 2");
    assert_eq!(display_name("race.json"), "race");
    assert_eq!(display_name("no_suffix"), "no suffix");
    assert_eq!(display_name(".json"), "");
    assert_eq!(display_name("über_setup.json"), "über setup");
}
