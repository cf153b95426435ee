use accsm::diag::{scan_diagnostics, DiagnosticKind, ScanDiagnostic};
use accsm::scan::{RawCarDir, RawFile, RawRoot, RawTrackDir};

fn file(name: &str, content: Option<&str>, modified: Option<i64>) -> RawFile {
    RawFile {
        name: name.to_string(),
        is_file: true,
        content: content.map(|c| c.to_string()),
        modified,
    }
}

fn track_dir(name: &str, files: Vec<RawFile>) -> RawTrackDir {
    RawTrackDir { name: name.to_string(), is_dir: true, files: Some(files) }
}

fn car_dir(name: &str, tracks: Vec<RawTrackDir>) -> RawCarDir {
    RawCarDir { name: name.to_string(), is_dir: true, tracks: Some(tracks) }
}

fn root(dirs: Vec<RawCarDir>) -> RawRoot {
    RawRoot { path: "/setups".to_string(), dirs: Some(dirs) }
}

fn diag(name: &str, kind: DiagnosticKind) -> ScanDiagnostic {
    ScanDiagnostic { name: name.to_string(), kind }
}

#[test]
fn diagnostics_name_every_skipped_entry_in_order() {
    let tree = root(vec![
        car_dir("unknownCar", vec![]),
        car_dir(
            "bmw_m4_gt3",
            vec![
                track_dir("atlantis", vec![]),
                RawTrackDir { name: "monza".to_string(), is_dir: true, files: None },
                track_dir(
                    "Spa",
                    vec![
                        file("ok.json", Some("{}"), Some(1)),
                        file("bad.json", Some("{"), Some(2)),
                        file("gone.json", None, Some(3)),
                        file("stale.json", Some("{}"), None),
                        file("notes.txt", None, Some(4)),
                        file(".hidden.json", None, Some(5)),
                    ],
                ),
            ],
        ),
        RawCarDir { name: "ferrari_488_gt3".to_string(), is_dir: true, tracks: None },
    ]);
    let diags = scan_diagnostics(&tree);
    assert_eq!(
        diags,
        vec![
            diag("unknownCar", DiagnosticKind::UnrecognizedCategory),
            diag("atlantis", DiagnosticKind::UnrecognizedSubcategory),
            diag("monza", DiagnosticKind::BranchUnreadable),
            diag("bad.json", DiagnosticKind::LeafMalformed),
            diag("gone.json", DiagnosticKind::LeafUnreadable),
            diag("stale.json", DiagnosticKind::LeafUnreadable),
            diag("ferrari_488_gt3", DiagnosticKind::BranchUnreadable),
        ]
    );
}

#[test]
fn clean_tree_yields_no_diagnostics() {
    let tree = root(vec![car_dir(
        "bmw_m4_gt3",
        vec![track_dir("monza", vec![file("a.json", Some("{}"), Some(1))])],
    )]);
    assert!(scan_diagnostics(&tree).is_empty());
}

#[test]
fn unlistable_root_yields_no_diagnostics() {
    // the root failure is the scan's own error, not a diagnostic
    let tree = RawRoot { path: "/missing".to_string(), dirs: None };
    assert!(scan_diagnostics(&tree).is_empty());
}

#[test]
fn hidden_and_foreign_entries_yield_no_diagnostics() {
    let mut not_a_dir = car_dir("stray.txt", vec![]);
    not_a_dir.is_dir = false;
    let tree = root(vec![
        RawCarDir { name: ".cache".to_string(), is_dir: true, tracks: Some(vec![]) },
        not_a_dir,
    ]);
    assert!(scan_diagnostics(&tree).is_empty());
}
