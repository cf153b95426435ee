use accsm::errors::AccError;
use accsm::scan::{
    build_structure, get_setup_info, scan_car_folder, scan_folder_structure, scan_track_folder,
    RawCarDir, RawFile, RawRoot, RawTrackDir,
};

fn file(name: &str, content: Option<&str>, modified: Option<i64>) -> RawFile {
    RawFile {
        name: name.to_string(),
        is_file: true,
        content: content.map(|c| c.to_string()),
        modified,
    }
}

fn track_dir(name: &str, files: Vec<RawFile>) -> RawTrackDir {
    RawTrackDir { name: name.to_string(), is_dir: true, files: Some(files) }
}

fn car_dir(name: &str, tracks: Vec<RawTrackDir>) -> RawCarDir {
    RawCarDir { name: name.to_string(), is_dir: true, tracks: Some(tracks) }
}

fn root(dirs: Vec<RawCarDir>) -> RawRoot {
    RawRoot { path: "/setups".to_string(), dirs: Some(dirs) }
}

const VALID: &str = "{\"carName\": \"audi_r8_evo\", \"basicSetup\": {}}";
const MALFORMED: &str = "{\"carName\": ";

#[test]
fn example_scenario() {
    // One valid and one malformed leaf under a recognized subcategory, an
    // empty recognized subcategory, and an unrecognized category.
    let tree = root(vec![
        car_dir(
            "audi_r8_evo",
            vec![
                track_dir(
                    "monza",
                    vec![
                        file("setup1.json", Some(VALID), Some(100)),
                        file("setup2.json", Some(MALFORMED), Some(200)),
                    ],
                ),
                track_dir("Spa", vec![]),
            ],
        ),
        car_dir("unknownCar", vec![track_dir("monza", vec![file("x.json", Some(VALID), Some(1))])]),
    ]);
    let s = scan_folder_structure(&tree).unwrap();
    assert_eq!(s.cars.len(), 1);
    assert_eq!(s.cars[0].car_id, "audi_r8_evo");
    assert_eq!(s.cars[0].car_name, "R8 Evo");
    assert_eq!(s.cars[0].tracks.len(), 1);
    assert_eq!(s.cars[0].tracks[0].track_id, "monza");
    assert_eq!(s.cars[0].tracks[0].track_name, "Monza");
    assert_eq!(s.cars[0].tracks[0].setups.len(), 1);
    assert_eq!(s.cars[0].tracks[0].setups[0].filename, "setup1.json");
    assert_eq!(s.cars[0].tracks[0].setups[0].display_name, "setup1");
    assert_eq!(s.cars[0].tracks[0].setups[0].last_modified, 100);
    assert_eq!(s.total_setups, 1);
}

#[test]
fn unrecognized_root_yields_empty_snapshot() {
    let tree = root(vec![
        car_dir("nonsense", vec![track_dir("monza", vec![file("a.json", Some(VALID), Some(1))])]),
        car_dir("alsoNotACar", vec![]),
    ]);
    let s = scan_folder_structure(&tree).unwrap();
    assert_eq!(s.cars.len(), 0);
    assert_eq!(s.total_setups, 0);
}

#[test]
fn scanning_twice_is_idempotent_up_to_timestamp() {
    let tree = root(vec![car_dir(
        "bmw_m4_gt3",
        vec![track_dir("Spa", vec![file("wet.json", Some(VALID), Some(5))])],
    )]);
    let s1 = build_structure(&tree, 1000);
    let s2 = build_structure(&tree, 2000);
    assert_eq!(s1.cars, s2.cars);
    assert_eq!(s1.total_setups, s2.total_setups);
    assert_eq!(s1.last_scan, 1000);
    assert_eq!(s2.last_scan, 2000);
}

#[test]
fn empty_subcategory_is_absent() {
    let tree = root(vec![car_dir(
        "ferrari_488_gt3",
        vec![
            track_dir("monza", vec![file("ok.json", Some(VALID), Some(1))]),
            track_dir("Spa", vec![file("bad.json", Some(MALFORMED), Some(2))]),
            track_dir("Zolder", vec![]),
        ],
    )]);
    let s = scan_folder_structure(&tree).unwrap();
    assert_eq!(s.cars.len(), 1);
    let names: Vec<&str> = s.cars[0].tracks.iter().map(|t| t.track_id.as_str()).collect();
    assert_eq!(names, vec!["monza"]);
}

#[test]
fn category_without_subcategories_is_kept() {
    let tree = root(vec![car_dir(
        "honda_nsx_gt3",
        vec![track_dir("notATrack", vec![file("a.json", Some(VALID), Some(1))])],
    )]);
    let s = scan_folder_structure(&tree).unwrap();
    assert_eq!(s.cars.len(), 1);
    assert_eq!(s.cars[0].car_id, "honda_nsx_gt3");
    assert!(s.cars[0].tracks.is_empty());
    assert_eq!(s.total_setups, 0);
}

#[test]
fn one_malformed_file_keeps_the_others() {
    let tree = root(vec![car_dir(
        "mclaren_720s_gt3",
        vec![track_dir(
            "Suzuka",
            vec![
                file("a.json", Some(VALID), Some(1)),
                file("broken.json", Some(MALFORMED), Some(2)),
                file("b.json", Some("[1, 2, 3]"), Some(3)),
            ],
        )],
    )]);
    let s = scan_folder_structure(&tree).unwrap();
    let setups = &s.cars[0].tracks[0].setups;
    assert_eq!(setups.len(), 2);
    assert_eq!(setups[0].filename, "a.json");
    assert_eq!(setups[1].filename, "b.json");
    assert_eq!(s.total_setups, 2);
}

#[test]
fn unreadable_file_and_missing_mtime_are_skipped() {
    let tree = root(vec![car_dir(
        "audi_r8_evo_ii",
        vec![track_dir(
            "Imola",
            vec![
                file("unreadable.json", None, Some(1)),
                file("no_mtime.json", Some(VALID), None),
                file("good.json", Some(VALID), Some(9)),
            ],
        )],
    )]);
    let s = scan_folder_structure(&tree).unwrap();
    let setups = &s.cars[0].tracks[0].setups;
    assert_eq!(setups.len(), 1);
    assert_eq!(setups[0].filename, "good.json");
}

#[test]
fn hidden_and_foreign_entries_are_skipped() {
    let mut not_a_file = file("weird.json", Some(VALID), Some(1));
    not_a_file.is_file = false;
    let tree = root(vec![
        car_dir(
            "lexus_rc_f_gt3",
            vec![
                track_dir(
                    "donington",
                    vec![
                        file(".hidden.json", Some(VALID), Some(1)),
                        file("notes.txt", Some(VALID), Some(1)),
                        file("real.json", Some(VALID), Some(1)),
                        not_a_file,
                    ],
                ),
                RawTrackDir { name: ".git".to_string(), is_dir: true, files: Some(vec![]) },
            ],
        ),
        RawCarDir { name: ".cache".to_string(), is_dir: true, tracks: Some(vec![]) },
    ]);
    let s = scan_folder_structure(&tree).unwrap();
    assert_eq!(s.cars.len(), 1);
    assert_eq!(s.cars[0].tracks.len(), 1);
    assert_eq!(s.cars[0].tracks[0].setups.len(), 1);
    assert_eq!(s.cars[0].tracks[0].setups[0].filename, "real.json");
}

#[test]
fn unlistable_branches_degrade_to_absent() {
    let tree = root(vec![
        RawCarDir { name: "bmw_m4_gt3".to_string(), is_dir: true, tracks: None },
        car_dir(
            "porsche_991_gt3_r",
            vec![
                RawTrackDir { name: "monza".to_string(), is_dir: true, files: None },
                track_dir("Spa", vec![file("q.json", Some(VALID), Some(4))]),
            ],
        ),
    ]);
    let s = scan_folder_structure(&tree).unwrap();
    assert_eq!(s.cars.len(), 1);
    assert_eq!(s.cars[0].car_id, "porsche_991_gt3_r");
    assert_eq!(s.cars[0].tracks.len(), 1);
    assert_eq!(s.cars[0].tracks[0].track_id, "Spa");
    assert_eq!(s.total_setups, 1);
}

#[test]
fn unlistable_root_fails_the_scan() {
    let tree = RawRoot { path: "/missing".to_string(), dirs: None };
    match scan_folder_structure(&tree) {
        Err(AccError::SetupsFolderNotFound { path }) => assert_eq!(path, "/missing"),
        other => panic!("expected SetupsFolderNotFound, got {:?}", other),
    }
}

#[test]
fn levels_are_sorted_by_display_name() {
    let tree = root(vec![
        car_dir(
            "mercedes_amg_gt3",
            vec![
                track_dir("Zandvoort", vec![file("z.json", Some(VALID), Some(1))]),
                track_dir("Barcelona", vec![file("a.json", Some(VALID), Some(1))]),
            ],
        ),
        car_dir(
            "alpine_a110_gt4",
            vec![track_dir(
                "monza",
                vec![
                    file("b_two.json", Some(VALID), Some(1)),
                    file("a_one.json", Some(VALID), Some(1)),
                ],
            )],
        ),
    ]);
    let s = scan_folder_structure(&tree).unwrap();
    // cars: "A110" before "AMG GT"
    assert_eq!(s.cars[0].car_name, "A110");
    assert_eq!(s.cars[1].car_name, "AMG GT");
    // tracks: "Barcelona" before "Zandvoort"
    assert_eq!(s.cars[1].tracks[0].track_name, "Barcelona");
    assert_eq!(s.cars[1].tracks[1].track_name, "Zandvoort");
    // setups: "a one" before "b two"
    assert_eq!(s.cars[0].tracks[0].setups[0].display_name, "a one");
    assert_eq!(s.cars[0].tracks[0].setups[1].display_name, "b two");
    assert_eq!(s.total_setups, 4);
}

#[test]
fn get_setup_info_maps_one_entry() {
    let f = file("race_day_2.json", Some(VALID), Some(77));
    let info = get_setup_info(&f).unwrap();
    assert_eq!(info.filename, "race_day_2.json");
    assert_eq!(info.display_name, "race day 2");
    assert_eq!(info.last_modified, 77);
    assert!(get_setup_info(&file("race.json", Some(MALFORMED), Some(1))).is_none());
    assert!(get_setup_info(&file("race.json", None, Some(1))).is_none());
    assert!(get_setup_info(&file("race.json", Some(VALID), None)).is_none());
    assert!(get_setup_info(&file("race", Some(VALID), Some(1))).is_none());
}

#[test]
fn scan_track_folder_resolves_and_filters() {
    let ok = track_dir("Kyalami", vec![file("x.json", Some(VALID), Some(1))]);
    let t = scan_track_folder(&ok).unwrap();
    assert_eq!(t.track_id, "Kyalami");
    assert_eq!(t.track_name, "Kyalami");
    assert_eq!(t.setups.len(), 1);
    let unknown = track_dir("atlantis", vec![file("x.json", Some(VALID), Some(1))]);
    assert!(scan_track_folder(&unknown).is_none());
    let empty = track_dir("Kyalami", vec![]);
    assert!(scan_track_folder(&empty).is_none());
}

#[test]
fn scan_car_folder_resolves_and_sorts() {
    let c = scan_car_folder(&car_dir(
        "ktm_xbow_gt4",
        vec![
            track_dir("Suzuka", vec![file("s.json", Some(VALID), Some(1))]),
            track_dir("misano", vec![file("m.json", Some(VALID), Some(1))]),
        ],
    ))
    .unwrap();
    assert_eq!(c.car_id, "ktm_xbow_gt4");
    assert_eq!(c.car_name, "X-Bow");
    assert_eq!(c.tracks[0].track_name, "Misano");
    assert_eq!(c.tracks[1].track_name, "Suzuka");
    assert!(scan_car_folder(&car_dir("no_such_car", vec![])).is_none());
}

#[test]
fn valid_json_forms_accepted_malformed_rejected() {
    // Exercises the well-formedness check through the public scan: an
    // array and an object both count, trailing garbage does not.
    let tree = root(vec![car_dir(
        "ginetta_g55_gt4",
        vec![track_dir(
            "snetterton",
            vec![
                file("obj.json", Some("{}"), Some(1)),
                file("arr.json", Some("[]"), Some(1)),
                file("num.json", Some("42"), Some(1)),
                file("trail.json", Some("{} {}"), Some(1)),
                file("empty.json", Some(""), Some(1)),
            ],
        )],
    )]);
    let s = scan_folder_structure(&tree).unwrap();
    let names: Vec<&str> =
        s.cars[0].tracks[0].setups.iter().map(|l| l.filename.as_str()).collect();
    assert_eq!(names, vec!["arr.json", "num.json", "obj.json"]);
}
