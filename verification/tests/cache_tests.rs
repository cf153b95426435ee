use std::sync::Arc;

use accsm::errors::AccError;
use accsm::scan::{RawCarDir, RawFile, RawRoot, RawTrackDir};
use accsm::state::AppStateManager;

const VALID: &str = "{\"setup\": true}";

fn leaf(name: &str) -> RawFile {
    RawFile {
        name: name.to_string(),
        is_file: true,
        content: Some(VALID.to_string()),
        modified: Some(1),
    }
}

fn tree_with(path: &str, car: &str, track: &str, files: Vec<RawFile>) -> RawRoot {
    RawRoot {
        path: path.to_string(),
        dirs: Some(vec![RawCarDir {
            name: car.to_string(),
            is_dir: true,
            tracks: Some(vec![RawTrackDir {
                name: track.to_string(),
                is_dir: true,
                files: Some(files),
            }]),
        }]),
    }
}

fn dead_tree(path: &str) -> RawRoot {
    RawRoot { path: path.to_string(), dirs: None }
}

#[test]
fn get_scans_once_then_serves_the_cache() {
    let mut cache = AppStateManager::new("/setups".to_string());
    let tree = tree_with("/setups", "bmw_m4_gt3", "monza", vec![leaf("a.json")]);
    let first = cache.get_folder_structure(&tree).unwrap();
    assert_eq!(first.total_setups, 1);
    // the tree is only consulted while no snapshot is held
    let second = cache.get_folder_structure(&dead_tree("/setups")).unwrap();
    assert_eq!(second.cars, first.cars);
    assert_eq!(second.last_scan, first.last_scan);
}

#[test]
fn failed_refresh_preserves_the_snapshot() {
    let mut cache = AppStateManager::new("/setups".to_string());
    let tree = tree_with("/setups", "bmw_m4_gt3", "monza", vec![leaf("a.json")]);
    cache.refresh_folder_structure(&tree).unwrap();
    let before = cache.get_folder_structure(&dead_tree("/setups")).unwrap();
    match cache.refresh_folder_structure(&dead_tree("/setups")) {
        Err(AccError::SetupsFolderNotFound { path }) => assert_eq!(path, "/setups"),
        other => panic!("expected SetupsFolderNotFound, got {:?}", other),
    }
    let after = cache.get_folder_structure(&dead_tree("/setups")).unwrap();
    assert_eq!(before, after);
}

#[test]
fn successful_refresh_replaces_the_snapshot_wholesale() {
    let mut cache = AppStateManager::new("/setups".to_string());
    let t1 = tree_with("/setups", "bmw_m4_gt3", "monza", vec![leaf("a.json")]);
    let t2 = tree_with(
        "/setups",
        "ferrari_488_gt3",
        "Spa",
        vec![leaf("x.json"), leaf("y.json")],
    );
    cache.refresh_folder_structure(&t1).unwrap();
    cache.refresh_folder_structure(&t2).unwrap();
    let s = cache.get_folder_structure(&dead_tree("/setups")).unwrap();
    assert_eq!(s.cars.len(), 1);
    assert_eq!(s.cars[0].car_id, "ferrari_488_gt3");
    assert_eq!(s.total_setups, 2);
}

#[test]
fn set_path_to_missing_target_changes_nothing() {
    let mut cache = AppStateManager::new("/setups".to_string());
    let tree = tree_with("/setups", "bmw_m4_gt3", "monza", vec![leaf("a.json")]);
    cache.refresh_folder_structure(&tree).unwrap();
    let before = cache.get_folder_structure(&dead_tree("/setups")).unwrap();
    match cache.set_setups_path("/nowhere".to_string(), false, &dead_tree("/nowhere")) {
        Err(AccError::SetupsFolderNotFound { path }) => assert_eq!(path, "/nowhere"),
        other => panic!("expected SetupsFolderNotFound, got {:?}", other),
    }
    assert_eq!(cache.get_setups_path(), "/setups");
    let after = cache.get_folder_structure(&dead_tree("/setups")).unwrap();
    assert_eq!(before, after);
}

#[test]
fn set_path_to_existing_target_rescans() {
    let mut cache = AppStateManager::new("/old".to_string());
    let old_tree = tree_with("/old", "bmw_m4_gt3", "monza", vec![leaf("a.json")]);
    cache.refresh_folder_structure(&old_tree).unwrap();
    let new_tree = tree_with("/new", "honda_nsx_gt3", "Suzuka", vec![leaf("n.json")]);
    cache.set_setups_path("/new".to_string(), true, &new_tree).unwrap();
    assert_eq!(cache.get_setups_path(), "/new");
    let s = cache.get_folder_structure(&dead_tree("/new")).unwrap();
    assert_eq!(s.cars[0].car_id, "honda_nsx_gt3");
}

#[test]
fn set_path_records_root_even_when_refresh_fails() {
    let mut cache = AppStateManager::new("/old".to_string());
    let old_tree = tree_with("/old", "bmw_m4_gt3", "monza", vec![leaf("a.json")]);
    cache.refresh_folder_structure(&old_tree).unwrap();
    let before = cache.get_folder_structure(&dead_tree("/old")).unwrap();
    // the path exists but its listing fails: the root moves, the error
    // propagates, and the stale snapshot stays
    match cache.set_setups_path("/new".to_string(), true, &dead_tree("/new")) {
        Err(AccError::SetupsFolderNotFound { path }) => assert_eq!(path, "/new"),
        other => panic!("expected SetupsFolderNotFound, got {:?}", other),
    }
    assert_eq!(cache.get_setups_path(), "/new");
    let after = cache.get_folder_structure(&dead_tree("/new")).unwrap();
    assert_eq!(before, after);
}

#[test]
fn concurrent_readers_and_refreshers_see_whole_snapshots() {
    let runtime = tokio::runtime::Builder::new_multi_thread()
        .worker_threads(4)
        .build()
        .unwrap();
    runtime.block_on(async {
        let cache = Arc::new(tokio::sync::RwLock::new(AppStateManager::new(
            "/setups".to_string(),
        )));
        let t1 = Arc::new(tree_with("/setups", "bmw_m4_gt3", "monza", vec![leaf("a.json")]));
        let t2 = Arc::new(tree_with(
            "/setups",
            "ferrari_488_gt3",
            "Spa",
            vec![leaf("x.json"), leaf("y.json")],
        ));
        cache.write().await.refresh_folder_structure(&t1).unwrap();
        let mut handles = Vec::new();
        for i in 0..16usize {
            let cache = Arc::clone(&cache);
            let tree = if i % 2 == 0 { Arc::clone(&t1) } else { Arc::clone(&t2) };
            handles.push(tokio::spawn(async move {
                cache.write().await.refresh_folder_structure(&tree).unwrap();
            }));
        }
        for _ in 0..16usize {
            let cache = Arc::clone(&cache);
            handles.push(tokio::spawn(async move {
                let s = cache
                    .write()
                    .await
                    .get_folder_structure(&RawRoot { path: String::new(), dirs: None })
                    .unwrap();
                // every observed snapshot is one a completed refresh
                // produced, never a mixture
                match s.cars.len() {
                    1 => {
                        let car = &s.cars[0];
                        if car.car_id == "bmw_m4_gt3" {
                            assert_eq!(s.total_setups, 1);
                            assert_eq!(car.tracks[0].track_id, "monza");
                        } else {
                            assert_eq!(car.car_id, "ferrari_488_gt3");
                            assert_eq!(s.total_setups, 2);
                            assert_eq!(car.tracks[0].track_id, "Spa");
                        }
                    },
                    n => panic!("torn snapshot with {} cars", n),
                }
            }));
        }
        for h in handles {
            h.await.unwrap();
        }
    });
}
