use accsm::models::{DeleteSetupRequest, GetSetupRequest, ImportResult};

#[test]
fn request_types_carry_their_fields() {
    let get = GetSetupRequest {
        car: "bmw_m4_gt3".to_string(),
        track: "monza".to_string(),
        filename: "race.json".to_string(),
    };
    let del = DeleteSetupRequest {
        car: get.car.clone(),
        track: get.track.clone(),
        filename: get.filename.clone(),
    };
    assert_eq!(get.clone(), get);
    assert_eq!(del.car, "bmw_m4_gt3");
    assert_eq!(del.track, "monza");
    assert_eq!(del.filename, "race.json");
}

#[test]
fn import_result_reports_success_and_failure() {
    let ok = ImportResult {
        path: "a/b/c.json".to_string(),
        success: true,
        error: None,
        car: Some("bmw_m4_gt3".to_string()),
        track: Some("monza".to_string()),
        filename: Some("c.json".to_string()),
    };
    let failed = ImportResult {
        path: "bad.json".to_string(),
        success: false,
        error: Some("not a setup".to_string()),
        car: None,
        track: None,
        filename: None,
    };
    assert!(ok.success && ok.error.is_none());
    assert!(!failed.success && failed.car.is_none());
    assert_ne!(ok, failed);
}
