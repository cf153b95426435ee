use accsm::data::{find_car_by_folder, find_track_by_folder, get_cars, get_tracks};

#[test]
fn car_catalog_contents() {
    let cars = get_cars();
    assert_eq!(cars.len(), 28);
    assert_eq!(cars[0].id, "audi_r8_evo");
    assert_eq!(cars[0].pretty_name, "R8 Evo");
    assert_eq!(cars[27].id, "porsche_718_cayman_gt4_clubsport");
    assert_eq!(cars[27].pretty_name, "718 Cayman");
    assert!(cars.iter().any(|c| c.id == "lamborghini_huracan_gt3" && c.pretty_name == "Huracán"));
}

#[test]
fn track_catalog_contents() {
    let tracks = get_tracks();
    assert_eq!(tracks.len(), 26);
    assert_eq!(tracks[0].id, "Barcelona");
    assert!(tracks.iter().any(|t| t.id == "nurburgring" && t.pretty_name == "Nürburgring"));
    assert!(tracks.iter().any(|t| t.id == "magny_cours" && t.pretty_name == "Magny-Cours"));
}

#[test]
fn find_car_matches_exactly() {
    let car = find_car_by_folder("bmw_m4_gt3").unwrap();
    assert_eq!(car.id, "bmw_m4_gt3");
    assert_eq!(car.pretty_name, "M4");
    assert!(find_car_by_folder("bmw_m4").is_none());
    assert!(find_car_by_folder("BMW_M4_GT3").is_none());
    assert!(find_car_by_folder("").is_none());
}

#[test]
fn find_track_matches_exactly() {
    let track = find_track_by_folder("monza").unwrap();
    assert_eq!(track.id, "monza");
    assert_eq!(track.pretty_name, "Monza");
    let cased = find_track_by_folder("Laguna_Seca").unwrap();
    assert_eq!(cased.pretty_name, "Laguna Seca");
    assert!(find_track_by_folder("laguna_seca").is_none());
    assert!(find_track_by_folder("moon").is_none());
}
