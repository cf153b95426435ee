//! The reference catalog: the known cars and tracks, and exact-match
//! lookup from a folder name to the catalog entry.
use vstd::prelude::*;

use crate::models::{Car, CarV, Track, TrackV};
use crate::text::str_eq;

verus! {

/// The catalog of known cars, in listing order.
pub open spec fn cars_catalog() -> Seq<CarV> {
    seq![
        CarV { id: "audi_r8_evo"@, pretty_name: "R8 Evo"@ },
        CarV { id: "audi_r8_evo_ii"@, pretty_name: "R8 Evo II"@ },
        CarV { id: "bmw_m4_gt3"@, pretty_name: "M4"@ },
        CarV { id: "bentley_continental_gt3_2018"@, pretty_name: "Continental"@ },
        CarV { id: "ferrari_488_gt3"@, pretty_name: "488"@ },
        CarV { id: "ferrari_488_gt3_evo"@, pretty_name: "488 Evo"@ },
        CarV { id: "lamborghini_huracan_gt3"@, pretty_name: "Huracán"@ },
        CarV { id: "lamborghini_huracan_gt3_evo"@, pretty_name: "Huracán Evo"@ },
        CarV { id: "lamborghini_huracan_gt3_evo2"@, pretty_name: "Huracán Evo2"@ },
        CarV { id: "mclaren_720s_gt3"@, pretty_name: "720S"@ },
        CarV { id: "mercedes_amg_gt3"@, pretty_name: "AMG GT"@ },
        CarV { id: "mercedes_amg_gt3_evo"@, pretty_name: "AMG GT Evo"@ },
        CarV { id: "porsche_991_gt3_r"@, pretty_name: "991 GT3 R"@ },
        CarV { id: "porsche_991ii_gt3_r"@, pretty_name: "991.2 GT3 R"@ },
        CarV { id: "nissan_gt_r_gt3_2018"@, pretty_name: "GT-R Nismo"@ },
        CarV { id: "lexus_rc_f_gt3"@, pretty_name: "RC F"@ },
        CarV { id: "honda_nsx_gt3"@, pretty_name: "NSX"@ },
        CarV { id: "honda_nsx_gt3_evo"@, pretty_name: "NSX Evo"@ },
        CarV { id: "alpine_a110_gt4"@, pretty_name: "A110"@ },
        CarV { id: "aston_martin_vantage_gt4"@, pretty_name: "Vantage"@ },
        CarV { id: "bmw_m4_gt4"@, pretty_name: "M4"@ },
        CarV { id: "chevrolet_camaro_gt4r"@, pretty_name: "Camaro"@ },
        CarV { id: "ginetta_g55_gt4"@, pretty_name: "G55"@ },
        CarV { id: "ktm_xbow_gt4"@, pretty_name: "X-Bow"@ },
        CarV { id: "maserati_mc_gt4"@, pretty_name: "MC"@ },
        CarV { id: "mclaren_570s_gt4"@, pretty_name: "570S"@ },
        CarV { id: "mercedes_amg_gt4"@, pretty_name: "AMG GT"@ },
        CarV { id: "porsche_718_cayman_gt4_clubsport"@, pretty_name: "718 Cayman"@ },
    ]
}

/// The catalog of known tracks, in listing order.
pub open spec fn tracks_catalog() -> Seq<TrackV> {
    seq![
        TrackV { id: "Barcelona"@, pretty_name: "Barcelona"@ },
        TrackV { id: "brands_hatch"@, pretty_name: "Brands Hatch"@ },
        TrackV { id: "cota"@, pretty_name: "COTA"@ },
        TrackV { id: "donington"@, pretty_name: "Donington"@ },
        TrackV { id: "Hungaroring"@, pretty_name: "Hungaroring"@ },
        TrackV { id: "Imola"@, pretty_name: "Imola"@ },
        TrackV { id: "indianapolis"@, pretty_name: "Indianapolis"@ },
        TrackV { id: "Kyalami"@, pretty_name: "Kyalami"@ },
        TrackV { id: "Laguna_Seca"@, pretty_name: "Laguna Seca"@ },
        TrackV { id: "misano"@, pretty_name: "Misano"@ },
        TrackV { id: "monza"@, pretty_name: "Monza"@ },
        TrackV { id: "mount_panorama"@, pretty_name: "Mount Panorama"@ },
        TrackV { id: "nurburgring"@, pretty_name: "Nürburgring"@ },
        TrackV { id: "nurburgring_24h"@, pretty_name: "Nürburgring 24h"@ },
        TrackV { id: "oulton_park"@, pretty_name: "Oulton Park"@ },
        TrackV { id: "Paul_Ricard"@, pretty_name: "Paul Ricard"@ },
        TrackV { id: "Silverstone"@, pretty_name: "Silverstone"@ },
        TrackV { id: "snetterton"@, pretty_name: "Snetterton"@ },
        TrackV { id: "Spa"@, pretty_name: "Spa"@ },
        TrackV { id: "Suzuka"@, pretty_name: "Suzuka"@ },
        TrackV { id: "Valencia"@, pretty_name: "Valencia"@ },
        TrackV { id: "watkins_glen"@, pretty_name: "Watkins Glen"@ },
        TrackV { id: "Zandvoort"@, pretty_name: "Zandvoort"@ },
        TrackV { id: "Zolder"@, pretty_name: "Zolder"@ },
        TrackV { id: "red_bull_ring"@, pretty_name: "Red Bull Ring"@ },
        TrackV { id: "magny_cours"@, pretty_name: "Magny-Cours"@ },
    ]
}

/// The first catalog car whose identifier is `name`, if any.
pub open spec fn lookup_car_in(s: Seq<CarV>, name: Seq<char>) -> Option<CarV>
    decreases s.len(),
{
    if s.len() == 0 {
        None
    } else if s.first().id == name {
        Some(s.first())
    } else {
        lookup_car_in(s.drop_first(), name)
    }
}

/// The catalog car for a folder name, if the name is recognized.
pub open spec fn car_lookup(name: Seq<char>) -> Option<CarV> {
    lookup_car_in(cars_catalog(), name)
}

/// The first catalog track whose identifier is `name`, if any.
pub open spec fn lookup_track_in(s: Seq<TrackV>, name: Seq<char>) -> Option<TrackV>
    decreases s.len(),
{
    if s.len() == 0 {
        None
    } else if s.first().id == name {
        Some(s.first())
    } else {
        lookup_track_in(s.drop_first(), name)
    }
}

/// The catalog track for a folder name, if the name is recognized.
pub open spec fn track_lookup(name: Seq<char>) -> Option<TrackV> {
    lookup_track_in(tracks_catalog(), name)
}

/// Builds the car catalog.
pub fn get_cars() -> (r: Vec<Car>)
    ensures
        r.deep_view() == cars_catalog(),
{
    let r: Vec<Car> = vec![
        Car { id: "audi_r8_evo".to_owned(), pretty_name: "R8 Evo".to_owned() },
        Car { id: "audi_r8_evo_ii".to_owned(), pretty_name: "R8 Evo II".to_owned() },
        Car { id: "bmw_m4_gt3".to_owned(), pretty_name: "M4".to_owned() },
        Car {
            id: "bentley_continental_gt3_2018".to_owned(),
            pretty_name: "Continental".to_owned(),
        },
        Car { id: "ferrari_488_gt3".to_owned(), pretty_name: "488".to_owned() },
        Car { id: "ferrari_488_gt3_evo".to_owned(), pretty_name: "488 Evo".to_owned() },
        Car { id: "lamborghini_huracan_gt3".to_owned(), pretty_name: "Huracán".to_owned() },
        Car {
            id: "lamborghini_huracan_gt3_evo".to_owned(),
            pretty_name: "Huracán Evo".to_owned(),
        },
        Car {
            id: "lamborghini_huracan_gt3_evo2".to_owned(),
            pretty_name: "Huracán Evo2".to_owned(),
        },
        Car { id: "mclaren_720s_gt3".to_owned(), pretty_name: "720S".to_owned() },
        Car { id: "mercedes_amg_gt3".to_owned(), pretty_name: "AMG GT".to_owned() },
        Car { id: "mercedes_amg_gt3_evo".to_owned(), pretty_name: "AMG GT Evo".to_owned() },
        Car { id: "porsche_991_gt3_r".to_owned(), pretty_name: "991 GT3 R".to_owned() },
        Car { id: "porsche_991ii_gt3_r".to_owned(), pretty_name: "991.2 GT3 R".to_owned() },
        Car { id: "nissan_gt_r_gt3_2018".to_owned(), pretty_name: "GT-R Nismo".to_owned() },
        Car { id: "lexus_rc_f_gt3".to_owned(), pretty_name: "RC F".to_owned() },
        Car { id: "honda_nsx_gt3".to_owned(), pretty_name: "NSX".to_owned() },
        Car { id: "honda_nsx_gt3_evo".to_owned(), pretty_name: "NSX Evo".to_owned() },
        Car { id: "alpine_a110_gt4".to_owned(), pretty_name: "A110".to_owned() },
        Car { id: "aston_martin_vantage_gt4".to_owned(), pretty_name: "Vantage".to_owned() },
        Car { id: "bmw_m4_gt4".to_owned(), pretty_name: "M4".to_owned() },
        Car { id: "chevrolet_camaro_gt4r".to_owned(), pretty_name: "Camaro".to_owned() },
        Car { id: "ginetta_g55_gt4".to_owned(), pretty_name: "G55".to_owned() },
        Car { id: "ktm_xbow_gt4".to_owned(), pretty_name: "X-Bow".to_owned() },
        Car { id: "maserati_mc_gt4".to_owned(), pretty_name: "MC".to_owned() },
        Car { id: "mclaren_570s_gt4".to_owned(), pretty_name: "570S".to_owned() },
        Car { id: "mercedes_amg_gt4".to_owned(), pretty_name: "AMG GT".to_owned() },
        Car {
            id: "porsche_718_cayman_gt4_clubsport".to_owned(),
            pretty_name: "718 Cayman".to_owned(),
        },
    ];
    proof {
        assert(r.deep_view() =~= cars_catalog());
    }
    r
}

/// Builds the track catalog.
pub fn get_tracks() -> (r: Vec<Track>)
    ensures
        r.deep_view() == tracks_catalog(),
{
    let r: Vec<Track> = vec![
        Track { id: "Barcelona".to_owned(), pretty_name: "Barcelona".to_owned() },
        Track { id: "brands_hatch".to_owned(), pretty_name: "Brands Hatch".to_owned() },
        Track { id: "cota".to_owned(), pretty_name: "COTA".to_owned() },
        Track { id: "donington".to_owned(), pretty_name: "Donington".to_owned() },
        Track { id: "Hungaroring".to_owned(), pretty_name: "Hungaroring".to_owned() },
        Track { id: "Imola".to_owned(), pretty_name: "Imola".to_owned() },
        Track { id: "indianapolis".to_owned(), pretty_name: "Indianapolis".to_owned() },
        Track { id: "Kyalami".to_owned(), pretty_name: "Kyalami".to_owned() },
        Track { id: "Laguna_Seca".to_owned(), pretty_name: "Laguna Seca".to_owned() },
        Track { id: "misano".to_owned(), pretty_name: "Misano".to_owned() },
        Track { id: "monza".to_owned(), pretty_name: "Monza".to_owned() },
        Track { id: "mount_panorama".to_owned(), pretty_name: "Mount Panorama".to_owned() },
        Track { id: "nurburgring".to_owned(), pretty_name: "Nürburgring".to_owned() },
        Track { id: "nurburgring_24h".to_owned(), pretty_name: "Nürburgring 24h".to_owned() },
        Track { id: "oulton_park".to_owned(), pretty_name: "Oulton Park".to_owned() },
        Track { id: "Paul_Ricard".to_owned(), pretty_name: "Paul Ricard".to_owned() },
        Track { id: "Silverstone".to_owned(), pretty_name: "Silverstone".to_owned() },
        Track { id: "snetterton".to_owned(), pretty_name: "Snetterton".to_owned() },
        Track { id: "Spa".to_owned(), pretty_name: "Spa".to_owned() },
        Track { id: "Suzuka".to_owned(), pretty_name: "Suzuka".to_owned() },
        Track { id: "Valencia".to_owned(), pretty_name: "Valencia".to_owned() },
        Track { id: "watkins_glen".to_owned(), pretty_name: "Watkins Glen".to_owned() },
        Track { id: "Zandvoort".to_owned(), pretty_name: "Zandvoort".to_owned() },
        Track { id: "Zolder".to_owned(), pretty_name: "Zolder".to_owned() },
        Track { id: "red_bull_ring".to_owned(), pretty_name: "Red Bull Ring".to_owned() },
        Track { id: "magny_cours".to_owned(), pretty_name: "Magny-Cours".to_owned() },
    ];
    proof {
        assert(r.deep_view() =~= tracks_catalog());
    }
    r
}

/// Finds the catalog car whose identifier equals the folder name.
pub fn find_car_by_folder(folder_name: &str) -> (r: Option<Car>)
    ensures
        match r {
            Some(c) => car_lookup(folder_name@) == Some(c@),
            None => car_lookup(folder_name@) is None,
        },
{
    let cars = get_cars();
    proof {
        assert(cars_catalog().skip(0) =~= cars_catalog());
    }
    for i in 0..cars.len()
        invariant
            cars.deep_view() == cars_catalog(),
            car_lookup(folder_name@) == lookup_car_in(
                cars_catalog().skip(i as int),
                folder_name@,
            ),
            forall|j: int| 0 <= j < i ==> cars_catalog()[j].id != folder_name@,
    {
        proof {
            assert(cars_catalog().skip(i as int).first() == cars_catalog()[i as int]);
            assert(cars_catalog().skip(i as int).drop_first() =~= cars_catalog().skip(i + 1));
            assert(cars.deep_view()[i as int] == cars[i as int]@);
        }
        if str_eq(cars[i].id.as_str(), folder_name) {
            let c = Car { id: cars[i].id.clone(), pretty_name: cars[i].pretty_name.clone() };
            return Some(c);
        }
    }
    None
}

/// Finds the catalog track whose identifier equals the folder name.
pub fn find_track_by_folder(folder_name: &str) -> (r: Option<Track>)
    ensures
        match r {
            Some(t) => track_lookup(folder_name@) == Some(t@),
            None => track_lookup(folder_name@) is None,
        },
{
    let tracks = get_tracks();
    proof {
        assert(tracks_catalog().skip(0) =~= tracks_catalog());
    }
    for i in 0..tracks.len()
        invariant
            tracks.deep_view() == tracks_catalog(),
            track_lookup(folder_name@) == lookup_track_in(
                tracks_catalog().skip(i as int),
                folder_name@,
            ),
            forall|j: int| 0 <= j < i ==> tracks_catalog()[j].id != folder_name@,
    {
        proof {
            assert(tracks_catalog().skip(i as int).first() == tracks_catalog()[i as int]);
            assert(tracks_catalog().skip(i as int).drop_first() =~= tracks_catalog().skip(i + 1));
            assert(tracks.deep_view()[i as int] == tracks[i as int]@);
        }
        if str_eq(tracks[i].id.as_str(), folder_name) {
            let t = Track {
                id: tracks[i].id.clone(),
                pretty_name: tracks[i].pretty_name.clone(),
            };
            return Some(t);
        }
    }
    None
}

} // verus!
