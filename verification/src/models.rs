//! The data model: catalog metadata, leaf entries, subcategory and
//! category nodes, and the snapshot of a whole tree, together with their
//! mathematical views and the snapshot's well-formedness.
use vstd::prelude::*;

use crate::order::{sorted_by, sum_by};

verus! {

/// Car metadata from the reference catalog.
#[derive(Debug, PartialEq, Eq)]
pub struct Car {
    pub id: String,
    pub pretty_name: String,
}

/// The mathematical value of a `Car`.
pub ghost struct CarV {
    pub id: Seq<char>,
    pub pretty_name: Seq<char>,
}

impl View for Car {
    type V = CarV;

    open spec fn view(&self) -> CarV {
        CarV { id: self.id@, pretty_name: self.pretty_name@ }
    }
}

impl DeepView for Car {
    type V = CarV;

    open spec fn deep_view(&self) -> CarV {
        self.view()
    }
}

/// Track metadata from the reference catalog.
#[derive(Debug, PartialEq, Eq)]
pub struct Track {
    pub id: String,
    pub pretty_name: String,
}

/// The mathematical value of a `Track`.
pub ghost struct TrackV {
    pub id: Seq<char>,
    pub pretty_name: Seq<char>,
}

impl View for Track {
    type V = TrackV;

    open spec fn view(&self) -> TrackV {
        TrackV { id: self.id@, pretty_name: self.pretty_name@ }
    }
}

impl DeepView for Track {
    type V = TrackV;

    open spec fn deep_view(&self) -> TrackV {
        self.view()
    }
}

/// One leaf file found by a scan. Timestamps are milliseconds since the
/// Unix epoch.
#[derive(Debug, PartialEq, Eq)]
pub struct SetupInfo {
    pub filename: String,
    pub display_name: String,
    pub last_modified: i64,
}

/// The mathematical value of a `SetupInfo`.
pub ghost struct SetupInfoV {
    pub filename: Seq<char>,
    pub display_name: Seq<char>,
    pub last_modified: i64,
}

impl View for SetupInfo {
    type V = SetupInfoV;

    open spec fn view(&self) -> SetupInfoV {
        SetupInfoV {
            filename: self.filename@,
            display_name: self.display_name@,
            last_modified: self.last_modified,
        }
    }
}

impl DeepView for SetupInfo {
    type V = SetupInfoV;

    open spec fn deep_view(&self) -> SetupInfoV {
        self.view()
    }
}

impl Clone for SetupInfo {
    fn clone(&self) -> (r: Self)
        ensures
            r@ == self@,
    {
        SetupInfo {
            filename: self.filename.clone(),
            display_name: self.display_name.clone(),
            last_modified: self.last_modified,
        }
    }
}

/// A subcategory node: one track directory and its leaf entries.
#[derive(Debug, PartialEq, Eq)]
pub struct TrackFolder {
    pub track_id: String,
    pub track_name: String,
    pub setups: Vec<SetupInfo>,
}

/// The mathematical value of a `TrackFolder`.
pub ghost struct TrackFolderV {
    pub track_id: Seq<char>,
    pub track_name: Seq<char>,
    pub setups: Seq<SetupInfoV>,
}

impl View for TrackFolder {
    type V = TrackFolderV;

    open spec fn view(&self) -> TrackFolderV {
        TrackFolderV {
            track_id: self.track_id@,
            track_name: self.track_name@,
            setups: self.setups.deep_view(),
        }
    }
}

impl DeepView for TrackFolder {
    type V = TrackFolderV;

    open spec fn deep_view(&self) -> TrackFolderV {
        self.view()
    }
}

impl Clone for TrackFolder {
    fn clone(&self) -> (r: Self)
        ensures
            r@ == self@,
    {
        let setups = self.setups.clone();
        proof {
            assert(setups.deep_view() =~= self.setups.deep_view());
        }
        TrackFolder {
            track_id: self.track_id.clone(),
            track_name: self.track_name.clone(),
            setups,
        }
    }
}

/// A category node: one car directory and its subcategory nodes.
#[derive(Debug, PartialEq, Eq)]
pub struct CarFolder {
    pub car_id: String,
    pub car_name: String,
    pub tracks: Vec<TrackFolder>,
}

/// The mathematical value of a `CarFolder`.
pub ghost struct CarFolderV {
    pub car_id: Seq<char>,
    pub car_name: Seq<char>,
    pub tracks: Seq<TrackFolderV>,
}

impl View for CarFolder {
    type V = CarFolderV;

    open spec fn view(&self) -> CarFolderV {
        CarFolderV {
            car_id: self.car_id@,
            car_name: self.car_name@,
            tracks: self.tracks.deep_view(),
        }
    }
}

impl DeepView for CarFolder {
    type V = CarFolderV;

    open spec fn deep_view(&self) -> CarFolderV {
        self.view()
    }
}

impl Clone for CarFolder {
    fn clone(&self) -> (r: Self)
        ensures
            r@ == self@,
    {
        let tracks = self.tracks.clone();
        proof {
            assert(tracks.deep_view() =~= self.tracks.deep_view());
        }
        CarFolder { car_id: self.car_id.clone(), car_name: self.car_name.clone(), tracks }
    }
}

/// A complete snapshot of the tree: the category nodes, the total number
/// of leaf entries, and the time the scan completed.
#[derive(Debug, PartialEq, Eq)]
pub struct FolderStructure {
    pub cars: Vec<CarFolder>,
    pub total_setups: usize,
    pub last_scan: i64,
}

/// The mathematical value of a `FolderStructure`.
pub ghost struct FolderStructureV {
    pub cars: Seq<CarFolderV>,
    pub total_setups: int,
    pub last_scan: i64,
}

impl View for FolderStructure {
    type V = FolderStructureV;

    open spec fn view(&self) -> FolderStructureV {
        FolderStructureV {
            cars: self.cars.deep_view(),
            total_setups: self.total_setups as int,
            last_scan: self.last_scan,
        }
    }
}

impl Clone for FolderStructure {
    fn clone(&self) -> (r: Self)
        ensures
            r@ == self@,
    {
        let cars = self.cars.clone();
        proof {
            assert(cars.deep_view() =~= self.cars.deep_view());
        }
        FolderStructure { cars, total_setups: self.total_setups, last_scan: self.last_scan }
    }
}

/// The weight of a subcategory node: how many leaf entries it holds.
pub open spec fn track_weight() -> spec_fn(TrackFolderV) -> int {
    |t: TrackFolderV| t.setups.len() as int
}

/// The number of leaf entries under a sequence of subcategory nodes.
pub open spec fn tracks_total(tracks: Seq<TrackFolderV>) -> int {
    sum_by(tracks, track_weight())
}

/// The weight of a category node: how many leaf entries it holds.
pub open spec fn car_weight() -> spec_fn(CarFolderV) -> int {
    |c: CarFolderV| tracks_total(c.tracks)
}

/// The number of leaf entries under one category node.
pub open spec fn car_total(car: CarFolderV) -> int {
    tracks_total(car.tracks)
}

/// The number of leaf entries under a sequence of category nodes.
pub open spec fn total_of(cars: Seq<CarFolderV>) -> int {
    sum_by(cars, car_weight())
}

/// The key a leaf entry is ordered by.
pub open spec fn setup_key() -> spec_fn(SetupInfoV) -> Seq<char> {
    |l: SetupInfoV| l.display_name
}

/// The key a subcategory node is ordered by.
pub open spec fn track_key() -> spec_fn(TrackFolderV) -> Seq<char> {
    |t: TrackFolderV| t.track_name
}

/// The key a category node is ordered by.
pub open spec fn car_key() -> spec_fn(CarFolderV) -> Seq<char> {
    |c: CarFolderV| c.car_name
}

/// A subcategory node is well formed when its leaves are sorted by
/// display name and it holds at least one leaf.
pub open spec fn track_wf(t: TrackFolderV) -> bool {
    &&& sorted_by(t.setups, setup_key())
    &&& t.setups.len() > 0
}

/// A category node is well formed when its subcategory nodes are sorted
/// by display name and each is well formed.
pub open spec fn car_wf(c: CarFolderV) -> bool {
    &&& sorted_by(c.tracks, track_key())
    &&& forall|j: int| 0 <= j < c.tracks.len() ==> track_wf(#[trigger] c.tracks[j])
}

/// A snapshot is well formed when its category nodes are sorted by
/// display name and well formed, and the total is the sum over the tree.
pub open spec fn snapshot_wf(s: FolderStructureV) -> bool {
    &&& sorted_by(s.cars, car_key())
    &&& forall|i: int| 0 <= i < s.cars.len() ==> car_wf(#[trigger] s.cars[i])
    &&& s.total_setups == total_of(s.cars)
}

/// Two snapshots are semantically equal when they agree on every
/// category, subcategory and leaf and on the total; only the completion
/// stamp may differ.
pub open spec fn semantically_equal(a: FolderStructureV, b: FolderStructureV) -> bool {
    a.cars == b.cars && a.total_setups == b.total_setups
}

/// Identifies a single leaf file by category, subcategory and file name.
#[derive(Debug, Clone, PartialEq, Eq)]
pub struct GetSetupRequest {
    pub car: String,
    pub track: String,
    pub filename: String,
}

/// Identifies a leaf file to delete.
#[derive(Debug, Clone, PartialEq, Eq)]
pub struct DeleteSetupRequest {
    pub car: String,
    pub track: String,
    pub filename: String,
}

/// The outcome of importing one file.
#[derive(Debug, Clone, PartialEq, Eq)]
pub struct ImportResult {
    pub path: String,
    pub success: bool,
    pub error: Option<String>,
    pub car: Option<String>,
    pub track: Option<String>,
    pub filename: Option<String>,
}

} // verus!
