//! The folder scanner. The surrounding application walks the root
//! directory and records what it found as a raw tree of plain values;
//! the scanner turns that raw tree into a snapshot: it resolves folder
//! names against the catalog, validates leaf files, derives display
//! names, sorts every level and sums the leaf count.
//!
//! A directory listing that failed is recorded as `None` and degrades
//! that branch to absent; only a missing or unlistable root fails the
//! whole scan.
use vstd::prelude::*;

use crate::data::{car_lookup, track_lookup};
use crate::errors::{AccError, AccResult};
use crate::models::{
    car_key, car_total, car_wf, car_weight, setup_key, snapshot_wf, total_of, track_key, track_wf,
    track_weight, tracks_total, CarFolder, CarFolderV, FolderStructure, FolderStructureV,
    SetupInfo, SetupInfoV, TrackFolder, TrackFolderV,
};
use crate::order::{
    insert_by, lemma_insert_by_at, lemma_sort_by_key, lemma_sort_by_key_contains,
    lemma_sum_by_concat, lemma_sum_by_nonneg, lemma_sum_by_singleton, lemma_sum_by_sort,
    sort_by_key, sum_by,
};
use crate::text::{
    chars_of, chars_lt, display_name, ends_in_json, has_json_suffix, spec_display_name,
};

verus! {

/// Whether a string is a well-formed structured document. The name
/// stands for what `serde_json::from_str` accepts; it depends on the
/// characters alone.
pub uninterp spec fn json_ok(s: Seq<char>) -> bool;

/// Relies on `serde_json::from_str::<Value>`: it succeeds exactly on
/// well-formed JSON text, and its outcome depends on the text alone.
#[verifier::external_body]
pub(crate) fn json_well_formed(s: &str) -> (r: bool)
    ensures
        r == json_ok(s@),
{
    match serde_json::from_str::<serde_json::Value>(s) {
        Ok(_) => true,
        Err(_) => false,
    }
}

/// Relies on std's `SystemTime::now` read against the Unix epoch: the
/// clock's offset, as a direction and a magnitude in milliseconds. Both
/// arms of the read are handled, so no clock state panics. Nothing is
/// promised of the value.
#[verifier::external_body]
fn clock_epoch_offset() -> (r: (bool, u128)) {
    match std::time::SystemTime::now().duration_since(std::time::UNIX_EPOCH) {
        Ok(d) => (false, d.as_millis()),
        Err(e) => (true, e.duration().as_millis()),
    }
}

/// The current time as signed milliseconds since the Unix epoch,
/// saturated to the `i64` range.
pub(crate) fn now_millis() -> i64 {
    let (before_epoch, millis) = clock_epoch_offset();
    if before_epoch {
        if millis > i64::MAX as u128 {
            i64::MIN
        } else {
            -(millis as i64)
        }
    } else {
        if millis > i64::MAX as u128 {
            i64::MAX
        } else {
            millis as i64
        }
    }
}

/// One directory entry at the leaf level, as the walk found it. A
/// `content` of `None` records a file that could not be read; a
/// `modified` of `None` records a modification time that could not be
/// obtained.
pub struct RawFile {
    pub name: String,
    pub is_file: bool,
    pub content: Option<String>,
    pub modified: Option<i64>,
}

/// The mathematical value of a `RawFile`.
pub ghost struct RawFileV {
    pub name: Seq<char>,
    pub is_file: bool,
    pub content: Option<Seq<char>>,
    pub modified: Option<i64>,
}

impl View for RawFile {
    type V = RawFileV;

    open spec fn view(&self) -> RawFileV {
        RawFileV {
            name: self.name@,
            is_file: self.is_file,
            content: match self.content {
                Some(c) => Some(c@),
                None => None,
            },
            modified: self.modified,
        }
    }
}

impl DeepView for RawFile {
    type V = RawFileV;

    open spec fn deep_view(&self) -> RawFileV {
        self.view()
    }
}

/// One directory entry at the subcategory level. A `files` of `None`
/// records a directory that could not be listed.
pub struct RawTrackDir {
    pub name: String,
    pub is_dir: bool,
    pub files: Option<Vec<RawFile>>,
}

/// The mathematical value of a `RawTrackDir`.
pub ghost struct RawTrackDirV {
    pub name: Seq<char>,
    pub is_dir: bool,
    pub files: Option<Seq<RawFileV>>,
}

impl View for RawTrackDir {
    type V = RawTrackDirV;

    open spec fn view(&self) -> RawTrackDirV {
        RawTrackDirV {
            name: self.name@,
            is_dir: self.is_dir,
            files: match self.files {
                Some(fs) => Some(fs.deep_view()),
                None => None,
            },
        }
    }
}

impl DeepView for RawTrackDir {
    type V = RawTrackDirV;

    open spec fn deep_view(&self) -> RawTrackDirV {
        self.view()
    }
}

/// One directory entry at the category level. A `tracks` of `None`
/// records a directory that could not be listed.
pub struct RawCarDir {
    pub name: String,
    pub is_dir: bool,
    pub tracks: Option<Vec<RawTrackDir>>,
}

/// The mathematical value of a `RawCarDir`.
pub ghost struct RawCarDirV {
    pub name: Seq<char>,
    pub is_dir: bool,
    pub tracks: Option<Seq<RawTrackDirV>>,
}

impl View for RawCarDir {
    type V = RawCarDirV;

    open spec fn view(&self) -> RawCarDirV {
        RawCarDirV {
            name: self.name@,
            is_dir: self.is_dir,
            tracks: match self.tracks {
                Some(ts) => Some(ts.deep_view()),
                None => None,
            },
        }
    }
}

impl DeepView for RawCarDir {
    type V = RawCarDirV;

    open spec fn deep_view(&self) -> RawCarDirV {
        self.view()
    }
}

/// What a walk of the root found. A `dirs` of `None` records a root that
/// does not exist or could not be listed.
pub struct RawRoot {
    pub path: String,
    pub dirs: Option<Vec<RawCarDir>>,
}

/// The mathematical value of a `RawRoot`.
pub ghost struct RawRootV {
    pub path: Seq<char>,
    pub dirs: Option<Seq<RawCarDirV>>,
}

impl View for RawRoot {
    type V = RawRootV;

    open spec fn view(&self) -> RawRootV {
        RawRootV {
            path: self.path@,
            dirs: match self.dirs {
                Some(ds) => Some(ds.deep_view()),
                None => None,
            },
        }
    }
}

/// A name beginning with a dot is hidden.
pub open spec fn hidden_name(name: Seq<char>) -> bool {
    name.len() > 0 && name.first() == '.'
}

/// A leaf file name must carry the leaf suffix and not be hidden.
pub open spec fn leaf_file_name_ok(name: Seq<char>) -> bool {
    has_json_suffix(name) && !hidden_name(name)
}

/// A raw entry becomes a leaf entry exactly when it is a non-hidden file
/// with the leaf suffix, its content was read and is well formed, and
/// its modification time is known.
pub open spec fn leaf_ok(f: RawFileV) -> bool {
    &&& f.is_file
    &&& leaf_file_name_ok(f.name)
    &&& f.content is Some
    &&& json_ok(f.content->0)
    &&& f.modified is Some
}

/// The leaf entry a qualifying raw entry becomes.
pub open spec fn setup_of(f: RawFileV) -> SetupInfoV {
    SetupInfoV {
        filename: f.name,
        display_name: spec_display_name(f.name),
        last_modified: f.modified->0,
    }
}

/// The leaf entries of a listing, in listing order: qualifying entries
/// mapped, all others dropped.
pub open spec fn spec_scan_files(files: Seq<RawFileV>) -> Seq<SetupInfoV>
    decreases files.len(),
{
    if files.len() == 0 {
        Seq::empty()
    } else {
        spec_scan_files(files.drop_last()) + if leaf_ok(files.last()) {
            seq![setup_of(files.last())]
        } else {
            Seq::empty()
        }
    }
}

/// Turns one raw entry into a leaf entry, or nothing if any check on it
/// fails.
pub fn get_setup_info(file: &RawFile) -> (r: Option<SetupInfo>)
    ensures
        r is Some <==> leaf_ok(file@),
        r matches Some(s) ==> s@ == setup_of(file@),
{
    if !file.is_file {
        return None;
    }
    let name_chars = chars_of(file.name.as_str());
    if !ends_in_json(&name_chars) {
        return None;
    }
    if name_chars.len() > 0 && name_chars[0] == '.' {
        return None;
    }
    let content = match &file.content {
        Some(c) => c,
        None => {
            return None;
        },
    };
    if !json_well_formed(content.as_str()) {
        return None;
    }
    let modified = match &file.modified {
        Some(m) => *m,
        None => {
            return None;
        },
    };
    Some(
        SetupInfo {
            filename: file.name.clone(),
            display_name: display_name(file.name.as_str()),
            last_modified: modified,
        },
    )
}

/// Collects the leaf entries of a listing, in listing order.
fn scan_setup_files(files: &Vec<RawFile>) -> (r: Vec<SetupInfo>)
    ensures
        r.deep_view() == spec_scan_files(files.deep_view()),
{
    let mut r: Vec<SetupInfo> = Vec::new();
    proof {
        assert(files.deep_view().take(0) =~= Seq::<RawFileV>::empty());
    }
    for i in 0..files.len()
        invariant
            files.deep_view().len() == files.len(),
            r.deep_view() == spec_scan_files(files.deep_view().take(i as int)),
    {
        proof {
            assert(files.deep_view().take(i + 1).drop_last() =~= files.deep_view().take(i as int));
            assert(files.deep_view().take(i + 1).last() == files.deep_view()[i as int]);
            assert(files.deep_view()[i as int] == files[i as int]@);
        }
        match get_setup_info(&files[i]) {
            Some(s) => {
                r.push(s);
                proof {
                    assert(r.deep_view() =~= spec_scan_files(files.deep_view().take(i + 1)));
                }
            },
            None => {
                proof {
                    assert(r.deep_view() =~= spec_scan_files(files.deep_view().take(i + 1)));
                }
            },
        }
    }
    proof {
        assert(files.deep_view().take(files.len() as int) =~= files.deep_view());
    }
    r
}

/// Inserts a leaf entry into a vector sorted by display name, after any
/// entries of equal name.
fn insert_sorted_setup(v: Vec<SetupInfo>, x: SetupInfo) -> (r: Vec<SetupInfo>)
    ensures
        r.deep_view() == insert_by(v.deep_view(), x@, setup_key()),
{
    let ghost k = setup_key();
    let ghost orig = v.deep_view();
    let xkey = chars_of(x.display_name.as_str());
    let mut w = v;
    let mut pos: usize = 0;
    let mut stop = false;
    while pos < w.len() && !stop
        invariant
            k == setup_key(),
            w.deep_view() == orig,
            pos <= w.len(),
            w.deep_view().len() == w.len(),
            xkey@ == k(x@),
            forall|j: int| 0 <= j < pos ==> crate::text::lex_le(k(orig[j]), k(x@)),
            stop ==> pos < w.len() && !crate::text::lex_le(k(orig[pos as int]), k(x@)),
        decreases w.len() - pos + if stop {
            0int
        } else {
            1int
        },
    {
        let vkey = chars_of(w[pos].display_name.as_str());
        proof {
            assert(w.deep_view()[pos as int] == w[pos as int]@);
        }
        if chars_lt(&xkey, &vkey) {
            stop = true;
        } else {
            pos += 1;
        }
    }
    proof {
        lemma_insert_by_at(orig, x@, k, pos as int);
    }
    w.insert(pos, x);
    proof {
        assert(w.deep_view() =~= orig.insert(pos as int, x@));
    }
    w
}

/// Sorts leaf entries by display name, stably.
fn sort_setups(v: Vec<SetupInfo>) -> (r: Vec<SetupInfo>)
    ensures
        r.deep_view() == sort_by_key(v.deep_view(), setup_key()),
{
    let ghost k = setup_key();
    let mut r: Vec<SetupInfo> = Vec::new();
    proof {
        assert(v.deep_view().take(0) =~= Seq::<SetupInfoV>::empty());
    }
    for i in 0..v.len()
        invariant
            k == setup_key(),
            v.deep_view().len() == v.len(),
            r.deep_view() == sort_by_key(v.deep_view().take(i as int), k),
    {
        proof {
            assert(v.deep_view().take(i + 1).drop_last() =~= v.deep_view().take(i as int));
            assert(v.deep_view().take(i + 1).last() == v.deep_view()[i as int]);
            assert(v.deep_view()[i as int] == v[i as int]@);
        }
        r = insert_sorted_setup(r, v[i].clone());
    }
    proof {
        assert(v.deep_view().take(v.len() as int) =~= v.deep_view());
    }
    r
}

/// Inserts a subcategory node into a vector sorted by display name.
fn insert_sorted_track(v: Vec<TrackFolder>, x: TrackFolder) -> (r: Vec<TrackFolder>)
    ensures
        r.deep_view() == insert_by(v.deep_view(), x@, track_key()),
{
    let ghost k = track_key();
    let ghost orig = v.deep_view();
    let xkey = chars_of(x.track_name.as_str());
    let mut w = v;
    let mut pos: usize = 0;
    let mut stop = false;
    while pos < w.len() && !stop
        invariant
            k == track_key(),
            w.deep_view() == orig,
            pos <= w.len(),
            w.deep_view().len() == w.len(),
            xkey@ == k(x@),
            forall|j: int| 0 <= j < pos ==> crate::text::lex_le(k(orig[j]), k(x@)),
            stop ==> pos < w.len() && !crate::text::lex_le(k(orig[pos as int]), k(x@)),
        decreases w.len() - pos + if stop {
            0int
        } else {
            1int
        },
    {
        let vkey = chars_of(w[pos].track_name.as_str());
        proof {
            assert(w.deep_view()[pos as int] == w[pos as int]@);
        }
        if chars_lt(&xkey, &vkey) {
            stop = true;
        } else {
            pos += 1;
        }
    }
    proof {
        lemma_insert_by_at(orig, x@, k, pos as int);
    }
    w.insert(pos, x);
    proof {
        assert(w.deep_view() =~= orig.insert(pos as int, x@));
    }
    w
}

/// Sorts subcategory nodes by display name, stably.
fn sort_tracks(v: Vec<TrackFolder>) -> (r: Vec<TrackFolder>)
    ensures
        r.deep_view() == sort_by_key(v.deep_view(), track_key()),
{
    let ghost k = track_key();
    let mut r: Vec<TrackFolder> = Vec::new();
    proof {
        assert(v.deep_view().take(0) =~= Seq::<TrackFolderV>::empty());
    }
    for i in 0..v.len()
        invariant
            k == track_key(),
            v.deep_view().len() == v.len(),
            r.deep_view() == sort_by_key(v.deep_view().take(i as int), k),
    {
        proof {
            assert(v.deep_view().take(i + 1).drop_last() =~= v.deep_view().take(i as int));
            assert(v.deep_view().take(i + 1).last() == v.deep_view()[i as int]);
            assert(v.deep_view()[i as int] == v[i as int]@);
        }
        r = insert_sorted_track(r, v[i].clone());
    }
    proof {
        assert(v.deep_view().take(v.len() as int) =~= v.deep_view());
    }
    r
}

/// Inserts a category node into a vector sorted by display name.
fn insert_sorted_car(v: Vec<CarFolder>, x: CarFolder) -> (r: Vec<CarFolder>)
    ensures
        r.deep_view() == insert_by(v.deep_view(), x@, car_key()),
{
    let ghost k = car_key();
    let ghost orig = v.deep_view();
    let xkey = chars_of(x.car_name.as_str());
    let mut w = v;
    let mut pos: usize = 0;
    let mut stop = false;
    while pos < w.len() && !stop
        invariant
            k == car_key(),
            w.deep_view() == orig,
            pos <= w.len(),
            w.deep_view().len() == w.len(),
            xkey@ == k(x@),
            forall|j: int| 0 <= j < pos ==> crate::text::lex_le(k(orig[j]), k(x@)),
            stop ==> pos < w.len() && !crate::text::lex_le(k(orig[pos as int]), k(x@)),
        decreases w.len() - pos + if stop {
            0int
        } else {
            1int
        },
    {
        let vkey = chars_of(w[pos].car_name.as_str());
        proof {
            assert(w.deep_view()[pos as int] == w[pos as int]@);
        }
        if chars_lt(&xkey, &vkey) {
            stop = true;
        } else {
            pos += 1;
        }
    }
    proof {
        lemma_insert_by_at(orig, x@, k, pos as int);
    }
    w.insert(pos, x);
    proof {
        assert(w.deep_view() =~= orig.insert(pos as int, x@));
    }
    w
}

/// Sorts category nodes by display name, stably.
fn sort_cars(v: Vec<CarFolder>) -> (r: Vec<CarFolder>)
    ensures
        r.deep_view() == sort_by_key(v.deep_view(), car_key()),
{
    let ghost k = car_key();
    let mut r: Vec<CarFolder> = Vec::new();
    proof {
        assert(v.deep_view().take(0) =~= Seq::<CarFolderV>::empty());
    }
    for i in 0..v.len()
        invariant
            k == car_key(),
            v.deep_view().len() == v.len(),
            r.deep_view() == sort_by_key(v.deep_view().take(i as int), k),
    {
        proof {
            assert(v.deep_view().take(i + 1).drop_last() =~= v.deep_view().take(i as int));
            assert(v.deep_view().take(i + 1).last() == v.deep_view()[i as int]);
            assert(v.deep_view()[i as int] == v[i as int]@);
        }
        r = insert_sorted_car(r, v[i].clone());
    }
    proof {
        assert(v.deep_view().take(v.len() as int) =~= v.deep_view());
    }
    r
}

/// A subcategory directory enters the snapshot exactly when it is a
/// non-hidden directory whose name the catalog recognizes, its listing
/// succeeded, and it holds at least one leaf entry.
pub open spec fn track_included(d: RawTrackDirV) -> bool {
    &&& d.is_dir
    &&& !hidden_name(d.name)
    &&& track_lookup(d.name) is Some
    &&& d.files is Some
    &&& spec_scan_files(d.files->0).len() > 0
}

/// The subcategory node an included directory becomes.
pub open spec fn track_node_of(d: RawTrackDirV) -> TrackFolderV {
    TrackFolderV {
        track_id: track_lookup(d.name)->0.id,
        track_name: track_lookup(d.name)->0.pretty_name,
        setups: sort_by_key(spec_scan_files(d.files->0), setup_key()),
    }
}

/// The subcategory nodes of a category listing, in listing order.
pub open spec fn spec_scan_tracks(dirs: Seq<RawTrackDirV>) -> Seq<TrackFolderV>
    decreases dirs.len(),
{
    if dirs.len() == 0 {
        Seq::empty()
    } else {
        spec_scan_tracks(dirs.drop_last()) + if track_included(dirs.last()) {
            seq![track_node_of(dirs.last())]
        } else {
            Seq::empty()
        }
    }
}

/// A category directory enters the snapshot exactly when it is a
/// non-hidden directory whose name the catalog recognizes and its
/// listing succeeded — even when no subcategory of it does.
pub open spec fn car_included(d: RawCarDirV) -> bool {
    &&& d.is_dir
    &&& !hidden_name(d.name)
    &&& car_lookup(d.name) is Some
    &&& d.tracks is Some
}

/// The category node an included directory becomes.
pub open spec fn car_node_of(d: RawCarDirV) -> CarFolderV {
    CarFolderV {
        car_id: car_lookup(d.name)->0.id,
        car_name: car_lookup(d.name)->0.pretty_name,
        tracks: sort_by_key(spec_scan_tracks(d.tracks->0), track_key()),
    }
}

/// The category nodes of a root listing, in listing order.
pub open spec fn spec_scan_cars(dirs: Seq<RawCarDirV>) -> Seq<CarFolderV>
    decreases dirs.len(),
{
    if dirs.len() == 0 {
        Seq::empty()
    } else {
        spec_scan_cars(dirs.drop_last()) + if car_included(dirs.last()) {
            seq![car_node_of(dirs.last())]
        } else {
            Seq::empty()
        }
    }
}

/// The category nodes of a snapshot of the raw tree, sorted.
pub open spec fn scan_cars_of(t: RawRootV) -> Seq<CarFolderV>
    recommends
        t.dirs is Some,
{
    sort_by_key(spec_scan_cars(t.dirs->0), car_key())
}

/// The total leaf count of a snapshot of the raw tree.
pub open spec fn scan_total_of(t: RawRootV) -> int
    recommends
        t.dirs is Some,
{
    total_of(spec_scan_cars(t.dirs->0))
}

/// The weight of a raw subcategory directory: how many raw entries its
/// listing holds.
pub open spec fn track_dir_weight() -> spec_fn(RawTrackDirV) -> int {
    |d: RawTrackDirV|
        if d.files is Some {
            d.files->0.len() as int
        } else {
            0
        }
}

/// The raw entries under a sequence of subcategory directories.
pub open spec fn track_dirs_count(dirs: Seq<RawTrackDirV>) -> int {
    sum_by(dirs, track_dir_weight())
}

/// The weight of a raw category directory: how many raw entries sit two
/// levels under it.
pub open spec fn car_dir_weight() -> spec_fn(RawCarDirV) -> int {
    |d: RawCarDirV|
        if d.tracks is Some {
            track_dirs_count(d.tracks->0)
        } else {
            0
        }
}

/// The raw entries under a sequence of category directories.
pub open spec fn car_dirs_count(dirs: Seq<RawCarDirV>) -> int {
    sum_by(dirs, car_dir_weight())
}

/// The raw leaf-level entries under the whole raw tree. A scan can only
/// be asked of a tree whose count fits in `usize`.
pub open spec fn root_count(t: RawRootV) -> int {
    if t.dirs is Some {
        car_dirs_count(t.dirs->0)
    } else {
        0
    }
}

/// Counts are nonnegative.
pub proof fn lemma_track_dirs_count_nonneg(dirs: Seq<RawTrackDirV>)
    ensures
        track_dirs_count(dirs) >= 0,
{
    assert forall|d: RawTrackDirV| #[trigger] track_dir_weight()(d) >= 0 by {}
    lemma_sum_by_nonneg(dirs, track_dir_weight());
}

/// Counts are nonnegative.
pub proof fn lemma_car_dirs_count_nonneg(dirs: Seq<RawCarDirV>)
    ensures
        car_dirs_count(dirs) >= 0,
{
    assert forall|d: RawCarDirV| #[trigger] car_dir_weight()(d) >= 0 by {
        if d.tracks is Some {
            lemma_track_dirs_count_nonneg(d.tracks->0);
        }
    }
    lemma_sum_by_nonneg(dirs, car_dir_weight());
}

/// A listing yields at most one leaf entry per raw entry.
pub proof fn lemma_scan_files_len(files: Seq<RawFileV>)
    ensures
        spec_scan_files(files).len() <= files.len(),
    decreases files.len(),
{
    if files.len() > 0 {
        lemma_scan_files_len(files.drop_last());
    }
}

/// An included subcategory directory becomes a well-formed node holding
/// as many leaves as its listing yielded.
pub proof fn lemma_track_node_wf(d: RawTrackDirV)
    requires
        track_included(d),
    ensures
        track_wf(track_node_of(d)),
        track_node_of(d).setups.len() == spec_scan_files(d.files->0).len(),
{
    lemma_sort_by_key(spec_scan_files(d.files->0), setup_key());
}

/// Every node of a category listing is well formed, and together they
/// hold at most one leaf per raw entry.
pub proof fn lemma_spec_scan_tracks_props(dirs: Seq<RawTrackDirV>)
    ensures
        forall|i: int|
            0 <= i < spec_scan_tracks(dirs).len() ==> track_wf(#[trigger] spec_scan_tracks(dirs)[i]),
        0 <= tracks_total(spec_scan_tracks(dirs)) <= track_dirs_count(dirs),
    decreases dirs.len(),
{
    if dirs.len() == 0 {
    } else {
        lemma_spec_scan_tracks_props(dirs.drop_last());
        let s0 = spec_scan_tracks(dirs.drop_last());
        let last = dirs.last();
        let s = spec_scan_tracks(dirs);
        if track_included(last) {
            lemma_track_node_wf(last);
            lemma_scan_files_len(last.files->0);
            lemma_sum_by_concat(s0, seq![track_node_of(last)], track_weight());
            lemma_sum_by_singleton(track_node_of(last), track_weight());
            assert forall|i: int| 0 <= i < s.len() implies track_wf(#[trigger] s[i]) by {
                if i < s0.len() {
                    assert(s[i] == s0[i]);
                } else {
                    assert(s[i] == track_node_of(last));
                }
            }
        } else {
            assert(s =~= s0);
            assert(track_dir_weight()(last) >= 0);
        }
    }
}

/// An included category directory becomes a well-formed node holding at
/// most one leaf per raw entry under it.
pub proof fn lemma_car_node_wf(d: RawCarDirV)
    requires
        car_included(d),
    ensures
        car_wf(car_node_of(d)),
        0 <= car_total(car_node_of(d)) <= car_dir_weight()(d),
{
    let tracks0 = spec_scan_tracks(d.tracks->0);
    let node = car_node_of(d);
    lemma_spec_scan_tracks_props(d.tracks->0);
    lemma_sort_by_key(tracks0, track_key());
    lemma_sort_by_key_contains(tracks0, track_key());
    lemma_sum_by_sort(tracks0, track_key(), track_weight());
    assert forall|j: int| 0 <= j < node.tracks.len() implies track_wf(#[trigger] node.tracks[j]) by {
        let t = node.tracks[j];
        assert(node.tracks.contains(t));
        assert(tracks0.contains(t));
        let i = choose|i: int| 0 <= i < tracks0.len() && tracks0[i] == t;
        assert(track_wf(tracks0[i]));
    }
}

/// Every node of a root listing is well formed, and together they hold
/// at most one leaf per raw entry.
pub proof fn lemma_spec_scan_cars_props(dirs: Seq<RawCarDirV>)
    ensures
        forall|i: int|
            0 <= i < spec_scan_cars(dirs).len() ==> car_wf(#[trigger] spec_scan_cars(dirs)[i]),
        0 <= total_of(spec_scan_cars(dirs)) <= car_dirs_count(dirs),
    decreases dirs.len(),
{
    if dirs.len() == 0 {
    } else {
        lemma_spec_scan_cars_props(dirs.drop_last());
        let s0 = spec_scan_cars(dirs.drop_last());
        let last = dirs.last();
        let s = spec_scan_cars(dirs);
        if car_included(last) {
            lemma_car_node_wf(last);
            lemma_sum_by_concat(s0, seq![car_node_of(last)], car_weight());
            lemma_sum_by_singleton(car_node_of(last), car_weight());
            assert forall|i: int| 0 <= i < s.len() implies car_wf(#[trigger] s[i]) by {
                if i < s0.len() {
                    assert(s[i] == s0[i]);
                } else {
                    assert(s[i] == car_node_of(last));
                }
            }
        } else {
            assert(s =~= s0);
            if last.tracks is Some {
                lemma_track_dirs_count_nonneg(last.tracks->0);
            }
            assert(car_dir_weight()(last) >= 0);
        }
    }
}

/// Scans one subcategory directory: resolves its name, collects and
/// sorts its leaf entries, and drops the directory if none remain.
pub fn scan_track_folder(dir: &RawTrackDir) -> (r: Option<TrackFolder>)
    ensures
        r is Some <==> track_included(dir@),
        r matches Some(t) ==> t@ == track_node_of(dir@),
{
    if !dir.is_dir {
        return None;
    }
    let name_chars = chars_of(dir.name.as_str());
    if name_chars.len() > 0 && name_chars[0] == '.' {
        return None;
    }
    let meta = match crate::data::find_track_by_folder(dir.name.as_str()) {
        Some(m) => m,
        None => {
            return None;
        },
    };
    let files = match &dir.files {
        Some(fs) => fs,
        None => {
            return None;
        },
    };
    let setups = scan_setup_files(files);
    if setups.len() == 0 {
        return None;
    }
    let sorted = sort_setups(setups);
    Some(TrackFolder { track_id: meta.id, track_name: meta.pretty_name, setups: sorted })
}

/// Scans one category directory: resolves its name and scans each of its
/// subcategory directories, sorting what remains.
pub fn scan_car_folder(dir: &RawCarDir) -> (r: Option<CarFolder>)
    ensures
        r is Some <==> car_included(dir@),
        r matches Some(c) ==> c@ == car_node_of(dir@),
{
    if !dir.is_dir {
        return None;
    }
    let name_chars = chars_of(dir.name.as_str());
    if name_chars.len() > 0 && name_chars[0] == '.' {
        return None;
    }
    let meta = match crate::data::find_car_by_folder(dir.name.as_str()) {
        Some(m) => m,
        None => {
            return None;
        },
    };
    let track_dirs = match &dir.tracks {
        Some(ts) => ts,
        None => {
            return None;
        },
    };
    let ghost tv = track_dirs.deep_view();
    let mut tracks: Vec<TrackFolder> = Vec::new();
    proof {
        assert(tv.take(0) =~= Seq::<RawTrackDirV>::empty());
    }
    for i in 0..track_dirs.len()
        invariant
            tv == track_dirs.deep_view(),
            tv.len() == track_dirs.len(),
            tracks.deep_view() == spec_scan_tracks(tv.take(i as int)),
    {
        proof {
            assert(tv.take(i + 1).drop_last() =~= tv.take(i as int));
            assert(tv.take(i + 1).last() == tv[i as int]);
            assert(tv[i as int] == track_dirs[i as int]@);
        }
        match scan_track_folder(&track_dirs[i]) {
            Some(t) => {
                tracks.push(t);
                proof {
                    assert(tracks.deep_view() =~= spec_scan_tracks(tv.take(i + 1)));
                }
            },
            None => {
                proof {
                    assert(tracks.deep_view() =~= spec_scan_tracks(tv.take(i + 1)));
                }
            },
        }
    }
    proof {
        assert(tv.take(track_dirs.len() as int) =~= tv);
    }
    let sorted = sort_tracks(tracks);
    Some(CarFolder { car_id: meta.id, car_name: meta.pretty_name, tracks: sorted })
}

/// Sums the leaf entries of a car's subcategory nodes.
fn count_track_setups(tracks: &Vec<TrackFolder>) -> (r: usize)
    requires
        tracks_total(tracks.deep_view()) <= usize::MAX,
    ensures
        r == tracks_total(tracks.deep_view()),
{
    let ghost tv = tracks.deep_view();
    let mut total: usize = 0;
    proof {
        assert(tv.take(0) =~= Seq::<TrackFolderV>::empty());
    }
    for i in 0..tracks.len()
        invariant
            tv == tracks.deep_view(),
            tv.len() == tracks.len(),
            tracks_total(tv) <= usize::MAX,
            total == tracks_total(tv.take(i as int)),
    {
        proof {
            assert(tv.take(i + 1).drop_last() =~= tv.take(i as int));
            assert(tv.take(i + 1).last() == tv[i as int]);
            assert(tv[i as int] == tracks[i as int]@);
            assert(tracks_total(tv.take(i + 1)) == tracks_total(tv.take(i as int)) + tv[i
                as int].setups.len());
            assert(tv =~= tv.take(i + 1) + tv.skip(i + 1));
            lemma_sum_by_concat(tv.take(i + 1), tv.skip(i + 1), track_weight());
            assert forall|t: TrackFolderV| #[trigger] track_weight()(t) >= 0 by {}
            lemma_sum_by_nonneg(tv.skip(i + 1), track_weight());
            assert(tracks_total(tv.take(i + 1)) <= tracks_total(tv));
        }
        total = total + tracks[i].setups.len();
    }
    proof {
        assert(tv.take(tracks.len() as int) =~= tv);
    }
    total
}

/// Builds the snapshot of a raw tree whose root listing succeeded,
/// stamped with the given completion time.
pub fn build_structure(tree: &RawRoot, now: i64) -> (r: FolderStructure)
    requires
        tree@.dirs is Some,
        root_count(tree@) <= usize::MAX,
    ensures
        r@.cars == scan_cars_of(tree@),
        r@.total_setups == scan_total_of(tree@),
        r@.last_scan == now,
        snapshot_wf(r@),
{
    let dirs = match &tree.dirs {
        Some(ds) => ds,
        None => {
            proof {
                assert(false);
            }
            vstd::pervasive::unreached()
        },
    };
    let ghost dv = dirs.deep_view();
    let mut cars: Vec<CarFolder> = Vec::new();
    let mut total: usize = 0;
    proof {
        assert(dv.take(0) =~= Seq::<RawCarDirV>::empty());
    }
    for i in 0..dirs.len()
        invariant
            dv == dirs.deep_view(),
            dv.len() == dirs.len(),
            tree@.dirs == Some(dv),
            car_dirs_count(dv) <= usize::MAX,
            cars.deep_view() == spec_scan_cars(dv.take(i as int)),
            total == total_of(spec_scan_cars(dv.take(i as int))),
    {
        proof {
            assert(dv.take(i + 1).drop_last() =~= dv.take(i as int));
            assert(dv.take(i + 1).last() == dv[i as int]);
            assert(dv[i as int] == dirs[i as int]@);
        }
        match scan_car_folder(&dirs[i]) {
            Some(car) => {
                proof {
                    let node = car_node_of(dv[i as int]);
                    assert(car@ == node);
                    lemma_car_node_wf(dv[i as int]);
                    lemma_sum_by_concat(
                        spec_scan_cars(dv.take(i as int)),
                        seq![node],
                        car_weight(),
                    );
                    lemma_sum_by_singleton(node, car_weight());
                    lemma_spec_scan_cars_props(dv.take(i + 1));
                    // the raw count of the processed prefix bounds the total so far
                    assert(dv =~= dv.take(i + 1) + dv.skip(i + 1));
                    lemma_sum_by_concat(dv.take(i + 1), dv.skip(i + 1), car_dir_weight());
                    lemma_car_dirs_count_nonneg(dv.skip(i + 1));
                    assert(car_dirs_count(dv.take(i + 1)) <= car_dirs_count(dv));
                    assert(total_of(spec_scan_cars(dv.take(i + 1))) <= usize::MAX);
                    assert(total + car_total(node) <= usize::MAX);
                    lemma_spec_scan_tracks_props(dv[i as int].tracks->0);
                    lemma_sum_by_sort(
                        spec_scan_tracks(dv[i as int].tracks->0),
                        track_key(),
                        track_weight(),
                    );
                    assert(tracks_total(car.tracks.deep_view()) == car_total(node));
                    assert(tracks_total(car.tracks.deep_view()) >= 0);
                }
                let c = count_track_setups(&car.tracks);
                total = total + c;
                cars.push(car);
                proof {
                    assert(cars.deep_view() =~= spec_scan_cars(dv.take(i + 1)));
                }
            },
            None => {
                proof {
                    assert(cars.deep_view() =~= spec_scan_cars(dv.take(i + 1)));
                    lemma_car_dirs_count_nonneg(seq![dv[i as int]]);
                }
            },
        }
    }
    proof {
        assert(dv.take(dirs.len() as int) =~= dv);
    }
    let sorted = sort_cars(cars);
    proof {
        lemma_sort_by_key(spec_scan_cars(dv), car_key());
        lemma_sort_by_key_contains(spec_scan_cars(dv), car_key());
        lemma_sum_by_sort(spec_scan_cars(dv), car_key(), car_weight());
        lemma_spec_scan_cars_props(dv);
        assert forall|i: int| 0 <= i < sorted.deep_view().len() implies car_wf(
            #[trigger] sorted.deep_view()[i],
        ) by {
            let c = sorted.deep_view()[i];
            assert(sorted.deep_view().contains(c));
            assert(spec_scan_cars(dv).contains(c));
            let j = choose|j: int| 0 <= j < spec_scan_cars(dv).len() && spec_scan_cars(dv)[j] == c;
            assert(car_wf(spec_scan_cars(dv)[j]));
        }
    }
    FolderStructure { cars: sorted, total_setups: total, last_scan: now }
}

/// Scans a raw tree: fails with `SetupsFolderNotFound` when the root
/// itself was missing or unlistable, and otherwise builds the snapshot,
/// stamped with the current time.
pub fn scan_folder_structure(tree: &RawRoot) -> (r: AccResult<FolderStructure>)
    requires
        root_count(tree@) <= usize::MAX,
    ensures
        r is Ok <==> tree@.dirs is Some,
        r matches Ok(s) ==> s@.cars == scan_cars_of(tree@) && s@.total_setups == scan_total_of(
            tree@,
        ) && snapshot_wf(s@),
        r matches Err(e) ==> e matches AccError::SetupsFolderNotFound { path } && path@
            == tree@.path,
{
    match &tree.dirs {
        None => Err(AccError::SetupsFolderNotFound { path: tree.path.clone() }),
        Some(_) => {
            let now = now_millis();
            Ok(build_structure(tree, now))
        },
    }
}

/// Law: a root whose listing holds no recognized, listable category
/// directory yields an empty category list and a total of zero.
pub proof fn lemma_unrecognized_root_empty(t: RawRootV)
    requires
        t.dirs is Some,
        forall|i: int| 0 <= i < t.dirs->0.len() ==> !car_included(#[trigger] t.dirs->0[i]),
    ensures
        scan_cars_of(t).len() == 0,
        scan_total_of(t) == 0,
{
    lemma_scan_cars_none(t.dirs->0);
    lemma_sort_by_key(spec_scan_cars(t.dirs->0), car_key());
}

/// No entry of `dirs` is included, so the scan of `dirs` is empty.
proof fn lemma_scan_cars_none(dirs: Seq<RawCarDirV>)
    requires
        forall|i: int| 0 <= i < dirs.len() ==> !car_included(#[trigger] dirs[i]),
    ensures
        spec_scan_cars(dirs) == Seq::<CarFolderV>::empty(),
        total_of(spec_scan_cars(dirs)) == 0,
    decreases dirs.len(),
{
    if dirs.len() > 0 {
        assert(forall|i: int|
            0 <= i < dirs.drop_last().len() ==> !car_included(#[trigger] dirs.drop_last()[i]));
        lemma_scan_cars_none(dirs.drop_last());
        assert(!car_included(dirs.last()));
        assert(spec_scan_cars(dirs) =~= Seq::<CarFolderV>::empty());
    }
}

/// Law: scanning one tree is deterministic up to the completion stamp —
/// any two snapshots of the same raw tree are semantically equal.
pub proof fn lemma_scan_deterministic(t: RawRootV, s1: FolderStructureV, s2: FolderStructureV)
    requires
        t.dirs is Some,
        s1.cars == scan_cars_of(t),
        s1.total_setups == scan_total_of(t),
        s2.cars == scan_cars_of(t),
        s2.total_setups == scan_total_of(t),
    ensures
        crate::models::semantically_equal(s1, s2),
{
}

/// Law: a subcategory directory with no acceptable leaf files is absent
/// from the snapshot — every subcategory node present holds at least one
/// leaf.
pub proof fn lemma_empty_subcategory_absent(t: RawRootV, i: int, j: int)
    requires
        t.dirs is Some,
        0 <= i < scan_cars_of(t).len(),
        0 <= j < scan_cars_of(t)[i].tracks.len(),
    ensures
        scan_cars_of(t)[i].tracks[j].setups.len() > 0,
{
    let dirs = t.dirs->0;
    lemma_spec_scan_cars_props(dirs);
    lemma_sort_by_key_contains(spec_scan_cars(dirs), car_key());
    let c = scan_cars_of(t)[i];
    assert(scan_cars_of(t).contains(c));
    assert(spec_scan_cars(dirs).contains(c));
    let k = choose|k: int| 0 <= k < spec_scan_cars(dirs).len() && spec_scan_cars(dirs)[k] == c;
    assert(car_wf(spec_scan_cars(dirs)[k]));
}

/// Law: a recognized, listable category directory appears in the
/// snapshot even when none of its subcategories does.
pub proof fn lemma_recognized_category_present(t: RawRootV, i: int)
    requires
        t.dirs is Some,
        0 <= i < t.dirs->0.len(),
        car_included(t.dirs->0[i]),
    ensures
        exists|j: int|
            0 <= j < scan_cars_of(t).len() && scan_cars_of(t)[j] == car_node_of(t.dirs->0[i]),
{
    let dirs = t.dirs->0;
    lemma_scan_cars_contains(dirs, i);
    lemma_sort_by_key_contains(spec_scan_cars(dirs), car_key());
    assert(scan_cars_of(t).contains(car_node_of(dirs[i])));
}

/// The node of an included directory is among the scanned nodes.
proof fn lemma_scan_cars_contains(dirs: Seq<RawCarDirV>, i: int)
    requires
        0 <= i < dirs.len(),
        car_included(dirs[i]),
    ensures
        spec_scan_cars(dirs).contains(car_node_of(dirs[i])),
    decreases dirs.len(),
{
    let s = spec_scan_cars(dirs);
    let s0 = spec_scan_cars(dirs.drop_last());
    if i == dirs.len() - 1 {
        assert(s[s.len() - 1] == car_node_of(dirs[i]));
    } else {
        assert(dirs.drop_last()[i] == dirs[i]);
        lemma_scan_cars_contains(dirs.drop_last(), i);
        let k = choose|k: int| 0 <= k < s0.len() && s0[k] == car_node_of(dirs[i]);
        assert(s[k] == car_node_of(dirs[i]));
    }
}

/// Law: one rejected file does not disturb its neighbours — every
/// acceptable leaf of a listing appears in the subcategory's sorted leaf
/// entries, whatever the other entries hold.
pub proof fn lemma_valid_leaf_kept(files: Seq<RawFileV>, i: int)
    requires
        0 <= i < files.len(),
        leaf_ok(files[i]),
    ensures
        sort_by_key(spec_scan_files(files), setup_key()).contains(setup_of(files[i])),
{
    lemma_scan_files_contains(files, i);
    lemma_sort_by_key_contains(spec_scan_files(files), setup_key());
}

/// The weight of a raw entry: one when it yields a leaf entry.
pub open spec fn leaf_ok_weight() -> spec_fn(RawFileV) -> int {
    |f: RawFileV|
        if leaf_ok(f) {
            1int
        } else {
            0int
        }
}

/// How many entries of a listing are acceptable leaf files.
pub open spec fn leaf_ok_count(files: Seq<RawFileV>) -> int {
    sum_by(files, leaf_ok_weight())
}

/// A listing yields exactly one leaf entry per acceptable file.
pub proof fn lemma_scan_files_exact(files: Seq<RawFileV>)
    ensures
        spec_scan_files(files).len() == leaf_ok_count(files),
    decreases files.len(),
{
    if files.len() > 0 {
        lemma_scan_files_exact(files.drop_last());
    }
}

/// Law: rejected files do not disturb their neighbours, in general — a
/// recognized, listable subcategory directory with at least one
/// acceptable leaf file enters the snapshot holding exactly one leaf
/// entry per acceptable file, and every acceptable file's entry is
/// present, whatever the other entries hold.
pub proof fn lemma_subcategory_keeps_valid_leaves(d: RawTrackDirV)
    requires
        d.is_dir,
        !hidden_name(d.name),
        track_lookup(d.name) is Some,
        d.files is Some,
        leaf_ok_count(d.files->0) > 0,
    ensures
        track_included(d),
        track_node_of(d).setups.len() == leaf_ok_count(d.files->0),
        forall|i: int|
            0 <= i < d.files->0.len() && leaf_ok(#[trigger] d.files->0[i]) ==> track_node_of(
                d,
            ).setups.contains(setup_of(d.files->0[i])),
{
    let files = d.files->0;
    lemma_scan_files_exact(files);
    lemma_sort_by_key(spec_scan_files(files), setup_key());
    lemma_sort_by_key_contains(spec_scan_files(files), setup_key());
    assert forall|i: int|
        0 <= i < files.len() && leaf_ok(#[trigger] files[i]) implies track_node_of(
        d,
    ).setups.contains(setup_of(files[i])) by {
        lemma_scan_files_contains(files, i);
    }
}

/// The entry of an acceptable file is among the scanned leaf entries.
proof fn lemma_scan_files_contains(files: Seq<RawFileV>, i: int)
    requires
        0 <= i < files.len(),
        leaf_ok(files[i]),
    ensures
        spec_scan_files(files).contains(setup_of(files[i])),
    decreases files.len(),
{
    let s = spec_scan_files(files);
    let s0 = spec_scan_files(files.drop_last());
    if i == files.len() - 1 {
        assert(s[s.len() - 1] == setup_of(files[i]));
    } else {
        assert(files.drop_last()[i] == files[i]);
        lemma_scan_files_contains(files.drop_last(), i);
        let k = choose|k: int| 0 <= k < s0.len() && s0[k] == setup_of(files[i]);
        assert(s[k] == setup_of(files[i]));
    }
}

} // verus!
