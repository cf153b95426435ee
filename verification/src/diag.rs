//! Scan diagnostics. The scanner swallows per-entry failures into the
//! snapshot's shape; this module makes the swallowing explicit: for a
//! raw tree it lists, in listing order, each entry a scan of that tree
//! skips and why — an unrecognized category or subcategory name, an
//! unlistable branch, an unreadable leaf, or a malformed one.
use vstd::prelude::*;

use crate::data::{car_lookup, track_lookup};
use crate::scan::{
    hidden_name, json_ok, json_well_formed, leaf_file_name_ok, leaf_ok, RawCarDir, RawCarDirV,
    RawFile, RawFileV, RawRoot, RawRootV, RawTrackDir, RawTrackDirV,
};
use crate::text::{chars_of, ends_in_json};

verus! {

/// Why a scan skipped an entry. An unreadable leaf covers both a failed
/// read and an unavailable modification time.
#[derive(Debug, Clone, Copy, PartialEq, Eq, Structural)]
pub enum DiagnosticKind {
    UnrecognizedCategory,
    UnrecognizedSubcategory,
    BranchUnreadable,
    LeafUnreadable,
    LeafMalformed,
}

/// One skipped entry: its name and why it was skipped.
#[derive(Debug, PartialEq, Eq)]
pub struct ScanDiagnostic {
    pub name: String,
    pub kind: DiagnosticKind,
}

/// The mathematical value of a `ScanDiagnostic`.
pub ghost struct ScanDiagnosticV {
    pub name: Seq<char>,
    pub kind: DiagnosticKind,
}

impl View for ScanDiagnostic {
    type V = ScanDiagnosticV;

    open spec fn view(&self) -> ScanDiagnosticV {
        ScanDiagnosticV { name: self.name@, kind: self.kind }
    }
}

impl DeepView for ScanDiagnostic {
    type V = ScanDiagnosticV;

    open spec fn deep_view(&self) -> ScanDiagnosticV {
        self.view()
    }
}

/// Why a candidate leaf file was rejected.
pub open spec fn file_diag_kind(f: RawFileV) -> DiagnosticKind {
    if f.content is None {
        DiagnosticKind::LeafUnreadable
    } else if !json_ok(f.content->0) {
        DiagnosticKind::LeafMalformed
    } else {
        DiagnosticKind::LeafUnreadable
    }
}

/// The diagnostics of one raw leaf entry: a candidate (a non-hidden
/// file with the leaf suffix) that a scan rejects yields one; every
/// other entry yields none.
pub open spec fn file_diags(f: RawFileV) -> Seq<ScanDiagnosticV> {
    if f.is_file && leaf_file_name_ok(f.name) && !leaf_ok(f) {
        seq![ScanDiagnosticV { name: f.name, kind: file_diag_kind(f) }]
    } else {
        Seq::empty()
    }
}

/// The diagnostics of a leaf listing, in listing order.
pub open spec fn files_diags(files: Seq<RawFileV>) -> Seq<ScanDiagnosticV>
    decreases files.len(),
{
    if files.len() == 0 {
        Seq::empty()
    } else {
        files_diags(files.drop_last()) + file_diags(files.last())
    }
}

/// The diagnostics of one subcategory directory: an unrecognized name
/// or a failed listing yields one for the directory itself; a listed
/// directory yields its files' diagnostics.
pub open spec fn track_dir_diags(d: RawTrackDirV) -> Seq<ScanDiagnosticV> {
    if !d.is_dir || hidden_name(d.name) {
        Seq::empty()
    } else if track_lookup(d.name) is None {
        seq![ScanDiagnosticV { name: d.name, kind: DiagnosticKind::UnrecognizedSubcategory }]
    } else if d.files is None {
        seq![ScanDiagnosticV { name: d.name, kind: DiagnosticKind::BranchUnreadable }]
    } else {
        files_diags(d.files->0)
    }
}

/// The diagnostics of a category's listing, in listing order.
pub open spec fn track_dirs_diags(dirs: Seq<RawTrackDirV>) -> Seq<ScanDiagnosticV>
    decreases dirs.len(),
{
    if dirs.len() == 0 {
        Seq::empty()
    } else {
        track_dirs_diags(dirs.drop_last()) + track_dir_diags(dirs.last())
    }
}

/// The diagnostics of one category directory, as for a subcategory.
pub open spec fn car_dir_diags(d: RawCarDirV) -> Seq<ScanDiagnosticV> {
    if !d.is_dir || hidden_name(d.name) {
        Seq::empty()
    } else if car_lookup(d.name) is None {
        seq![ScanDiagnosticV { name: d.name, kind: DiagnosticKind::UnrecognizedCategory }]
    } else if d.tracks is None {
        seq![ScanDiagnosticV { name: d.name, kind: DiagnosticKind::BranchUnreadable }]
    } else {
        track_dirs_diags(d.tracks->0)
    }
}

/// The diagnostics of the root's listing, in listing order.
pub open spec fn car_dirs_diags(dirs: Seq<RawCarDirV>) -> Seq<ScanDiagnosticV>
    decreases dirs.len(),
{
    if dirs.len() == 0 {
        Seq::empty()
    } else {
        car_dirs_diags(dirs.drop_last()) + car_dir_diags(dirs.last())
    }
}

/// The diagnostics a scan of the raw tree swallows. An unlistable root
/// yields none: that failure is the scan's own error, not a diagnostic.
pub open spec fn scan_diags_of(t: RawRootV) -> Seq<ScanDiagnosticV> {
    if t.dirs is Some {
        car_dirs_diags(t.dirs->0)
    } else {
        Seq::empty()
    }
}

/// Appends the diagnostics of one raw leaf entry.
fn push_file_diags(out: &mut Vec<ScanDiagnostic>, f: &RawFile)
    ensures
        final(out).deep_view() == old(out).deep_view() + file_diags(f@),
{
    let ghost base = out.deep_view();
    if !f.is_file {
        proof {
            assert(out.deep_view() =~= base + file_diags(f@));
        }
        return;
    }
    let name_chars = chars_of(f.name.as_str());
    let hidden = name_chars.len() > 0 && name_chars[0] == '.';
    if !ends_in_json(&name_chars) || hidden {
        proof {
            assert(out.deep_view() =~= base + file_diags(f@));
        }
        return;
    }
    let content = match &f.content {
        Some(c) => c,
        None => {
            out.push(
                ScanDiagnostic { name: f.name.clone(), kind: DiagnosticKind::LeafUnreadable },
            );
            proof {
                assert(out.deep_view() =~= base + file_diags(f@));
            }
            return;
        },
    };
    if !json_well_formed(content.as_str()) {
        out.push(ScanDiagnostic { name: f.name.clone(), kind: DiagnosticKind::LeafMalformed });
        proof {
            assert(out.deep_view() =~= base + file_diags(f@));
        }
        return;
    }
    match &f.modified {
        Some(_) => {
            proof {
                assert(leaf_ok(f@));
                assert(out.deep_view() =~= base + file_diags(f@));
            }
        },
        None => {
            out.push(
                ScanDiagnostic { name: f.name.clone(), kind: DiagnosticKind::LeafUnreadable },
            );
            proof {
                assert(out.deep_view() =~= base + file_diags(f@));
            }
        },
    }
}

/// Appends the diagnostics of one subcategory directory.
fn push_track_dir_diags(out: &mut Vec<ScanDiagnostic>, d: &RawTrackDir)
    ensures
        final(out).deep_view() == old(out).deep_view() + track_dir_diags(d@),
{
    let ghost base = out.deep_view();
    let name_chars = chars_of(d.name.as_str());
    let hidden = name_chars.len() > 0 && name_chars[0] == '.';
    if !d.is_dir || hidden {
        proof {
            assert(out.deep_view() =~= base + track_dir_diags(d@));
        }
        return;
    }
    if crate::data::find_track_by_folder(d.name.as_str()).is_none() {
        out.push(
            ScanDiagnostic { name: d.name.clone(), kind: DiagnosticKind::UnrecognizedSubcategory },
        );
        proof {
            assert(out.deep_view() =~= base + track_dir_diags(d@));
        }
        return;
    }
    let files = match &d.files {
        Some(fs) => fs,
        None => {
            out.push(
                ScanDiagnostic { name: d.name.clone(), kind: DiagnosticKind::BranchUnreadable },
            );
            proof {
                assert(out.deep_view() =~= base + track_dir_diags(d@));
            }
            return;
        },
    };
    let ghost fv = files.deep_view();
    proof {
        assert(fv.take(0) =~= Seq::<RawFileV>::empty());
        assert(base + files_diags(fv.take(0)) =~= base);
    }
    for i in 0..files.len()
        invariant
            fv == files.deep_view(),
            fv.len() == files.len(),
            out.deep_view() == base + files_diags(fv.take(i as int)),
    {
        proof {
            assert(fv.take(i + 1).drop_last() =~= fv.take(i as int));
            assert(fv.take(i + 1).last() == fv[i as int]);
            assert(fv[i as int] == files[i as int]@);
        }
        push_file_diags(out, &files[i]);
        proof {
            assert(out.deep_view() =~= base + files_diags(fv.take(i + 1)));
        }
    }
    proof {
        assert(fv.take(files.len() as int) =~= fv);
    }
}

/// Appends the diagnostics of one category directory.
fn push_car_dir_diags(out: &mut Vec<ScanDiagnostic>, d: &RawCarDir)
    ensures
        final(out).deep_view() == old(out).deep_view() + car_dir_diags(d@),
{
    let ghost base = out.deep_view();
    let name_chars = chars_of(d.name.as_str());
    let hidden = name_chars.len() > 0 && name_chars[0] == '.';
    if !d.is_dir || hidden {
        proof {
            assert(out.deep_view() =~= base + car_dir_diags(d@));
        }
        return;
    }
    if crate::data::find_car_by_folder(d.name.as_str()).is_none() {
        out.push(
            ScanDiagnostic { name: d.name.clone(), kind: DiagnosticKind::UnrecognizedCategory },
        );
        proof {
            assert(out.deep_view() =~= base + car_dir_diags(d@));
        }
        return;
    }
    let track_dirs = match &d.tracks {
        Some(ts) => ts,
        None => {
            out.push(
                ScanDiagnostic { name: d.name.clone(), kind: DiagnosticKind::BranchUnreadable },
            );
            proof {
                assert(out.deep_view() =~= base + car_dir_diags(d@));
            }
            return;
        },
    };
    let ghost tv = track_dirs.deep_view();
    proof {
        assert(tv.take(0) =~= Seq::<RawTrackDirV>::empty());
        assert(base + track_dirs_diags(tv.take(0)) =~= base);
    }
    for i in 0..track_dirs.len()
        invariant
            tv == track_dirs.deep_view(),
            tv.len() == track_dirs.len(),
            out.deep_view() == base + track_dirs_diags(tv.take(i as int)),
    {
        proof {
            assert(tv.take(i + 1).drop_last() =~= tv.take(i as int));
            assert(tv.take(i + 1).last() == tv[i as int]);
            assert(tv[i as int] == track_dirs[i as int]@);
        }
        push_track_dir_diags(out, &track_dirs[i]);
        proof {
            assert(out.deep_view() =~= base + track_dirs_diags(tv.take(i + 1)));
        }
    }
    proof {
        assert(tv.take(track_dirs.len() as int) =~= tv);
    }
}

/// Lists, in listing order, every entry a scan of this raw tree skips,
/// with the reason. Best-effort scanning stays the scanner's business;
/// this is the explicit account of what it left out.
pub fn scan_diagnostics(tree: &RawRoot) -> (r: Vec<ScanDiagnostic>)
    ensures
        r.deep_view() == scan_diags_of(tree@),
{
    let mut out: Vec<ScanDiagnostic> = Vec::new();
    let dirs = match &tree.dirs {
        Some(ds) => ds,
        None => {
            return out;
        },
    };
    let ghost dv = dirs.deep_view();
    proof {
        assert(dv.take(0) =~= Seq::<RawCarDirV>::empty());
        assert(out.deep_view() =~= Seq::<ScanDiagnosticV>::empty() + car_dirs_diags(dv.take(0)));
    }
    for i in 0..dirs.len()
        invariant
            dv == dirs.deep_view(),
            dv.len() == dirs.len(),
            out.deep_view() == Seq::<ScanDiagnosticV>::empty() + car_dirs_diags(dv.take(i as int)),
    {
        proof {
            assert(dv.take(i + 1).drop_last() =~= dv.take(i as int));
            assert(dv.take(i + 1).last() == dv[i as int]);
            assert(dv[i as int] == dirs[i as int]@);
        }
        push_car_dir_diags(&mut out, &dirs[i]);
        proof {
            assert(out.deep_view() =~= Seq::<ScanDiagnosticV>::empty() + car_dirs_diags(
                dv.take(i + 1),
            ));
        }
    }
    proof {
        assert(dv.take(dirs.len() as int) =~= dv);
        assert(out.deep_view() =~= scan_diags_of(tree@));
    }
    out
}

} // verus!
