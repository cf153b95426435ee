//! The structure cache. It owns the last-known-good snapshot and the
//! active root path, and changes them only through the operations here:
//! a failed scan never disturbs the held snapshot, and a new snapshot
//! replaces the old one wholesale. The surrounding application walks the
//! filesystem, hands the raw tree in, and guards a shared cache with a
//! reader/writer lock of its own.
use vstd::prelude::*;

use crate::errors::{AccError, AccResult};
use crate::models::{snapshot_wf, FolderStructure, FolderStructureV};
use crate::scan::{root_count, scan_cars_of, scan_folder_structure, scan_total_of, RawRoot};

verus! {

/// The cache: the active root path and the last snapshot, if any.
pub struct AppStateManager {
    setups_path: String,
    folder_structure: Option<FolderStructure>,
}

impl AppStateManager {
    /// The active root path.
    pub closed spec fn spec_path(&self) -> Seq<char> {
        self.setups_path@
    }

    /// The held snapshot, if any.
    pub closed spec fn spec_structure(&self) -> Option<FolderStructureV> {
        match self.folder_structure {
            Some(s) => Some(s@),
            None => None,
        }
    }

    /// Any held snapshot came out of a completed scan and is well
    /// formed.
    pub open spec fn wf(&self) -> bool {
        match self.spec_structure() {
            Some(s) => snapshot_wf(s),
            None => true,
        }
    }

    /// A fresh cache: the given root, no snapshot yet.
    pub fn new(setups_path: String) -> (r: Self)
        ensures
            r.spec_path() == setups_path@,
            r.spec_structure() is None,
            r.wf(),
    {
        AppStateManager { setups_path, folder_structure: None }
    }

    /// Returns the active root path.
    pub fn get_setups_path(&self) -> (r: String)
        ensures
            r@ == self.spec_path(),
    {
        self.setups_path.clone()
    }

    /// Rescans from the given raw tree of the active root. On success
    /// the new snapshot replaces the old one wholesale; on failure the
    /// held snapshot and the root stay untouched.
    pub fn refresh_folder_structure(&mut self, tree: &RawRoot) -> (r: AccResult<()>)
        requires
            old(self).wf(),
            tree@.path == old(self).spec_path(),
            root_count(tree@) <= usize::MAX,
        ensures
            final(self).wf(),
            final(self).spec_path() == old(self).spec_path(),
            r is Ok <==> tree@.dirs is Some,
            r is Ok ==> (final(self).spec_structure() matches Some(s) && s.cars == scan_cars_of(
                tree@,
            ) && s.total_setups == scan_total_of(tree@)),
            r matches Err(e) ==> final(self).spec_structure() == old(self).spec_structure() && (
            e matches AccError::SetupsFolderNotFound { path } && path@ == old(self).spec_path()),
    {
        match scan_folder_structure(tree) {
            Ok(s) => {
                self.folder_structure = Some(s);
                Ok(())
            },
            Err(e) => Err(e),
        }
    }

    /// Returns a copy of the held snapshot, scanning first if none is
    /// held yet. The raw tree is consulted only on that first scan.
    pub fn get_folder_structure(&mut self, tree: &RawRoot) -> (r: AccResult<FolderStructure>)
        requires
            old(self).wf(),
            old(self).spec_structure() is None ==> tree@.path == old(self).spec_path()
                && root_count(tree@) <= usize::MAX,
        ensures
            final(self).wf(),
            final(self).spec_path() == old(self).spec_path(),
            old(self).spec_structure() matches Some(s) ==> *final(self) == *old(self) && (
            r matches Ok(res) && res@ == s),
            old(self).spec_structure() is None ==> {
                &&& (r is Ok <==> tree@.dirs is Some)
                &&& r matches Ok(res) ==> final(self).spec_structure() == Some(res@)
                    && res@.cars == scan_cars_of(tree@) && res@.total_setups == scan_total_of(tree@)
                &&& r matches Err(e) ==> final(self).spec_structure() is None && (
                e matches AccError::SetupsFolderNotFound { path } && path@ == old(
                    self,
                ).spec_path())
            },
    {
        if self.folder_structure.is_some() {
            let cached = match &self.folder_structure {
                Some(s) => s.clone(),
                None => {
                    proof {
                        assert(false);
                    }
                    vstd::pervasive::unreached()
                },
            };
            return Ok(cached);
        }
        match scan_folder_structure(tree) {
            Ok(s) => {
                let copy = s.clone();
                self.folder_structure = Some(s);
                Ok(copy)
            },
            Err(e) => Err(e),
        }
    }

    /// Changes the active root. A path observed missing is rejected
    /// outright, leaving root and snapshot untouched. Otherwise the root
    /// is recorded first and a refresh follows; if that refresh fails,
    /// the error propagates but the new root stays — the held snapshot,
    /// if any, still reflects the old root.
    pub fn set_setups_path(&mut self, new_path: String, path_exists: bool, tree: &RawRoot) -> (r:
        AccResult<()>)
        requires
            old(self).wf(),
            path_exists ==> tree@.path == new_path@ && root_count(tree@) <= usize::MAX,
        ensures
            final(self).wf(),
            !path_exists ==> *final(self) == *old(self) && (
            r matches Err(AccError::SetupsFolderNotFound { path }) && path@ == new_path@),
            path_exists ==> {
                &&& final(self).spec_path() == new_path@
                &&& (r is Ok <==> tree@.dirs is Some)
                &&& r is Ok ==> (final(self).spec_structure() matches Some(s) && s.cars
                    == scan_cars_of(tree@) && s.total_setups == scan_total_of(tree@))
                &&& r matches Err(e) ==> final(self).spec_structure() == old(
                    self,
                ).spec_structure() && (e matches AccError::SetupsFolderNotFound { path } && path@
                    == new_path@)
            },
    {
        if !path_exists {
            return Err(AccError::SetupsFolderNotFound { path: new_path });
        }
        self.setups_path = new_path;
        self.refresh_folder_structure(tree)
    }
}

} // verus!
