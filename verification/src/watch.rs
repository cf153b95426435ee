//! The change-notifier filter. The surrounding application subscribes
//! to recursive filesystem events under the active root and reduces each
//! event to plain values; the decision whether an event warrants a
//! refresh is made here. The filter favours false positives over missed
//! updates.
use vstd::prelude::*;

use crate::text::{chars_of, ends_in_json, json_suffix};

verus! {

/// The kind of a filesystem event. Events other than creations,
/// removals and modifications never trigger a refresh.
#[derive(Debug, Clone, Copy, PartialEq, Eq, Structural)]
pub enum FsEventKind {
    Create,
    Remove,
    Modify,
    Other,
}

/// One path an event reports, reduced to what the filter reads: the
/// final path component, whether the path is a directory, whether it
/// lies under the watched root, and how many components it has below the
/// root.
pub struct FsEventPath {
    pub file_name: String,
    pub is_dir: bool,
    pub inside_root: bool,
    pub depth: usize,
}

/// The mathematical value of an `FsEventPath`.
pub ghost struct FsEventPathV {
    pub file_name: Seq<char>,
    pub is_dir: bool,
    pub inside_root: bool,
    pub depth: int,
}

impl View for FsEventPath {
    type V = FsEventPathV;

    open spec fn view(&self) -> FsEventPathV {
        FsEventPathV {
            file_name: self.file_name@,
            is_dir: self.is_dir,
            inside_root: self.inside_root,
            depth: self.depth as int,
        }
    }
}

impl DeepView for FsEventPath {
    type V = FsEventPathV;

    open spec fn deep_view(&self) -> FsEventPathV {
        self.view()
    }
}

/// A file name carries the leaf extension when it ends in the suffix
/// with a nonempty stem before it.
pub open spec fn json_extension(name: Seq<char>) -> bool {
    name.len() > 5 && name.skip(name.len() - 5) == json_suffix()
}

/// A path qualifies when it lies under the root and names a leaf file,
/// a directory, or anything within the three levels the tree occupies.
pub open spec fn path_qualifies(p: FsEventPathV) -> bool {
    p.inside_root && (json_extension(p.file_name) || p.is_dir || p.depth <= 3)
}

/// An event warrants a refresh exactly when it is a creation, removal
/// or modification and at least one of its paths qualifies.
pub open spec fn event_qualifies(kind: FsEventKind, paths: Seq<FsEventPathV>) -> bool {
    match kind {
        FsEventKind::Other => false,
        _ => exists|i: int| 0 <= i < paths.len() && path_qualifies(#[trigger] paths[i]),
    }
}

/// Decides whether one path qualifies.
fn path_qualifies_exec(p: &FsEventPath) -> (r: bool)
    ensures
        r == path_qualifies(p@),
{
    if !p.inside_root {
        return false;
    }
    let chars = chars_of(p.file_name.as_str());
    let ext = chars.len() > 5 && ends_in_json(&chars);
    ext || p.is_dir || p.depth <= 3
}

/// Decides whether an event warrants a refresh of the structure cache.
pub fn should_refresh(kind: &FsEventKind, paths: &Vec<FsEventPath>) -> (r: bool)
    ensures
        r == event_qualifies(*kind, paths.deep_view()),
{
    match kind {
        FsEventKind::Other => false,
        FsEventKind::Create | FsEventKind::Remove | FsEventKind::Modify => {
            for i in 0..paths.len()
                invariant
                    !(*kind is Other),
                    paths.deep_view().len() == paths.len(),
                    forall|j: int| 0 <= j < i ==> !path_qualifies(#[trigger] paths.deep_view()[j]),
            {
                proof {
                    assert(paths.deep_view()[i as int] == paths[i as int]@);
                }
                if path_qualifies_exec(&paths[i]) {
                    proof {
                        assert(path_qualifies(paths.deep_view()[i as int]));
                        assert(event_qualifies(*kind, paths.deep_view()));
                    }
                    return true;
                }
            }
            false
        },
    }
}

} // verus!
