//! Which file-system events of a workspace make its file tree refresh.
use vstd::prelude::*;
use crate::text::{chars_of, range_equals, range_texts, ranges_within, split_on, split_ranges};

verus! {

/// The kind of a file-system event.
#[derive(Debug, Clone, Copy, PartialEq, Eq, Structural)]
pub enum FsEventKind {
    Any,
    Access,
    Create,
    Modify,
    Remove,
    Other,
}

/// Whether a path runs through a `.git` directory: one of its
/// `/`-separated components is `.git`.
pub open spec fn in_git_dir(path: Seq<char>) -> bool {
    exists|k: int| 0 <= k < split_on(path, '/').len() && split_on(path, '/')[k] == ".git"@
}

/// An event makes the workspace refresh when it creates, changes or
/// removes something (or is of an unknown kind) and none of its paths runs
/// through a `.git` directory.
pub open spec fn relevant_spec(kind: FsEventKind, paths: Seq<Seq<char>>) -> bool {
    &&& (kind == FsEventKind::Create || kind == FsEventKind::Modify || kind == FsEventKind::Remove
        || kind == FsEventKind::Any)
    &&& forall|i: int| 0 <= i < paths.len() ==> !in_git_dir(#[trigger] paths[i])
}

/// The plain view of a list of paths.
pub open spec fn paths_view(paths: Seq<String>) -> Seq<Seq<char>> {
    paths.map_values(|p: String| p@)
}

/// Whether a path runs through a `.git` directory (see `in_git_dir`).
fn path_in_git_dir(path: &String) -> (r: bool)
    ensures
        r == in_git_dir(path@),
{
    let v = chars_of(path.as_str());
    let parts = split_ranges(&v, 0, v.len(), '/');
    assert(v@.subrange(0, v@.len() as int) =~= v@);
    let git = chars_of(".git");
    let ghost segs = split_on(path@, '/');
    let mut k: usize = 0;
    while k < parts.len()
        invariant
            0 <= k <= parts@.len(),
            v@ == path@,
            git@ == ".git"@,
            segs == split_on(path@, '/'),
            ranges_within(parts@, 0, v@.len() as int),
            range_texts(v@, parts@) == segs,
            forall|j: int| 0 <= j < k ==> segs[j] != ".git"@,
        decreases parts@.len() - k,
    {
        let (a, b) = parts[k];
        assert(0 <= parts@[k as int].0 <= parts@[k as int].1 <= v@.len());
        assert(segs[k as int] == v@.subrange(a as int, b as int));
        if range_equals(&v, a, b, &git) {
            assert(segs[k as int] == ".git"@);
            return true;
        }
        k += 1;
    }
    false
}

/// Whether an event makes the workspace refresh (see `relevant_spec`).
pub fn is_relevant(kind: FsEventKind, paths: &Vec<String>) -> (r: bool)
    ensures
        r == relevant_spec(kind, paths_view(paths@)),
{
    match kind {
        FsEventKind::Create | FsEventKind::Modify | FsEventKind::Remove | FsEventKind::Any => {},
        _ => return false,
    }
    let ghost ps = paths_view(paths@);
    let mut i: usize = 0;
    while i < paths.len()
        invariant
            0 <= i <= paths@.len(),
            ps == paths_view(paths@),
            forall|j: int| 0 <= j < i ==> !in_git_dir(#[trigger] ps[j]),
        decreases paths@.len() - i,
    {
        if path_in_git_dir(&paths[i]) {
            assert(ps[i as int] == paths@[i as int]@);
            return false;
        }
        assert(ps[i as int] == paths@[i as int]@);
        i += 1;
    }
    true
}

} // verus!
