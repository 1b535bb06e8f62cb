//! The file system access that a sandboxed command was granted.

use crate::paths::{paths_view, FsPath};
use vstd::prelude::*;

verus! {

/// What may be done below a path.
#[derive(Debug, Clone, Copy, PartialEq, Eq, Structural)]
pub enum AccessMode {
    Read,
    Write,
    ReadWrite,
}

/// Who asked for a capability.
#[derive(Debug, Clone, Copy, PartialEq, Eq, Structural)]
pub enum CapabilitySource {
    /// The user, explicitly.
    User,
    /// Anything else: a profile, a group, the system.
    Other,
}

/// Access to one file or to what lies below one directory.
#[derive(Debug, PartialEq, Eq)]
pub struct FsCapability {
    /// The path, with all links resolved.
    pub resolved: FsPath,
    /// Whether the path is a single file.
    pub is_file: bool,
    /// What may be done.
    pub access: AccessMode,
    /// Who asked for it.
    pub source: CapabilitySource,
}

/// All that a sandboxed command was granted on the file system.
#[derive(Debug, PartialEq, Eq)]
pub struct CapabilitySet {
    /// The capabilities, in the order in which they were granted.
    pub fs: Vec<FsCapability>,
}

/// Whether a capability is for a directory that the user granted.
pub open spec fn is_user_directory(cap: FsCapability) -> bool {
    !cap.is_file && cap.source == CapabilitySource::User
}

/// Whether a capability lets the command change files.
pub open spec fn is_writable(cap: FsCapability) -> bool {
    cap.access == AccessMode::Write || cap.access == AccessMode::ReadWrite
}

/// The test for the directories that the user granted: for writing, or for any
/// access.
pub open spec fn is_granted(for_writing: bool) -> spec_fn(FsCapability) -> bool {
    |cap: FsCapability| is_user_directory(cap) && (for_writing ==> is_writable(cap))
}

/// The paths of some capabilities.
pub open spec fn resolved_paths(caps: Seq<FsCapability>) -> Seq<Seq<u8>> {
    caps.map_values(|cap: FsCapability| cap.resolved@)
}

/// The directories that the user granted, for writing or for any access, in
/// the order in which they were granted.
pub open spec fn granted_paths(caps: Seq<FsCapability>, for_writing: bool) -> Seq<Seq<u8>> {
    resolved_paths(caps.filter(is_granted(for_writing)))
}

impl CapabilitySet {
    /// No access at all.
    pub fn new() -> (r: CapabilitySet)
        ensures
            r.fs@ == Seq::<FsCapability>::empty(),
    {
        CapabilitySet { fs: Vec::new() }
    }
}

fn select_paths(caps: &CapabilitySet, for_writing: bool) -> (r: Vec<FsPath>)
    ensures
        paths_view(r@) == granted_paths(caps.fs@, for_writing),
{
    let mut paths: Vec<FsPath> = Vec::new();
    let ghost test = is_granted(for_writing);
    let mut i: usize = 0;
    proof {
        reveal(Seq::filter);
        assert(caps.fs@.take(0) =~= Seq::<FsCapability>::empty());
        assert(paths_view(paths@) =~= resolved_paths(caps.fs@.take(0).filter(test)));
    }
    while i < caps.fs.len()
        invariant
            i <= caps.fs@.len(),
            test == is_granted(for_writing),
            paths_view(paths@) == resolved_paths(caps.fs@.take(i as int).filter(test)),
        decreases caps.fs@.len() - i,
    {
        let cap = &caps.fs[i];
        let ghost done = caps.fs@.take(i as int);
        let ghost before = paths_view(paths@);
        proof {
            done.lemma_filter_push(*cap, test);
            assert(caps.fs@.take(i + 1) =~= done.push(*cap));
        }
        let by_user = match cap.source {
            CapabilitySource::User => true,
            CapabilitySource::Other => false,
        };
        let writable = match cap.access {
            AccessMode::Read => false,
            AccessMode::Write => true,
            AccessMode::ReadWrite => true,
        };
        if !cap.is_file && by_user && (writable || !for_writing) {
            let path = cap.resolved.clone();
            paths.push(path);
            assert(paths_view(paths@) =~= before.push(path@));
            assert(resolved_paths(done.filter(test).push(*cap)) =~= resolved_paths(
                done.filter(test),
            ).push(path@));
        }
        i = i + 1;
    }
    assert(caps.fs@.take(i as int) =~= caps.fs@);
    paths
}

/// Extract paths the user explicitly granted access to, in a form suitable
/// for the tracked paths of a session record.
///
/// Returns directory capabilities (not files) whose source is the user. Both
/// read and write access modes are included so that audit-only sessions still
/// carry the project root(s) the sandbox operated on.
pub fn user_tracked_paths(caps: &CapabilitySet) -> (r: Vec<FsPath>)
    ensures
        paths_view(r@) == granted_paths(caps.fs@, false),
{
    select_paths(caps, false)
}

/// Extract the directories that the user granted for writing, which are those
/// that rollback takes snapshots of.
pub fn writable_tracked_paths(caps: &CapabilitySet) -> (r: Vec<FsPath>)
    ensures
        paths_view(r@) == granted_paths(caps.fs@, true),
{
    select_paths(caps, true)
}

/// What rollback tracks is part of what audit tracks: a directory granted for
/// writing is a directory granted.
pub proof fn rollback_tracks_a_part_of_audit(caps: Seq<FsCapability>, path: Seq<u8>)
    requires
        granted_paths(caps, true).contains(path),
    ensures
        granted_paths(caps, false).contains(path),
{
    let writable = caps.filter(is_granted(true));
    let all = caps.filter(is_granted(false));
    let i = choose|i: int| 0 <= i < granted_paths(caps, true).len() && granted_paths(caps, true)[i]
        == path;
    caps.lemma_filter_pred(is_granted(true), i);
    caps.lemma_filter_contains_rev(is_granted(true), writable[i]);
    let at = choose|at: int| 0 <= at < caps.len() && caps[at] == writable[i];
    caps.lemma_filter_contains(is_granted(false), at);
    let k = choose|k: int| 0 <= k < all.len() && all[k] == caps[at];
    assert(granted_paths(caps, false)[k] == path);
}

} // verus!
