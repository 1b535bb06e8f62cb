//! Rollback of a supervised command: what the user asked for, and where its
//! sessions live.

use crate::errors::{is_snapshot_error, NonoError};
use crate::evidence::{clock_gave, home_lookup_gave};
use crate::loading::{
    is_place_of, session_dir_path, session_dirs_stay_below_root, SessionPlace,
};
use crate::paths::{components, path_starts_with, FsPath};
use crate::session::{
    audit_root_path, home_dir, rollback_root_path, root_below, root_path, SessionKind,
};
use crate::session_id::{
    acceptable_id, after_last, fresh_ids_are_acceptable, is_timestamp, pid_of, session_id_at,
    session_id_carries_pid, session_id_text, utc_timestamp,
};
use crate::text::{is_digit, joined};
use vstd::prelude::*;
use vstd::string::*;
use vstd::utf8::*;

verus! {

/// What the user asked of rollback.
#[derive(Debug, PartialEq, Eq)]
pub struct RollbackLaunchOptions {
    /// Rollback was asked for.
    pub requested: bool,
    /// Rollback was switched off.
    pub disabled: bool,
    /// Nothing but the data of version control systems is left out.
    pub track_all: bool,
    /// Where sessions are kept instead of the default rollback root.
    pub destination: Option<FsPath>,
    /// Names that are taken in although something leaves them out.
    pub force_include: Vec<String>,
    /// More names that are left out.
    pub exclude_patterns: Vec<String>,
    /// More globs that are left out.
    pub exclude_globs: Vec<String>,
    /// Directories that the look for heavy directories skips.
    pub skip_dirs: Vec<String>,
}

// ---- flags without effect ----
/// What is to be said about rollback flags that have no effect.
#[derive(Debug, PartialEq, Eq)]
pub struct FlagWarning {
    /// What goes to the log.
    pub log: Option<String>,
    /// What is printed.
    pub print: Option<String>,
}

/// Whether the user customized what rollback tracks.
pub open spec fn has_rollback_flags(options: RollbackLaunchOptions) -> bool {
    ||| options.track_all
    ||| options.force_include@.len() > 0
    ||| options.exclude_patterns@.len() > 0
    ||| options.exclude_globs@.len() > 0
}

/// Whether `said` is `text` where it is due, and nothing where it is not.
pub open spec fn says(said: Option<String>, due: bool, text: Seq<char>) -> bool {
    match said {
        Some(said) => due && said@ == text,
        None => !due,
    }
}

/// Warns that rollback is switched off although the user customized it: always
/// in the log, and on the console unless `silent`.
pub fn warn_if_rollback_flags_ignored(rollback: &RollbackLaunchOptions, silent: bool) -> (r:
    FlagWarning)
    ensures
        says(
            r.log,
            rollback.disabled && has_rollback_flags(*rollback),
            "--no-rollback is active; rollback flags (--rollback-all, --rollback-include, --rollback-exclude) have no effect"@,
        ),
        says(
            r.print,
            rollback.disabled && has_rollback_flags(*rollback) && !silent,
            "  [nono] Warning: --no-rollback is active; rollback customization flags have no effect."@,
        ),
{
    if !rollback.disabled {
        return FlagWarning { log: None, print: None };
    }
    let customized = rollback.track_all || !rollback.force_include.is_empty()
        || !rollback.exclude_patterns.is_empty() || !rollback.exclude_globs.is_empty();
    if !customized {
        return FlagWarning { log: None, print: None };
    }
    let log = "--no-rollback is active; rollback flags (--rollback-all, --rollback-include, --rollback-exclude) have no effect".to_owned();
    let print = if silent {
        None
    } else {
        Some(
            "  [nono] Warning: --no-rollback is active; rollback customization flags have no effect.".to_owned(),
        )
    };
    FlagWarning { log: Some(log), print }
}

// ---- session directories ----
/// The permission bits of a session directory: its owner alone may enter it.
pub const SESSION_DIR_MODE: u32 = 448;

/// What is said of a session directory that cannot be created.
pub open spec fn creation_error_text(dir: Seq<char>, reason: Seq<char>) -> Seq<char> {
    "Failed to create session directory "@ + dir + ": "@ + reason
}

/// What creating the session directory `session_dir` comes to. `shown` is how
/// it is shown in an error, and `outcome` what the file system answered.
pub fn create_session_dir(
    session_dir: FsPath,
    shown: &str,
    outcome: Result<(), String>,
) -> (r: Result<FsPath, NonoError>)
    ensures
        match outcome {
            Ok(()) => r == Ok::<FsPath, NonoError>(session_dir),
            Err(reason) => r matches Err(e) && is_snapshot_error(
                e,
                creation_error_text(shown@, reason@),
            ),
        },
{
    match outcome {
        Ok(()) => Ok(session_dir),
        Err(reason) => {
            let mut text = joined("Failed to create session directory ", shown);
            text.append(": ");
            text.append(reason.as_str());
            Err(NonoError::Snapshot(text))
        },
    }
}

/// Whether `id` and `dir` are a fresh session of the process `pid` below `root`.
pub open spec fn is_fresh_session(
    id: Seq<char>,
    dir: Seq<u8>,
    root: Seq<u8>,
    pid: u32,
) -> bool {
    &&& exists|t: Seq<char>| is_timestamp(t) && id == #[trigger] session_id_text(t, pid)
    &&& pid_of(id) == Some(pid)
    &&& acceptable_id(id, '/')
    &&& dir == session_dir_path(root, id)
}

/// The directory of a fresh session lies directly below its root and is named
/// by the session ID.
pub proof fn fresh_sessions_lie_below_their_root(
    id: Seq<char>,
    dir: Seq<u8>,
    root: Seq<u8>,
    pid: u32,
)
    requires
        is_fresh_session(id, dir, root, pid),
    ensures
        path_starts_with(dir, root),
        components(dir) == components(root).push(encode_utf8(id)),
{
    if id == seq!['.'] {
        after_last_of_dot();
    }
    session_dirs_stay_below_root(root, id);
}

/// A session that was created below the root of its kind is found again by its
/// ID: the ID passes validation on every system, the directory that is looked
/// up is the one that was created, and the process that is probed is the one
/// that created it.
pub proof fn created_sessions_are_found_again(
    home: Seq<u8>,
    kind: SessionKind,
    id: Seq<char>,
    dir: Seq<u8>,
    pid: u32,
    place: SessionPlace,
)
    requires
        is_fresh_session(id, dir, root_path(home, kind), pid),
        is_place_of(place, home, id, kind),
    ensures
        acceptable_id(id, '/'),
        acceptable_id(id, '\\'),
        place.dir@ == dir,
        pid_of(id) == Some(pid),
{
    let t = choose|t: Seq<char>| is_timestamp(t) && id == #[trigger] session_id_text(t, pid);
    fresh_ids_are_acceptable(t, pid);
}

proof fn after_last_of_dot()
    ensures
        pid_of(seq!['.']) is None,
{
    reveal_with_fuel(after_last, 2);
    assert(after_last(seq!['.'], '-') =~= seq!['.']);
    assert(!is_digit(seq!['.'][0]));
}

/// A session whose ID is made from a timestamp, in the directory that is named
/// by it, is fresh.
pub proof fn fresh_sessions_are_fresh(
    timestamp: Seq<char>,
    id: Seq<char>,
    dir: Seq<u8>,
    root: Seq<u8>,
    pid: u32,
)
    requires
        is_timestamp(timestamp),
        id == session_id_text(timestamp, pid),
        dir == session_dir_path(root, id),
    ensures
        is_fresh_session(id, dir, root, pid),
{
    session_id_carries_pid(timestamp, pid);
    fresh_ids_are_acceptable(timestamp, pid);
}

fn session_below(root: &FsPath, timestamp: &str, pid: u32) -> (r: (String, FsPath))
    ensures
        r.0@ == session_id_text(timestamp@, pid),
        r.1@ == session_dir_path(root@, r.0@),
{
    let session_id = session_id_at(timestamp, pid);
    let session_dir = root.join(session_id.as_str());
    (session_id, session_dir)
}

/// The ID of a session of `kind` that the process `pid` starts at `timestamp`,
/// and the directory that is to be created for it below the home directory
/// `home`.
pub fn fresh_session_at(
    home: Option<FsPath>,
    kind: SessionKind,
    timestamp: &str,
    pid: u32,
) -> (r: Result<(String, FsPath), NonoError>)
    ensures
        match home {
            None => r == Err::<(String, FsPath), NonoError>(NonoError::HomeNotFound),
            Some(home) => {
                &&& r matches Ok((id, dir))
                &&& id@ == session_id_text(timestamp@, pid)
                &&& dir@ == session_dir_path(root_path(home@, kind), id@)
            },
        },
{
    match root_below(home, kind) {
        Ok(root) => Ok(session_below(&root, timestamp, pid)),
        Err(e) => Err(e),
    }
}

/// The ID of a rollback session that the process `pid` starts at `timestamp`,
/// and the directory that is to be created for it: below a user-supplied
/// destination, whatever the home directory, or else below the rollback root
/// of the home directory `home`.
pub fn rollback_session_at(
    rollback_destination: Option<&FsPath>,
    home: Option<FsPath>,
    timestamp: &str,
    pid: u32,
) -> (r: Result<(String, FsPath), NonoError>)
    ensures
        match (rollback_destination, home) {
            (Some(root), _) => {
                &&& r matches Ok((id, dir))
                &&& id@ == session_id_text(timestamp@, pid)
                &&& dir@ == session_dir_path(root@, id@)
            },
            (None, Some(home)) => {
                &&& r matches Ok((id, dir))
                &&& id@ == session_id_text(timestamp@, pid)
                &&& dir@ == session_dir_path(rollback_root_path(home@), id@)
            },
            (None, None) => r == Err::<(String, FsPath), NonoError>(NonoError::HomeNotFound),
        },
{
    match rollback_destination {
        Some(root) => Ok(session_below(root, timestamp, pid)),
        None => fresh_session_at(home, SessionKind::Rollback, timestamp, pid),
    }
}

/// Generates the ID of a new rollback session of the process `pid`, and the
/// directory that is to be created for it, as [`rollback_session_at`] does.
/// With a user-supplied destination the home directory is not consulted; where
/// it is consulted and unknown, the clock is not read.
pub fn ensure_rollback_session_dir(rollback_destination: Option<&FsPath>, pid: u32) -> (r: Result<
    (String, FsPath),
    NonoError,
>)
    ensures
        match rollback_destination {
            Some(root) => r matches Ok((id, dir)) && is_fresh_session(id@, dir@, root@, pid),
            None => match r {
                Ok((id, dir)) => exists|home: Seq<u8>|
                    home.len() > 0 && is_fresh_session(
                        id@,
                        dir@,
                        #[trigger] rollback_root_path(home),
                        pid,
                    ),
                Err(e) => e == NonoError::HomeNotFound,
            },
        },
        r matches Ok((id, dir)) ==> exists|t: Seq<char>|
            clock_gave(t) && id@ == #[trigger] session_id_text(t, pid),
        rollback_destination is None ==> match r {
            Ok((id, dir)) => exists|home: Seq<u8>|
                home_lookup_gave(Some(home)) && dir@ == session_dir_path(
                    #[trigger] rollback_root_path(home),
                    id@,
                ),
            Err(_) => home_lookup_gave(None),
        },
{
    let home = match rollback_destination {
        Some(_) => None,
        None => match home_dir() {
            Some(home) => Some(home),
            None => return Err(NonoError::HomeNotFound),
        },
    };
    let ghost known = home;
    let timestamp = utc_timestamp();
    let created = rollback_session_at(rollback_destination, home, timestamp.as_str(), pid);
    proof {
        let (id, dir) = (created->Ok_0.0@, created->Ok_0.1@);
        let root = match rollback_destination {
            Some(root) => root@,
            None => rollback_root_path(known->0@),
        };
        fresh_sessions_are_fresh(timestamp@, id, dir, root, pid);
    }
    created
}

/// Generates the ID of a new audit-only session of the process `pid`, and the
/// directory that is to be created for it below `~/.nono/audit/`, as
/// [`fresh_session_at`] does. Where the home directory is unknown, the clock is
/// not read.
///
/// Kept separate from `~/.nono/rollbacks/` so audit-only sessions are never
/// mistaken for rollback history and are not subject to rollback retention
/// limits.
pub fn ensure_audit_session_dir(pid: u32) -> (r: Result<(String, FsPath), NonoError>)
    ensures
        match r {
            Ok((id, dir)) => exists|home: Seq<u8>|
                home.len() > 0 && is_fresh_session(
                    id@,
                    dir@,
                    #[trigger] audit_root_path(home),
                    pid,
                ),
            Err(e) => e == NonoError::HomeNotFound,
        },
        r matches Ok((id, dir)) ==> exists|t: Seq<char>|
            clock_gave(t) && id@ == #[trigger] session_id_text(t, pid),
        match r {
            Ok((id, dir)) => exists|home: Seq<u8>|
                home_lookup_gave(Some(home)) && dir@ == session_dir_path(
                    #[trigger] audit_root_path(home),
                    id@,
                ),
            Err(_) => home_lookup_gave(None),
        },
{
    let home = match home_dir() {
        Some(home) => home,
        None => return Err(NonoError::HomeNotFound),
    };
    let ghost root = audit_root_path(home@);
    let timestamp = utc_timestamp();
    let created = fresh_session_at(Some(home), SessionKind::AuditOnly, timestamp.as_str(), pid);
    proof {
        let (id, dir) = (created->Ok_0.0@, created->Ok_0.1@);
        fresh_sessions_are_fresh(timestamp@, id, dir, root, pid);
    }
    created
}

// ---- a session under way ----
/// A rollback session that is under way.
#[derive(Debug, PartialEq, Eq)]
pub struct RollbackRuntimeState {
    /// The directories that snapshots are taken of.
    pub tracked_paths: Vec<FsPath>,
    /// The session ID.
    pub session_id: String,
    /// Rollback session directory (under `~/.nono/rollbacks/` or a custom
    /// destination). Shared with audit metadata when both are active.
    pub session_dir: FsPath,
}

/// Describes a rollback session that audit metadata should be co-written into.
#[derive(Debug, Clone, Copy)]
pub struct RollbackSharing<'a> {
    /// The session ID.
    pub session_id: &'a str,
    /// The session directory.
    pub session_dir: &'a FsPath,
    /// The tracked directories.
    pub tracked_paths: &'a Vec<FsPath>,
}

impl RollbackRuntimeState {
    /// View of the rollback session that audit can co-write into.
    pub fn as_sharing(&self) -> (r: RollbackSharing<'_>)
        ensures
            r.session_id@ == self.session_id@,
            *r.session_dir == self.session_dir,
            *r.tracked_paths == self.tracked_paths,
    {
        RollbackSharing {
            session_id: self.session_id.as_str(),
            session_dir: &self.session_dir,
            tracked_paths: &self.tracked_paths,
        }
    }
}

} // verus!
