//! Session discovery and management for the audit/rollback system.
//!
//! Rollback sessions (which have file snapshots) live in `~/.nono/rollbacks/`.
//! Audit-only sessions (no snapshots, just command + network metadata) live in
//! `~/.nono/audit/`. Both directories contain subdirectories named by
//! `session_id`, each holding a `session.json` with [`SessionMetadata`].
//!
//! Rollback commands only look at the rollback root. Audit commands look at
//! both roots so that an audit-only session is visible in audit listings
//! without being confused for a rollback session by pruning or restore.

use crate::errors::{is_snapshot_error, NonoError};
use crate::evidence::home_lookup_gave;
use crate::paths::{
    components, encoding_keeps_out_slash, join_adds_one_component, optional_path, path_join,
    path_starts_with, FsPath,
};
use crate::session_id::{parse_pid_from_session_id, pid_of};
use crate::text::joined;
use vstd::prelude::*;
use vstd::string::*;
use vstd::utf8::*;

verus! {

/// Whether a discovered session carries rollback snapshots or is audit-only.
#[derive(Debug, Clone, Copy, PartialEq, Eq, Structural)]
pub enum SessionKind {
    /// Session stored in `~/.nono/rollbacks/` with full snapshot state.
    Rollback,
    /// Session stored in `~/.nono/audit/` with metadata only.
    AuditOnly,
}

/// The record of a session, as `session.json` holds it.
#[derive(Debug, PartialEq, Eq)]
pub struct SessionMetadata {
    /// Session ID, `YYYYMMDD-HHMMSS-<pid>`.
    pub session_id: String,
    /// When the session started.
    pub started: String,
    /// When the session ended, unless it is still running or was cut short.
    pub ended: Option<String>,
    /// The command that was run.
    pub command: Vec<String>,
    /// The directories that the session worked on.
    pub tracked_paths: Vec<FsPath>,
    /// How many snapshots were taken.
    pub snapshot_count: u32,
    /// The exit code of the command.
    pub exit_code: Option<i32>,
    /// The Merkle root of each snapshot, as raw bytes.
    pub merkle_roots: Vec<Vec<u8>>,
    /// The network audit events, each in its serialized form.
    pub network_events: Vec<String>,
}

/// Information about a discovered session (rollback or audit-only).
#[derive(Debug, PartialEq, Eq)]
pub struct SessionInfo {
    /// Session metadata loaded from session.json
    pub metadata: SessionMetadata,
    /// Path to the session directory
    pub dir: FsPath,
    /// Total disk usage in bytes
    pub disk_size: u64,
    /// Whether the session's process is still running
    pub is_alive: bool,
    /// Whether the session appears stale (ended is None and PID is dead)
    pub is_stale: bool,
    /// Which root directory this session lives under.
    pub kind: SessionKind,
}

// ---- the session roots ----
/// `<home>/.nono/rollbacks`.
pub open spec fn rollback_root_path(home: Seq<u8>) -> Seq<u8> {
    path_join(path_join(home, encode_utf8(".nono"@)), encode_utf8("rollbacks"@))
}

/// `<home>/.nono/audit`.
pub open spec fn audit_root_path(home: Seq<u8>) -> Seq<u8> {
    path_join(path_join(home, encode_utf8(".nono"@)), encode_utf8("audit"@))
}

/// The root directory of the sessions of a kind.
pub open spec fn root_path(home: Seq<u8>, kind: SessionKind) -> Seq<u8> {
    match kind {
        SessionKind::Rollback => rollback_root_path(home),
        SessionKind::AuditOnly => audit_root_path(home),
    }
}

/// The user's home directory, `dirs::home_dir()`, as raw bytes. Where it is
/// depends on the environment and the user database. It is never empty: an
/// empty `$HOME` and an empty entry in the user database count as none.
#[verifier::external_body]
pub(crate) fn home_dir() -> (r: Option<FsPath>)
    ensures
        r matches Some(home) ==> home@.len() > 0,
        home_lookup_gave(optional_path(r)),
{
    dirs::home_dir().map(|p| FsPath { bytes: p.into_os_string().into_encoded_bytes() })
}

/// The root directory for sessions of `kind` below the home directory `home`.
pub fn root_below(home: Option<FsPath>, kind: SessionKind) -> (r: Result<FsPath, NonoError>)
    ensures
        match home {
            None => r == Err::<FsPath, NonoError>(NonoError::HomeNotFound),
            Some(home) => r matches Ok(root) && root@ == root_path(home@, kind),
        },
{
    match home {
        None => Err(NonoError::HomeNotFound),
        Some(home) => {
            let nono = home.join(".nono");
            match kind {
                SessionKind::Rollback => Ok(nono.join("rollbacks")),
                SessionKind::AuditOnly => Ok(nono.join("audit")),
            }
        },
    }
}

/// Get the rollback root directory (`~/.nono/rollbacks/`)
pub fn rollback_root() -> (r: Result<FsPath, NonoError>)
    ensures
        match r {
            Ok(root) => exists|home: Seq<u8>|
                home.len() > 0 && root@ == #[trigger] rollback_root_path(home),
            Err(e) => e == NonoError::HomeNotFound,
        },
        match r {
            Ok(root) => exists|home: Seq<u8>|
                home_lookup_gave(Some(home)) && root@ == #[trigger] rollback_root_path(home),
            Err(_) => home_lookup_gave(None),
        },
{
    root_below(home_dir(), SessionKind::Rollback)
}

/// Get the audit-only root directory (`~/.nono/audit/`)
pub fn audit_root() -> (r: Result<FsPath, NonoError>)
    ensures
        match r {
            Ok(root) => exists|home: Seq<u8>|
                home.len() > 0 && root@ == #[trigger] audit_root_path(home),
            Err(e) => e == NonoError::HomeNotFound,
        },
        match r {
            Ok(root) => exists|home: Seq<u8>|
                home_lookup_gave(Some(home)) && root@ == #[trigger] audit_root_path(home),
            Err(_) => home_lookup_gave(None),
        },
{
    root_below(home_dir(), SessionKind::AuditOnly)
}

/// Audit-only sessions and rollback sessions never share a directory: neither
/// root is the other or lies below it, wherever the home directory is.
pub proof fn roots_are_apart(home: Seq<u8>)
    ensures
        !path_starts_with(audit_root_path(home), rollback_root_path(home)),
        !path_starts_with(rollback_root_path(home), audit_root_path(home)),
{
    let nono = path_join(home, encode_utf8(".nono"@));
    reveal_strlit("rollbacks");
    reveal_strlit("audit");
    is_ascii_chars_encode_utf8("rollbacks"@);
    is_ascii_chars_encode_utf8("audit"@);
    encoding_keeps_out_slash("rollbacks"@);
    encoding_keeps_out_slash("audit"@);
    let rollbacks = encode_utf8("rollbacks"@);
    let audit = encode_utf8("audit"@);
    assert(rollbacks.len() == 9);
    assert(audit.len() == 5);
    join_adds_one_component(nono, rollbacks);
    join_adds_one_component(nono, audit);
    let below = components(nono);
    assert(below.push(rollbacks).last() == rollbacks);
    assert(below.push(audit).last() == audit);
    if below.push(rollbacks).is_prefix_of(below.push(audit)) {
        assert(below.push(rollbacks)[below.len() as int] == below.push(audit)[below.len() as int]);
    }
    if below.push(audit).is_prefix_of(below.push(rollbacks)) {
        assert(below.push(audit)[below.len() as int] == below.push(rollbacks)[below.len() as int]);
    }
}

// ---- reading a session directory ----
/// What was found in a session directory whose record could be loaded.
#[derive(Debug, PartialEq, Eq)]
pub struct FoundSession {
    /// The loaded record.
    pub metadata: SessionMetadata,
    /// Path to the session directory.
    pub dir: FsPath,
    /// Total disk usage in bytes.
    pub disk_size: u64,
    /// Whether the process that the session ID names is running, where the ID
    /// names one and it was looked up.
    pub running: Option<bool>,
}

/// What a directory entry of a session root turned out to be.
#[derive(Debug, PartialEq, Eq)]
pub enum ScannedEntry {
    /// The entry could not be read.
    Unreadable,
    /// The entry is not a directory.
    NotDirectory,
    /// The directory holds no record, or a corrupt one.
    NoMetadata,
    /// The directory holds a session.
    Session(FoundSession),
}

/// What listing a session root gave.
#[derive(Debug, PartialEq, Eq)]
pub enum RootListing {
    /// The root does not exist.
    Missing,
    /// The root exists and could not be read, for the given reason.
    Unreadable(String),
    /// The entries of the root, in the order in which they were listed.
    Entries(Vec<ScannedEntry>),
}

/// Whether a session's process is running: the session ID must name a process,
/// and that process must have been seen.
pub open spec fn session_alive(found: FoundSession) -> bool {
    pid_of(found.metadata.session_id@) is Some && found.running == Some(true)
}

/// The information about a session of `kind` that was found as `found`.
pub open spec fn session_info_of(found: FoundSession, kind: SessionKind) -> SessionInfo {
    SessionInfo {
        metadata: found.metadata,
        dir: found.dir,
        disk_size: found.disk_size,
        is_alive: session_alive(found),
        is_stale: found.metadata.ended is None && !session_alive(found),
        kind,
    }
}

/// Puts together the information about a session.
///
/// A session whose ID names no process is not alive. A session that has not
/// ended and is not alive is stale.
pub fn describe_session(found: FoundSession, kind: SessionKind) -> (r: SessionInfo)
    ensures
        r == session_info_of(found, kind),
{
    let pid = parse_pid_from_session_id(found.metadata.session_id.as_str());
    let is_alive = match (pid, found.running) {
        (Some(_), Some(running)) => running,
        _ => false,
    };
    let is_stale = found.metadata.ended.is_none() && !is_alive;
    SessionInfo {
        metadata: found.metadata,
        dir: found.dir,
        disk_size: found.disk_size,
        is_alive,
        is_stale,
        kind,
    }
}

/// The session that an entry holds, if it holds one.
pub open spec fn entry_session(entry: ScannedEntry, kind: SessionKind) -> Option<SessionInfo> {
    match entry {
        ScannedEntry::Session(found) => Some(session_info_of(found, kind)),
        _ => None,
    }
}

/// The sessions among the entries of a root, in the order of the entries.
pub open spec fn entry_sessions(entries: Seq<ScannedEntry>, kind: SessionKind) -> Seq<SessionInfo> {
    entries.filter_map(|e: ScannedEntry| entry_session(e, kind))
}

/// The entries of a listing; a root that does not exist has none.
pub open spec fn listed_entries(listing: RootListing) -> Seq<ScannedEntry> {
    match listing {
        RootListing::Entries(entries) => entries@,
        _ => Seq::empty(),
    }
}

/// What is said of a root that cannot be read.
pub open spec fn unreadable_root_text(root: Seq<char>, reason: Seq<char>) -> Seq<char> {
    "Failed to read session directory "@ + root + ": "@ + reason
}

/// Whether `r` is the error for a root shown as `root` that cannot be read.
pub open spec fn is_unreadable_root<T>(
    r: Result<T, NonoError>,
    root: Seq<char>,
    listing: RootListing,
) -> bool {
    &&& listing matches RootListing::Unreadable(reason)
    &&& r matches Err(e)
    &&& is_snapshot_error(e, unreadable_root_text(root, reason@))
}

/// Load the sessions among the entries of a single session root directory.
///
/// Sessions with missing or corrupt metadata are silently skipped so that a
/// single broken session cannot break discovery. `root` is how the root is
/// shown in an error.
pub fn scan_session_root(root: &str, listing: RootListing, kind: SessionKind) -> (r: Result<
    Vec<SessionInfo>,
    NonoError,
>)
    ensures
        match listing {
            RootListing::Unreadable(_) => is_unreadable_root(r, root@, listing),
            _ => r matches Ok(sessions) && sessions@ == entry_sessions(
                listed_entries(listing),
                kind,
            ),
        },
{
    match listing {
        RootListing::Missing => {
            let none: Vec<SessionInfo> = Vec::new();
            assert(none@ =~= entry_sessions(Seq::empty(), kind));
            Ok(none)
        },
        RootListing::Unreadable(reason) => {
            let mut text = joined("Failed to read session directory ", root);
            text.append(": ");
            text.append(reason.as_str());
            Err(NonoError::Snapshot(text))
        },
        RootListing::Entries(entries) => Ok(collect_sessions(entries, kind)),
    }
}

fn collect_sessions(entries: Vec<ScannedEntry>, kind: SessionKind) -> (r: Vec<SessionInfo>)
    ensures
        r@ == entry_sessions(entries@, kind),
{
    let mut sessions: Vec<SessionInfo> = Vec::new();
    let ghost pick = |e: ScannedEntry| entry_session(e, kind);
    let ghost all = entries@;
    assert(all.take(0) =~= Seq::<ScannedEntry>::empty());
    for entry in it: entries
        invariant
            it.seq() == all,
            pick == (|e: ScannedEntry| entry_session(e, kind)),
            sessions@ == all.take(it.index()).filter_map(pick),
    {
        let ghost done = all.take(it.index());
        proof {
            assert(all.take(it.index() + 1).drop_last() =~= done);
            assert(all.take(it.index() + 1).last() == entry);
        }
        match entry {
            ScannedEntry::Session(found) => {
                let info = describe_session(found, kind);
                assert(sessions@ + seq![info] =~= sessions@.push(info));
                sessions.push(info);
            },
            _ => {},
        }
    }
    assert(all.take(all.len() as int) =~= all);
    sessions
}

/// A broken entry does not affect what is found beside it.
pub proof fn broken_entries_do_not_count(
    before: Seq<ScannedEntry>,
    broken: ScannedEntry,
    after: Seq<ScannedEntry>,
    kind: SessionKind,
)
    requires
        !(broken is Session),
    ensures
        entry_sessions(before.push(broken) + after, kind) == entry_sessions(before + after, kind),
    decreases after.len(),
{
    let pick = |e: ScannedEntry| entry_session(e, kind);
    if after.len() == 0 {
        assert(before.push(broken) + after =~= before.push(broken));
        assert(before + after =~= before);
        assert(before.push(broken).drop_last() =~= before);
    } else {
        broken_entries_do_not_count(before, broken, after.drop_last(), kind);
        assert((before.push(broken) + after).drop_last() =~= before.push(broken)
            + after.drop_last());
        assert((before + after).drop_last() =~= before + after.drop_last());
    }
}

/// A session that has ended or is alive is not stale, and one that is alive
/// has an ID that names its process.
pub proof fn stale_sessions_are_dead(found: FoundSession, kind: SessionKind)
    ensures
        session_info_of(found, kind).is_stale <==> found.metadata.ended is None
            && !session_info_of(found, kind).is_alive,
        session_info_of(found, kind).is_alive ==> pid_of(found.metadata.session_id@) is Some,
{
}

} // verus!
