//! Finding, opening and removing a single session by its ID.

use crate::errors::{is_not_found, is_snapshot_error, NonoError};
use crate::evidence::{home_lookup_gave, system_separates_by};
use crate::paths::{
    components, encoding_keeps_out_slash, join_adds_one_component, optional_path, path_join,
    path_starts_with, FsPath, DOT,
};
use crate::session::{
    describe_session, home_dir, root_below, root_path, session_info_of, FoundSession, SessionInfo,
    SessionKind, SessionMetadata,
};
use crate::session_id::{
    acceptable_id, has_double_dot, main_separator, rejection_text, validate_session_id_for,
};
use crate::text::{encoding_is_faithful, joined};
use vstd::prelude::*;
use vstd::string::*;
use vstd::utf8::*;

verus! {

/// Where a session is to be looked for.
#[derive(Debug, PartialEq, Eq)]
pub struct SessionPlace {
    /// The session root.
    pub root: FsPath,
    /// The directory of the session below the root.
    pub dir: FsPath,
    /// The kind of the sessions below the root.
    pub kind: SessionKind,
}

/// The directory of the session `id` below `root`.
pub open spec fn session_dir_path(root: Seq<u8>, id: Seq<char>) -> Seq<u8> {
    path_join(root, encode_utf8(id))
}

/// Whether `place` is where sessions of `kind` called `id` live for `home`.
pub open spec fn is_place_of(
    place: SessionPlace,
    home: Seq<u8>,
    id: Seq<char>,
    kind: SessionKind,
) -> bool {
    &&& place.root@ == root_path(home, kind)
    &&& place.dir@ == session_dir_path(place.root@, id)
    &&& place.kind == kind
}

/// Whether `r` is where a session of `kind` called `id` lives for `home`, on a
/// system whose paths are separated by `separator`: the ID is checked first,
/// then the home directory must be known.
pub open spec fn is_location(
    r: Result<SessionPlace, NonoError>,
    home: Option<FsPath>,
    separator: char,
    id: Seq<char>,
    kind: SessionKind,
) -> bool {
    if !acceptable_id(id, separator) {
        r matches Err(e) && is_not_found(e, rejection_text(id))
    } else {
        match home {
            None => r == Err::<SessionPlace, NonoError>(NonoError::HomeNotFound),
            Some(home) => r matches Ok(place) && is_place_of(place, home@, id, kind),
        }
    }
}

/// Where a session of `kind` lives below the home directory `home`, on a system
/// whose paths are separated by `separator`.
///
/// The session_id is validated first, to prevent path traversal.
pub fn locate_session_for(
    home: Option<FsPath>,
    separator: char,
    session_id: &str,
    kind: SessionKind,
) -> (r: Result<SessionPlace, NonoError>)
    ensures
        is_location(r, home, separator, session_id@, kind),
{
    match validate_session_id_for(session_id, separator) {
        Err(e) => Err(e),
        Ok(()) => match root_below(home, kind) {
            Err(e) => Err(e),
            Ok(root) => {
                let dir = root.join(session_id);
                Ok(SessionPlace { root, dir, kind })
            },
        },
    }
}

/// Where a session of `kind` lives below the home directory `home`, as
/// [`locate_session_for`] has it with the separator of the system.
pub fn locate_session(home: Option<FsPath>, session_id: &str, kind: SessionKind) -> (r: Result<
    SessionPlace,
    NonoError,
>)
    ensures
        is_location(r, home, '/', session_id@, kind) || is_location(
            r,
            home,
            '\\',
            session_id@,
            kind,
        ),
        exists|separator: char|
            system_separates_by(separator) && #[trigger] is_location(
                r,
                home,
                separator,
                session_id@,
                kind,
            ),
{
    locate_session_for(home, main_separator(), session_id, kind)
}

/// Whether `r` is where a session of `kind` called `id` lives for some home
/// directory that may be known, on some system.
pub open spec fn is_some_location(
    r: Result<SessionPlace, NonoError>,
    id: Seq<char>,
    kind: SessionKind,
) -> bool {
    exists|home: Option<FsPath>, separator: char|
        {
            &&& home matches Some(home) ==> home@.len() > 0
            &&& separator == '/' || separator == '\\'
            &&& #[trigger] is_location(r, home, separator, id, kind)
        }
}

/// Where a rollback session is to be loaded from: below `~/.nono/rollbacks/`.
///
/// The session_id is validated to prevent path traversal — it must not
/// contain path separators or `..` components.
pub fn load_rollback_session(session_id: &str) -> (r: Result<SessionPlace, NonoError>)
    ensures
        is_some_location(r, session_id@, SessionKind::Rollback),
        exists|home: Option<FsPath>, separator: char|
            home_lookup_gave(optional_path(home)) && system_separates_by(separator)
                && #[trigger] is_location(
                r,
                home,
                separator,
                session_id@,
                SessionKind::Rollback,
            ),
{
    locate_session(home_dir(), session_id, SessionKind::Rollback)
}

/// Which root an audit session is loaded from.
pub open spec fn audit_lookup_kind(in_rollbacks: bool) -> SessionKind {
    if in_rollbacks {
        SessionKind::Rollback
    } else {
        SessionKind::AuditOnly
    }
}

/// Where an audit session is to be loaded from, of both rollback and audit
/// roots.
///
/// Rollback sessions are preferred so that rich snapshot data is returned
/// when both directories happen to contain the same ID: `in_rollbacks` says
/// whether the rollback root contains it.
pub fn load_audit_session(session_id: &str, in_rollbacks: bool) -> (r: Result<
    SessionPlace,
    NonoError,
>)
    ensures
        is_some_location(r, session_id@, audit_lookup_kind(in_rollbacks)),
        exists|home: Option<FsPath>, separator: char|
            home_lookup_gave(optional_path(home)) && system_separates_by(separator)
                && #[trigger] is_location(
                r,
                home,
                separator,
                session_id@,
                audit_lookup_kind(in_rollbacks),
            ),
{
    let kind = if in_rollbacks {
        SessionKind::Rollback
    } else {
        SessionKind::AuditOnly
    };
    locate_session(home_dir(), session_id, kind)
}

/// What holds of every lookup, whatever the home directory and the system: a
/// place comes only for an ID without a slash and two full stops in a row; an
/// ID that passes on every system gets a place unless the home directory is
/// unknown; and an ID that is refused is refused as such.
pub proof fn lookups_answer_every_id(
    r: Result<SessionPlace, NonoError>,
    id: Seq<char>,
    kind: SessionKind,
)
    requires
        is_some_location(r, id, kind),
    ensures
        r is Ok ==> acceptable_id(id, '/'),
        r matches Ok(place) ==> exists|home: Seq<u8>|
            home.len() > 0 && #[trigger] is_place_of(place, home, id, kind),
        acceptable_id(id, '/') && acceptable_id(id, '\\') ==> r is Ok || r == Err::<
            SessionPlace,
            NonoError,
        >(NonoError::HomeNotFound),
        !acceptable_id(id, '/') ==> (r matches Err(e) && is_not_found(e, rejection_text(id))),
{
    let (home, separator) = choose|home: Option<FsPath>, separator: char|
        {
            &&& home matches Some(home) ==> home@.len() > 0
            &&& separator == '/' || separator == '\\'
            &&& #[trigger] is_location(r, home, separator, id, kind)
        };
    if home is Some && r is Ok {
        assert(is_place_of(r->Ok_0, home->0@, id, kind));
    }
}

proof fn lone_dots_encode()
    ensures
        encode_utf8(seq!['.']) == seq![DOT],
{
    is_ascii_chars_encode_utf8(seq!['.']);
    assert(encode_utf8(seq!['.']) =~= seq![DOT]);
}

/// A session directory lies directly below its root: an acceptable ID adds
/// exactly one component, the ID itself, which is never a parent reference.
/// (The lone full stop is acceptable too; it stands for the root itself.)
pub proof fn session_dirs_stay_below_root(root: Seq<u8>, id: Seq<char>)
    requires
        acceptable_id(id, '/'),
        id != seq!['.'],
    ensures
        components(session_dir_path(root, id)) == components(root).push(encode_utf8(id)),
        path_starts_with(session_dir_path(root, id), root),
        encode_utf8(id) != encode_utf8(seq!['.', '.']),
{
    encoding_keeps_out_slash(id);
    lone_dots_encode();
    if encode_utf8(id) == seq![DOT] {
        encoding_is_faithful(id, seq!['.']);
    }
    if encode_utf8(id) == encode_utf8(seq!['.', '.']) {
        encoding_is_faithful(id, seq!['.', '.']);
        assert(id[0] == '.' && id[1] == '.');
        assert(has_double_dot(id));
    }
    encode_utf8_first_scalar(id);
    assert(encode_utf8(id).len() > 0);
    join_adds_one_component(root, encode_utf8(id));
}

// ---- opening ----
/// What the file system says of a session directory and its root.
#[derive(Debug, PartialEq, Eq)]
pub struct Resolution {
    /// The root with all links resolved, or why it cannot be resolved.
    pub canonical_root: Result<FsPath, String>,
    /// The directory with all links resolved, if it can be resolved.
    pub canonical_dir: Option<FsPath>,
    /// Whether the directory exists.
    pub exists: bool,
}

/// Whether a resolution lets a session be opened: both paths resolve, the
/// directory resolves to somewhere within the resolved root, and it exists.
pub open spec fn admits(resolution: Resolution) -> bool {
    &&& resolution.canonical_root matches Ok(root)
    &&& resolution.canonical_dir matches Some(dir)
    &&& path_starts_with(dir@, root@)
    &&& resolution.exists
}

/// What is said where a session cannot be opened. Unless the root itself is
/// the trouble, nothing but the ID is told.
pub open spec fn refusal_text(
    resolution: Resolution,
    root: Seq<char>,
    session_id: Seq<char>,
) -> Seq<char> {
    match resolution.canonical_root {
        Err(reason) => "Cannot canonicalize session root "@ + root + ": "@ + reason@,
        Ok(_) => session_id,
    }
}

/// A session directory that may be opened.
#[derive(Debug, PartialEq, Eq)]
pub struct AdmittedSession {
    /// The directory.
    pub dir: FsPath,
    /// The kind of the session.
    pub kind: SessionKind,
}

/// Whether `r` is what becomes of a session to be opened at `place`: it is
/// admitted if the resolution lets it be opened, and refused if not.
pub open spec fn is_admission(
    r: Result<AdmittedSession, NonoError>,
    place: SessionPlace,
    root: Seq<char>,
    session_id: Seq<char>,
    resolution: Resolution,
) -> bool {
    match r {
        Ok(admitted) => {
            &&& admits(resolution)
            &&& admitted.dir == place.dir
            &&& admitted.kind == place.kind
        },
        Err(e) => {
            &&& !admits(resolution)
            &&& is_not_found(e, refusal_text(resolution, root, session_id))
        },
    }
}

/// Admit a session from a specific root directory, with path-traversal
/// protection: the resolved path must be within the resolved root, and
/// whatever cannot be resolved is refused. `root` is how the root is shown in
/// an error.
pub fn load_session_from(
    place: SessionPlace,
    root: &str,
    session_id: &str,
    resolution: &Resolution,
) -> (r: Result<AdmittedSession, NonoError>)
    ensures
        is_admission(r, place, root@, session_id@, *resolution),
{
    let canonical_root = match &resolution.canonical_root {
        Ok(path) => path,
        Err(reason) => {
            let mut text = joined("Cannot canonicalize session root ", root);
            text.append(": ");
            text.append(reason.as_str());
            return Err(NonoError::SessionNotFound(text));
        },
    };
    let canonical_dir = match &resolution.canonical_dir {
        Some(path) => path,
        None => return Err(NonoError::SessionNotFound(session_id.to_owned())),
    };
    if !canonical_dir.starts_with(canonical_root) {
        return Err(NonoError::SessionNotFound(session_id.to_owned()));
    }
    if !resolution.exists {
        return Err(NonoError::SessionNotFound(session_id.to_owned()));
    }
    Ok(AdmittedSession { dir: place.dir, kind: place.kind })
}

/// What becomes of an admitted session once its record was read.
pub open spec fn loaded_as(
    admitted: AdmittedSession,
    record: Result<SessionMetadata, NonoError>,
    disk_size: u64,
    running: Option<bool>,
) -> Result<SessionInfo, NonoError> {
    match record {
        Ok(metadata) => Ok(
            session_info_of(
                FoundSession { metadata, dir: admitted.dir, disk_size, running },
                admitted.kind,
            ),
        ),
        Err(e) => Err(e),
    }
}

impl AdmittedSession {
    /// The session, once its record was read. An error from reading the record
    /// is passed on.
    pub fn with_record(
        self,
        record: Result<SessionMetadata, NonoError>,
        disk_size: u64,
        running: Option<bool>,
    ) -> (r: Result<SessionInfo, NonoError>)
        ensures
            r == loaded_as(self, record, disk_size, running),
    {
        match record {
            Ok(metadata) => Ok(
                describe_session(
                    FoundSession { metadata, dir: self.dir, disk_size, running },
                    self.kind,
                ),
            ),
            Err(e) => Err(e),
        }
    }
}

/// What the file system answers about a session that is to be loaded.
pub struct LoadAnswers {
    /// How the root is shown.
    pub root: Seq<char>,
    /// What is said of the directory and its root.
    pub resolution: Resolution,
    /// What reading the record gives.
    pub record: Result<SessionMetadata, NonoError>,
    /// Total disk usage in bytes.
    pub disk_size: u64,
    /// Whether the process that the session ID names is running.
    pub running: Option<bool>,
}

/// Whether `r` is what loading a session comes to, from locating it at `place`
/// over opening it to reading its record.
pub open spec fn is_load_result(
    r: Result<SessionInfo, NonoError>,
    place: Result<SessionPlace, NonoError>,
    session_id: Seq<char>,
    answers: LoadAnswers,
) -> bool {
    match place {
        Err(e) => r == Err::<SessionInfo, NonoError>(e),
        Ok(place) => exists|admission: Result<AdmittedSession, NonoError>|
            {
                &&& #[trigger] is_admission(
                    admission,
                    place,
                    answers.root,
                    session_id,
                    answers.resolution,
                )
                &&& r == match admission {
                    Err(e) => Err(e),
                    Ok(admitted) => loaded_as(
                        admitted,
                        answers.record,
                        answers.disk_size,
                        answers.running,
                    ),
                }
            },
    }
}

/// Whether two errors are of one sort and say the same.
pub open spec fn same_error(a: NonoError, b: NonoError) -> bool {
    match (a, b) {
        (NonoError::HomeNotFound, NonoError::HomeNotFound) => true,
        (NonoError::Snapshot(a), NonoError::Snapshot(b)) => a@ == b@,
        (NonoError::SessionNotFound(a), NonoError::SessionNotFound(b)) => a@ == b@,
        _ => false,
    }
}

/// Whether two lookups led to the same place, or failed alike.
pub open spec fn same_location(
    a: Result<SessionPlace, NonoError>,
    b: Result<SessionPlace, NonoError>,
) -> bool {
    match (a, b) {
        (Ok(a), Ok(b)) => a.root@ == b.root@ && a.dir@ == b.dir@ && a.kind == b.kind,
        (Err(a), Err(b)) => same_error(a, b),
        _ => false,
    }
}

/// Whether two loads gave the same session, or failed alike.
pub open spec fn same_load(
    a: Result<SessionInfo, NonoError>,
    b: Result<SessionInfo, NonoError>,
) -> bool {
    match (a, b) {
        (Ok(a), Ok(b)) => {
            &&& a.metadata == b.metadata
            &&& a.dir@ == b.dir@
            &&& a.disk_size == b.disk_size
            &&& a.is_alive == b.is_alive
            &&& a.is_stale == b.is_stale
            &&& a.kind == b.kind
        },
        (Err(a), Err(b)) => same_error(a, b),
        _ => false,
    }
}

/// An audit lookup leads to the same place as a rollback lookup of the same ID
/// where the rollback root contains the ID, and otherwise to the place below
/// the audit root: for every ID, every home directory and every system.
pub proof fn audit_lookups_prefer_rollbacks(
    home: Option<FsPath>,
    separator: char,
    id: Seq<char>,
    in_rollbacks: bool,
    audit_lookup: Result<SessionPlace, NonoError>,
    rollback_lookup: Result<SessionPlace, NonoError>,
    below_audit_root: Result<SessionPlace, NonoError>,
)
    requires
        is_location(audit_lookup, home, separator, id, audit_lookup_kind(in_rollbacks)),
        is_location(rollback_lookup, home, separator, id, SessionKind::Rollback),
        is_location(below_audit_root, home, separator, id, SessionKind::AuditOnly),
    ensures
        in_rollbacks ==> same_location(audit_lookup, rollback_lookup),
        !in_rollbacks ==> same_location(audit_lookup, below_audit_root),
{
}

/// Lookups that led to the same place load alike, whatever the file system
/// answers there.
pub proof fn same_places_load_alike(
    a: Result<SessionInfo, NonoError>,
    b: Result<SessionInfo, NonoError>,
    place_a: Result<SessionPlace, NonoError>,
    place_b: Result<SessionPlace, NonoError>,
    session_id: Seq<char>,
    answers: LoadAnswers,
)
    requires
        same_location(place_a, place_b),
        is_load_result(a, place_a, session_id, answers),
        is_load_result(b, place_b, session_id, answers),
    ensures
        same_load(a, b),
{
}

/// Where the rollback root contains an ID, loading it for audit gives what
/// loading the rollback session gives, its failure included: the audit root is
/// not asked, whatever it contains. Otherwise it gives what loading the session
/// from the audit root gives. `answers` are about the root that is asked.
pub proof fn audit_loads_prefer_rollbacks(
    home: Option<FsPath>,
    separator: char,
    id: Seq<char>,
    in_rollbacks: bool,
    audit_lookup: Result<SessionPlace, NonoError>,
    lookup: Result<SessionPlace, NonoError>,
    audit_load: Result<SessionInfo, NonoError>,
    load: Result<SessionInfo, NonoError>,
    answers: LoadAnswers,
)
    requires
        is_location(audit_lookup, home, separator, id, audit_lookup_kind(in_rollbacks)),
        in_rollbacks ==> is_location(lookup, home, separator, id, SessionKind::Rollback),
        !in_rollbacks ==> is_location(lookup, home, separator, id, SessionKind::AuditOnly),
        is_load_result(audit_load, audit_lookup, id, answers),
        is_load_result(load, lookup, id, answers),
    ensures
        same_load(audit_load, load),
{
    same_places_load_alike(audit_load, load, audit_lookup, lookup, id, answers);
}

// ---- removing ----
/// What is said of a session directory that cannot be removed.
pub open spec fn removal_error_text(dir: Seq<char>, reason: Seq<char>) -> Seq<char> {
    "Failed to remove session directory "@ + dir + ": "@ + reason
}

/// What removing a session directory comes to. `dir` is how the directory is
/// shown in an error, and `outcome` what the file system answered.
pub fn remove_session(dir: &str, outcome: Result<(), String>) -> (r: Result<(), NonoError>)
    ensures
        match outcome {
            Ok(()) => r is Ok,
            Err(reason) => r matches Err(e) && is_snapshot_error(
                e,
                removal_error_text(dir@, reason@),
            ),
        },
{
    match outcome {
        Ok(()) => Ok(()),
        Err(reason) => {
            let mut text = joined("Failed to remove session directory ", dir);
            text.append(": ");
            text.append(reason.as_str());
            Err(NonoError::Snapshot(text))
        },
    }
}

} // verus!
