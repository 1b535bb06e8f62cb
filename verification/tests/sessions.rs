use nono_sessions::discovery::{
    discover_audit_sessions, discover_rollback_sessions, sort_newest_first,
};
use nono_sessions::errors::NonoError;
use nono_sessions::loading::{
    load_audit_session, load_rollback_session, load_session_from, locate_session,
    locate_session_for, remove_session,
    AdmittedSession, Resolution, SessionPlace,
};
use nono_sessions::paths::FsPath;
use nono_sessions::session::{
    audit_root, describe_session, rollback_root, root_below, scan_session_root, FoundSession,
    RootListing, ScannedEntry, SessionInfo, SessionKind, SessionMetadata,
};

fn path(text: &str) -> FsPath {
    FsPath::from_text(text)
}

fn record(id: &str, started: &str, ended: Option<&str>) -> SessionMetadata {
    SessionMetadata {
        session_id: id.to_string(),
        started: started.to_string(),
        ended: ended.map(|e| e.to_string()),
        command: vec!["ls".to_string()],
        tracked_paths: vec![path("/tmp/project")],
        snapshot_count: 2,
        exit_code: Some(0),
        merkle_roots: vec![vec![1, 2], vec![3, 4]],
        network_events: vec![],
    }
}

fn found(id: &str, started: &str, running: Option<bool>) -> FoundSession {
    FoundSession {
        metadata: record(id, started, Some("later")),
        dir: path("/r").join(id),
        disk_size: 10,
        running,
    }
}

fn ids(sessions: &[SessionInfo]) -> Vec<&str> {
    sessions
        .iter()
        .map(|s| s.metadata.session_id.as_str())
        .collect()
}

fn entries(list: Vec<FoundSession>) -> RootListing {
    RootListing::Entries(list.into_iter().map(ScannedEntry::Session).collect())
}

#[test]
fn roots_lie_below_the_home_directory() {
    let home = || Some(path("/home/alice"));
    assert_eq!(
        root_below(home(), SessionKind::Rollback),
        Ok(path("/home/alice/.nono/rollbacks"))
    );
    assert_eq!(
        root_below(home(), SessionKind::AuditOnly),
        Ok(path("/home/alice/.nono/audit"))
    );
    assert_eq!(
        root_below(Some(path("/")), SessionKind::AuditOnly),
        Ok(path("/.nono/audit"))
    );
    assert_eq!(
        root_below(None, SessionKind::Rollback),
        Err(NonoError::HomeNotFound)
    );
}

#[test]
fn default_roots_follow_the_environment() {
    match dirs::home_dir() {
        Some(home) => {
            let expected = home.join(".nono").join("rollbacks");
            let text = expected.to_str().expect("utf-8 home");
            assert_eq!(rollback_root(), Ok(path(text)));
            let expected = home.join(".nono").join("audit");
            let text = expected.to_str().expect("utf-8 home");
            assert_eq!(audit_root(), Ok(path(text)));
        }
        None => {
            assert_eq!(rollback_root(), Err(NonoError::HomeNotFound));
            assert_eq!(audit_root(), Err(NonoError::HomeNotFound));
        }
    }
}

#[test]
fn liveness_and_staleness() {
    let cases = [
        ("20260214-143022-12345", None, Some(true), true, false),
        ("20260214-143022-12345", None, Some(false), false, true),
        ("20260214-143022-12345", Some("end"), Some(false), false, false),
        ("20260214-143022-12345", Some("end"), Some(true), true, false),
        ("no-pid-here", None, Some(true), false, true),
        ("20260214-143022-12345", None, None, false, true),
    ];
    for (id, ended, running, alive, stale) in cases {
        let info = describe_session(
            FoundSession {
                metadata: record(id, "start", ended),
                dir: path("/r/x"),
                disk_size: 7,
                running,
            },
            SessionKind::Rollback,
        );
        assert_eq!((info.is_alive, info.is_stale), (alive, stale), "{id}");
        assert_eq!(info.disk_size, 7);
        assert_eq!(info.dir, path("/r/x"));
    }
}

#[test]
fn broken_entries_are_skipped() {
    let listing = RootListing::Entries(vec![
        ScannedEntry::Unreadable,
        ScannedEntry::Session(found("b-1", "1", None)),
        ScannedEntry::NotDirectory,
        ScannedEntry::NoMetadata,
        ScannedEntry::Session(found("a-2", "2", None)),
    ]);
    let sessions = scan_session_root("/r", listing, SessionKind::Rollback).expect("scan");
    assert_eq!(ids(&sessions), vec!["b-1", "a-2"]);
    assert!(sessions.iter().all(|s| s.kind == SessionKind::Rollback));
}

#[test]
fn a_missing_root_has_no_sessions() {
    assert_eq!(
        scan_session_root("/r", RootListing::Missing, SessionKind::AuditOnly),
        Ok(vec![])
    );
}

#[test]
fn an_unreadable_root_is_an_error() {
    let unreadable = || RootListing::Unreadable("permission denied".to_string());
    let expected = NonoError::Snapshot(
        "Failed to read session directory /r: permission denied".to_string(),
    );
    assert_eq!(
        discover_rollback_sessions("/r", unreadable()),
        Err(expected)
    );
    let expected = NonoError::Snapshot(
        "Failed to read session directory /a: permission denied".to_string(),
    );
    assert_eq!(
        discover_audit_sessions("/r", RootListing::Missing, "/a", unreadable()),
        Err(expected)
    );
}

#[test]
fn discovery_lists_newest_first_and_keeps_ties_in_order() {
    let listing = entries(vec![
        found("one-1", "2026-01-01T00:00:00Z", None),
        found("two-2", "2026-03-01T00:00:00Z", None),
        found("three-3", "2026-01-01T00:00:00Z", None),
        found("four-4", "2026-02-01T00:00:00Z", None),
        found("five-5", "", None),
    ]);
    let sessions = discover_rollback_sessions("/r", listing).expect("discover");
    assert_eq!(
        ids(&sessions),
        vec!["two-2", "four-4", "one-1", "three-3", "five-5"]
    );
}

#[test]
fn sorting_agrees_with_the_standard_sort() {
    let starts = ["b", "ab", "a", "é", "z", "b", "", "a\u{10ffff}", "a\u{ff}", "ab", "zz"];
    let make = || -> Vec<SessionInfo> {
        starts
            .iter()
            .enumerate()
            .map(|(i, s)| describe_session(found(&format!("{i}"), s, None), SessionKind::Rollback))
            .collect()
    };
    let mut expected = make();
    expected.sort_by(|a, b| b.metadata.started.cmp(&a.metadata.started));
    assert_eq!(sort_newest_first(make()), expected);
}

#[test]
fn audit_discovery_is_the_union() {
    let rollbacks = || entries(vec![found("r-1", "1", None), found("r-3", "3", None)]);
    let audits = entries(vec![found("a-2", "2", None), found("a-3", "3", None)]);
    let all = discover_audit_sessions("/r", rollbacks(), "/a", audits).expect("discover");
    assert_eq!(ids(&all), vec!["r-3", "a-3", "a-2", "r-1"]);
    let rollback_part: Vec<SessionInfo> = all
        .into_iter()
        .filter(|s| s.kind == SessionKind::Rollback)
        .collect();
    assert_eq!(
        discover_rollback_sessions("/r", rollbacks()),
        Ok(rollback_part)
    );
}

#[test]
fn sessions_are_located_below_their_root() {
    let place = locate_session(Some(path("/h")), "s-1", SessionKind::AuditOnly);
    assert_eq!(
        place,
        Ok(SessionPlace {
            root: path("/h/.nono/audit"),
            dir: path("/h/.nono/audit/s-1"),
            kind: SessionKind::AuditOnly,
        })
    );
    assert_eq!(
        locate_session(None, "s-1", SessionKind::Rollback),
        Err(NonoError::HomeNotFound)
    );
    assert_eq!(
        locate_session(None, "../s-1", SessionKind::Rollback),
        Err(NonoError::SessionNotFound(
            "invalid session ID: ../s-1".to_string()
        ))
    );
}

#[test]
fn lookups_follow_the_separator() {
    let home = || Some(path("/h"));
    let lookup = |separator: char, id: &str| {
        locate_session_for(home(), separator, id, SessionKind::Rollback)
    };
    assert_eq!(
        lookup('/', "a\\b").map(|place| place.dir),
        Ok(path("/h/.nono/rollbacks/a\\b"))
    );
    assert_eq!(
        lookup('\\', "a\\b"),
        Err(NonoError::SessionNotFound(
            "invalid session ID: a\\b".to_string()
        ))
    );
    assert_eq!(
        locate_session_for(None, '/', "s-1", SessionKind::Rollback),
        Err(NonoError::HomeNotFound)
    );
    assert_eq!(
        locate_session(home(), "a\\b", SessionKind::Rollback),
        lookup(std::path::MAIN_SEPARATOR, "a\\b")
    );
}

#[test]
fn rollback_sessions_are_preferred_in_audit_lookups() {
    if dirs::home_dir().is_none() {
        return;
    }
    let in_rollbacks = load_audit_session("s-1", true).expect("place");
    assert_eq!(Ok(in_rollbacks), load_rollback_session("s-1"));
    let elsewhere = load_audit_session("s-1", false).expect("place");
    assert_eq!(elsewhere.kind, SessionKind::AuditOnly);
    assert_eq!(Ok(elsewhere.root), audit_root());
    assert!(load_audit_session("a/b", true).is_err());
    assert!(load_rollback_session("").is_err());
}

fn place() -> SessionPlace {
    SessionPlace {
        root: path("/h/.nono/rollbacks"),
        dir: path("/h/.nono/rollbacks/s-1"),
        kind: SessionKind::Rollback,
    }
}

fn resolution(root: Result<&str, &str>, dir: Option<&str>, exists: bool) -> Resolution {
    Resolution {
        canonical_root: root.map(path).map_err(|e| e.to_string()),
        canonical_dir: dir.map(path),
        exists,
    }
}

#[test]
fn only_directories_within_the_root_are_admitted() {
    let load = |r: Resolution| load_session_from(place(), "/shown", "s-1", &r);
    let refused = || Err(NonoError::SessionNotFound("s-1".to_string()));
    assert_eq!(
        load(resolution(Ok("/x/rollbacks"), Some("/x/rollbacks/s-1"), true)),
        Ok(AdmittedSession {
            dir: path("/h/.nono/rollbacks/s-1"),
            kind: SessionKind::Rollback,
        })
    );
    assert_eq!(
        load(resolution(Ok("/x/rollbacks"), Some("/x/rollbacks-evil/s-1"), true)),
        refused()
    );
    assert_eq!(
        load(resolution(Ok("/x/rollbacks"), Some("/etc"), true)),
        refused()
    );
    assert_eq!(load(resolution(Ok("/x/rollbacks"), None, true)), refused());
    assert_eq!(
        load(resolution(Ok("/x/rollbacks"), Some("/x/rollbacks/s-1"), false)),
        refused()
    );
    assert_eq!(
        load(resolution(Err("gone"), Some("/x/rollbacks/s-1"), true)),
        Err(NonoError::SessionNotFound(
            "Cannot canonicalize session root /shown: gone".to_string()
        ))
    );
}

#[test]
fn an_admitted_session_takes_its_record() {
    let admitted = || AdmittedSession {
        dir: path("/r/s-1"),
        kind: SessionKind::AuditOnly,
    };
    let info = admitted()
        .with_record(Ok(record("s-1", "start", None)), 5, Some(true))
        .expect("info");
    assert!(info.is_alive && !info.is_stale);
    assert_eq!((info.disk_size, info.kind), (5, SessionKind::AuditOnly));
    assert_eq!(info.dir, path("/r/s-1"));
    let failed = admitted().with_record(Err(NonoError::Snapshot("bad".to_string())), 5, None);
    assert_eq!(failed, Err(NonoError::Snapshot("bad".to_string())));
}

#[test]
fn removal_errors_name_the_directory() {
    assert_eq!(remove_session("/r/s-1", Ok(())), Ok(()));
    assert_eq!(
        remove_session("/r/s-1", Err("busy".to_string())),
        Err(NonoError::Snapshot(
            "Failed to remove session directory /r/s-1: busy".to_string()
        ))
    );
}

#[test]
fn joining_and_containment_agree_with_the_standard_library() {
    let paths = [
        "", "/", ".", "./", "a", "a/", "a/b", "a//b", "a/./b", "./a", "/a", "//a/", "/a/b/", "..",
        "a/..", "../a", "/.", "/./a", "ab", "é/x",
    ];
    for base in paths {
        for other in paths {
            let joined = std::path::Path::new(base).join(other);
            assert_eq!(
                path(base).join(other),
                path(joined.to_str().expect("utf-8")),
                "{base:?} {other:?}"
            );
            assert_eq!(
                path(base).starts_with(&path(other)),
                std::path::Path::new(base).starts_with(other),
                "{base:?} {other:?}"
            );
        }
    }
}
