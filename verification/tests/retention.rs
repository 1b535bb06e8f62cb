use nono_sessions::paths::FsPath;
use nono_sessions::retention::{
    PruneAction, PrunePhase, PruneReply, PruneRun, RetentionLimits, Tally,
};
use nono_sessions::session::{SessionInfo, SessionKind, SessionMetadata};

const LIMITS: RetentionLimits = RetentionLimits {
    max_sessions: 2,
    max_storage_bytes: 100,
};

fn session(id: &str, disk_size: u64, is_alive: bool) -> SessionInfo {
    SessionInfo {
        metadata: SessionMetadata {
            session_id: id.to_string(),
            started: id.to_string(),
            ended: None,
            command: vec![],
            tracked_paths: vec![],
            snapshot_count: 0,
            exit_code: None,
            merkle_roots: vec![],
            network_events: vec![],
        },
        dir: FsPath::from_text("/r").join(id),
        disk_size,
        is_alive,
        is_stale: !is_alive,
        kind: SessionKind::Rollback,
    }
}

fn remove(id: &str) -> PruneAction {
    PruneAction::Remove {
        session_id: id.to_string(),
        dir: FsPath::from_text("/r").join(id),
    }
}

fn stop(notice: Option<&str>) -> PruneAction {
    PruneAction::Stop {
        notice: notice.map(|n| n.to_string()),
    }
}

fn listed(silent: bool, sessions: Vec<SessionInfo>) -> (PruneRun, PruneAction) {
    let (run, action) = PruneRun::start(silent, LIMITS);
    assert_eq!(action, PruneAction::LoadLimits);
    let (run, action) = run.advance(PruneReply::NoLimits);
    assert_eq!(action, PruneAction::ListSessions { log_failure: true });
    run.advance(PruneReply::Sessions(sessions))
}

#[test]
fn sessions_beyond_the_limit_go_and_live_ones_stay() {
    let sessions = vec![
        session("f-6", 1, false),
        session("e-5", 1, true),
        session("d-4", 1, false),
        session("c-3", 2048, false),
        session("b-2", 7, true),
        session("a-1", 2048, false),
    ];
    let (run, action) = listed(false, sessions);
    assert_eq!(action, remove("c-3"));
    let (run, action) = run.advance(PruneReply::Removed(true));
    assert_eq!(action, remove("a-1"));
    let (run, action) = run.advance(PruneReply::Removed(true));
    assert_eq!(action, PruneAction::MeasureStorage);
    assert_eq!(
        run.phase,
        PrunePhase::AwaitTotal {
            limits: LIMITS,
            tally: Tally {
                pruned: 2,
                pruned_bytes: 4096
            }
        }
    );
    let (run, action) = run.advance(PruneReply::Total(100));
    assert_eq!(
        action,
        stop(Some("  Auto-pruned 2 old session(s) (freed 4.0 KB)"))
    );
    assert_eq!(run.phase, PrunePhase::Finished);
}

#[test]
fn failed_removals_are_not_counted() {
    let sessions = vec![
        session("d-4", 1, false),
        session("c-3", 1, false),
        session("b-2", 5, false),
        session("a-1", 6, false),
    ];
    let (run, action) = listed(false, sessions);
    assert_eq!(action, remove("b-2"));
    let (run, action) = run.advance(PruneReply::Removed(false));
    assert_eq!(action, remove("a-1"));
    let (run, _) = run.advance(PruneReply::Removed(true));
    let (_, action) = run.advance(PruneReply::Total(0));
    assert_eq!(
        action,
        stop(Some("  Auto-pruned 1 old session(s) (freed 6 B)"))
    );
}

#[test]
fn oldest_sessions_go_until_the_rest_fits() {
    let sessions = || {
        vec![
            session("d-4", 50, false),
            session("c-3", 60, true),
            session("b-2", 70, false),
            session("a-1", 80, false),
        ]
    };
    let limits = RetentionLimits {
        max_sessions: 10,
        max_storage_bytes: 120,
    };
    let (run, _) = PruneRun::start(true, LIMITS);
    let (run, _) = run.advance(PruneReply::Limits(limits));
    let (run, action) = run.advance(PruneReply::Sessions(sessions()));
    assert_eq!(action, PruneAction::MeasureStorage);
    let (run, action) = run.advance(PruneReply::Total(260));
    assert_eq!(action, PruneAction::ListSessions { log_failure: false });
    let (run, action) = run.advance(PruneReply::Sessions(sessions()));
    assert_eq!(action, remove("a-1"));
    let (run, action) = run.advance(PruneReply::Removed(true));
    assert_eq!(action, remove("b-2"));
    let (run, action) = run.advance(PruneReply::Removed(true));
    // 260 - 80 - 70 = 110, which fits; the run is silent
    assert_eq!(action, stop(None));
    assert_eq!(run.phase, PrunePhase::Finished);
}

#[test]
fn the_storage_pass_ends_when_none_is_left() {
    let (run, action) = listed(false, vec![session("a-1", 30, false)]);
    assert_eq!(action, PruneAction::MeasureStorage);
    let (run, _) = run.advance(PruneReply::Total(500));
    let (run, action) = run.advance(PruneReply::Sessions(vec![
        session("b-2", 10, false),
        session("a-1", 600, false),
    ]));
    assert_eq!(action, remove("a-1"));
    let (run, action) = run.advance(PruneReply::Removed(false));
    assert_eq!(action, remove("b-2"));
    let (_, action) = run.advance(PruneReply::Removed(false));
    assert_eq!(action, stop(None));
}

#[test]
fn failures_end_the_run_without_a_word() {
    let (run, _) = PruneRun::start(false, LIMITS);
    let (_, action) = run.advance(PruneReply::Failed);
    assert_eq!(action, stop(None));

    let (run, _) = PruneRun::start(false, LIMITS);
    let (run, _) = run.advance(PruneReply::NoLimits);
    let (_, action) = run.advance(PruneReply::Failed);
    assert_eq!(action, stop(None));

    let (_, action) = listed(false, vec![]);
    assert_eq!(action, stop(None));

    // something was pruned, and then the space cannot be measured
    let sessions = vec![
        session("c-3", 1, false),
        session("b-2", 1, false),
        session("a-1", 1, false),
    ];
    let (run, _) = listed(false, sessions);
    let (run, action) = run.advance(PruneReply::Removed(true));
    assert_eq!(action, PruneAction::MeasureStorage);
    let (_, action) = run.advance(PruneReply::Failed);
    assert_eq!(action, stop(None));
}

#[test]
fn counters_stay_at_their_largest_value() {
    let (run, _) = PruneRun::start(false, LIMITS);
    let run = PruneRun {
        phase: PrunePhase::StoragePass {
            limits: LIMITS,
            stack: vec![session("a-1", u64::MAX, false)],
            current_total: 200,
            tally: Tally {
                pruned: usize::MAX,
                pruned_bytes: 5,
            },
        },
        ..run
    };
    let (_, action) = run.advance(PruneReply::Removed(true));
    let notice = format!(
        "  Auto-pruned {} old session(s) (freed 17179869184.0 GB)",
        usize::MAX
    );
    assert_eq!(action, stop(Some(&notice)));
}

#[test]
fn an_unexpected_reply_ends_the_run() {
    let (run, _) = PruneRun::start(false, LIMITS);
    let (run, action) = run.advance(PruneReply::Total(3));
    assert_eq!(action, stop(None));
    let (_, action) = run.advance(PruneReply::Removed(true));
    assert_eq!(action, stop(None));
}

#[test]
fn only_listed_sessions_go() {
    let (run, action) = listed(
        true,
        vec![
            session("c-3", 1, false),
            session("b-2", 1, false),
            session("a-1", 1, false),
        ],
    );
    assert_eq!(action, remove("a-1"));
    let (run, _) = run.advance(PruneReply::Removed(true));
    let (run, _) = run.advance(PruneReply::Total(1000));
    let (run, action) = run.advance(PruneReply::Sessions(vec![session("z-9", 10, false)]));
    assert_eq!(action, remove("z-9"));
    let (_, action) = run.advance(PruneReply::Removed(true));
    assert_eq!(action, stop(None));
}
