use nono_sessions::audit::{
    create_audit_state, create_audit_state_at, finalize_supervised_exit, AuditState, ExitAction, ExitRun, ExitStep,
    RollbackExitContext, RollbackOutcome,
};
use nono_sessions::capabilities::{
    user_tracked_paths, writable_tracked_paths, AccessMode, CapabilitySet, CapabilitySource,
    FsCapability,
};
use nono_sessions::errors::NonoError;
use nono_sessions::exclusions::{rollback_vcs_exclusions, sorted_patterns, ExclusionConfig};
use nono_sessions::loading::{load_audit_session, load_rollback_session};
use nono_sessions::paths::FsPath;
use nono_sessions::rollback::{
    create_session_dir, ensure_audit_session_dir, ensure_rollback_session_dir, fresh_session_at,
    rollback_session_at,
    warn_if_rollback_flags_ignored, FlagWarning, RollbackLaunchOptions, RollbackRuntimeState,
    RollbackSharing, SESSION_DIR_MODE,
};
use nono_sessions::session::{audit_root, SessionKind, SessionMetadata};
use nono_sessions::session_id::parse_pid_from_session_id;
use nono_sessions::setup::{
    initialize_rollback_state, on_session_placed, plan_rollback, HeavyDir, NewSession,
    PreflightReport, SetupAction, SetupPhase, SetupReply, SetupRun,
};

fn path(text: &str) -> FsPath {
    FsPath::from_text(text)
}

fn strings(list: &[&str]) -> Vec<String> {
    list.iter().map(|s| s.to_string()).collect()
}

fn cap(at: &str, is_file: bool, access: AccessMode, source: CapabilitySource) -> FsCapability {
    FsCapability {
        resolved: path(at),
        is_file,
        access,
        source,
    }
}

fn some_caps() -> CapabilitySet {
    CapabilitySet {
        fs: vec![
            cap("/read", false, AccessMode::Read, CapabilitySource::User),
            cap("/write", false, AccessMode::Write, CapabilitySource::User),
            cap("/file", true, AccessMode::ReadWrite, CapabilitySource::User),
            cap("/sys", false, AccessMode::ReadWrite, CapabilitySource::Other),
            cap("/both", false, AccessMode::ReadWrite, CapabilitySource::User),
        ],
    }
}

fn options() -> RollbackLaunchOptions {
    RollbackLaunchOptions {
        requested: true,
        disabled: false,
        track_all: false,
        destination: None,
        force_include: vec![],
        exclude_patterns: vec![],
        exclude_globs: vec![],
        skip_dirs: vec![],
    }
}

#[test]
fn create_audit_state_returns_none_when_disabled() {
    let caps = CapabilitySet::new();
    let result = create_audit_state(true, None, &caps, 1).unwrap();
    assert!(result.is_none());
}

#[test]
fn create_audit_state_shares_rollback_session_when_active() {
    let caps = CapabilitySet::new();
    let shared_dir = path("/tmp/shared");
    let paths = vec![path("/tmp/project")];
    let sharing = RollbackSharing {
        session_id: "shared-123",
        session_dir: &shared_dir,
        tracked_paths: &paths,
    };

    let state = create_audit_state(false, Some(sharing), &caps, 1)
        .unwrap()
        .unwrap();

    assert_eq!(state.session_id, "shared-123");
    assert_eq!(state.session_dir, shared_dir);
    assert_eq!(state.tracked_paths, paths);
    assert!(!state.owns_dir);
}

#[test]
fn disabled_audit_does_not_share() {
    let dir = path("/tmp/shared");
    let paths = vec![];
    let sharing = RollbackSharing {
        session_id: "shared-123",
        session_dir: &dir,
        tracked_paths: &paths,
    };
    let result = create_audit_state(true, Some(sharing), &CapabilitySet::new(), 1);
    assert_eq!(result, Ok(None));
}

#[test]
fn audit_only_sessions_live_below_the_audit_root() {
    let result = create_audit_state(false, None, &some_caps(), 77);
    match audit_root() {
        Err(e) => assert_eq!(result, Err(e)),
        Ok(root) => {
            let state = result.unwrap().unwrap();
            assert!(state.owns_dir);
            assert_eq!(parse_pid_from_session_id(&state.session_id), Some(77));
            assert_eq!(state.session_dir, root.join(&state.session_id));
            assert_eq!(
                state.tracked_paths,
                vec![path("/read"), path("/write"), path("/both")]
            );
        }
    }
}

const NOW: &str = "20260214-143022";

fn home() -> Option<FsPath> {
    Some(path("/home/alice"))
}

#[test]
fn fresh_sessions_are_placed_below_the_home_directory() {
    assert_eq!(
        fresh_session_at(home(), SessionKind::AuditOnly, NOW, 7),
        Ok((
            "20260214-143022-7".to_string(),
            path("/home/alice/.nono/audit/20260214-143022-7")
        ))
    );
    assert_eq!(
        fresh_session_at(home(), SessionKind::Rollback, NOW, 7),
        Ok((
            "20260214-143022-7".to_string(),
            path("/home/alice/.nono/rollbacks/20260214-143022-7")
        ))
    );
    assert_eq!(
        fresh_session_at(None, SessionKind::AuditOnly, NOW, 7),
        Err(NonoError::HomeNotFound)
    );
}

#[test]
fn rollback_sessions_prefer_the_destination() {
    let dest = path("/tmp/custom");
    let id = || "20260214-143022-7".to_string();
    let below_dest = Ok((id(), path("/tmp/custom/20260214-143022-7")));
    assert_eq!(rollback_session_at(Some(&dest), home(), NOW, 7), below_dest);
    assert_eq!(rollback_session_at(Some(&dest), None, NOW, 7), below_dest);
    assert_eq!(
        rollback_session_at(None, home(), NOW, 7),
        Ok((
            id(),
            path("/home/alice/.nono/rollbacks/20260214-143022-7")
        ))
    );
    assert_eq!(
        rollback_session_at(None, None, NOW, 7),
        Err(NonoError::HomeNotFound)
    );
}

fn audit_only() -> AuditState {
    create_audit_state_at(home(), NOW, false, None, &some_caps(), 7)
        .unwrap()
        .unwrap()
}

#[test]
fn audit_only_states_follow_home_and_clock() {
    assert_eq!(
        audit_only(),
        AuditState {
            session_id: "20260214-143022-7".to_string(),
            session_dir: path("/home/alice/.nono/audit/20260214-143022-7"),
            tracked_paths: vec![path("/read"), path("/write"), path("/both")],
            owns_dir: true,
        }
    );
    assert_eq!(
        create_audit_state_at(None, NOW, false, None, &some_caps(), 7),
        Err(NonoError::HomeNotFound)
    );
    assert_eq!(
        create_audit_state_at(home(), NOW, true, None, &some_caps(), 7),
        Ok(None)
    );
}

#[test]
fn audit_only_states_need_their_directory() {
    assert_eq!(audit_only().with_dir("shown", Ok(())), Ok(audit_only()));
    assert_eq!(
        audit_only().with_dir("shown", Err("full".to_string())),
        Err(NonoError::Snapshot(
            "Failed to create session directory shown: full".to_string()
        ))
    );
    let shared = || AuditState {
        owns_dir: false,
        ..audit_only()
    };
    assert_eq!(
        shared().with_dir("shown", Err("full".to_string())),
        Ok(shared())
    );
}

#[test]
fn ensure_rollback_session_dir_honours_custom_destination() {
    let dest = path("/tmp/custom");

    let (session_id, session_dir) = ensure_rollback_session_dir(Some(&dest), 55).unwrap();

    assert!(!session_id.is_empty());
    assert!(session_dir.starts_with(&dest));
    assert_eq!(session_dir, dest.join(&session_id));
}

#[test]
fn fresh_sessions_default_to_their_roots() {
    match ensure_audit_session_dir(3) {
        Ok((id, dir)) => assert_eq!(Ok(dir), audit_root().map(|root| root.join(&id))),
        Err(e) => assert_eq!(e, NonoError::HomeNotFound),
    }
    match ensure_rollback_session_dir(None, 3) {
        Ok((id, dir)) => assert_eq!(
            Ok(dir),
            nono_sessions::session::rollback_root().map(|root| root.join(&id))
        ),
        Err(e) => assert_eq!(e, NonoError::HomeNotFound),
    }
}

#[test]
fn created_sessions_are_found_by_their_id() {
    if audit_root().is_err() {
        return;
    }
    let (id, dir) = ensure_audit_session_dir(8).unwrap();
    assert_eq!(load_audit_session(&id, false).unwrap().dir, dir);
    let (id, dir) = ensure_rollback_session_dir(None, 8).unwrap();
    assert_eq!(load_rollback_session(&id).unwrap().dir, dir);
    assert_eq!(load_audit_session(&id, true).unwrap().dir, dir);
}

#[test]
fn audit_records_go_where_their_id_says() {
    let state = match create_audit_state(false, None, &some_caps(), 9) {
        Ok(state) => state,
        Err(e) => {
            assert_eq!(e, NonoError::HomeNotFound);
            return;
        }
    };
    match &finalize_supervised_exit(context(state, None)).unwrap()[..] {
        [ExitStep::WriteAuditRecord { dir, metadata }] => {
            assert_eq!(*dir, audit_root().unwrap().join(&metadata.session_id))
        }
        other => panic!("unexpected: {other:?}"),
    }
}

#[test]
fn create_session_dir_makes_dir_under_root() {
    let root = path("/tmp/root");
    let session_dir = create_session_dir(root.join("my-session"), "shown", Ok(())).unwrap();

    assert!(session_dir.starts_with(&root));
    assert_eq!(session_dir, path("/tmp/root/my-session"));
}

#[test]
fn session_directories_are_private() {
    let mode = SESSION_DIR_MODE & 0o777;
    assert_eq!(mode, 0o700, "session dir should have 0700 permissions");
}

#[test]
fn creation_errors_name_the_directory() {
    assert_eq!(
        create_session_dir(path("/r/s-1"), "/r/s-1", Err("full".to_string())),
        Err(NonoError::Snapshot(
            "Failed to create session directory /r/s-1: full".to_string()
        ))
    );
}

#[test]
fn user_tracked_paths_returns_empty_for_default_caps() {
    let caps = CapabilitySet::new();
    assert!(user_tracked_paths(&caps).is_empty());
}

#[test]
fn tracked_paths_are_the_directories_of_the_user() {
    assert_eq!(
        user_tracked_paths(&some_caps()),
        vec![path("/read"), path("/write"), path("/both")]
    );
    assert_eq!(
        writable_tracked_paths(&some_caps()),
        vec![path("/write"), path("/both")]
    );
}

#[test]
fn version_control_data_is_left_out() {
    assert_eq!(rollback_vcs_exclusions(), strings(&[".git", ".hg", ".svn"]));
}

#[test]
fn patterns_are_sorted_without_repetition() {
    let given = strings(&["b", "a", "é", "b", ""]);
    let more = strings(&["z", "a", "ab"]);
    let mut expected = given.clone();
    expected.extend(more.iter().cloned());
    expected.sort_unstable();
    expected.dedup();
    assert_eq!(sorted_patterns(given, &more), expected);
}

#[test]
fn rollback_is_set_up_only_where_it_is_active() {
    let none = |o: &RollbackLaunchOptions, caps: &CapabilitySet| {
        plan_rollback(o, caps, vec![]).is_none()
    };
    assert!(!none(&options(), &some_caps()));
    let mut o = options();
    o.requested = false;
    assert!(none(&o, &some_caps()));
    let mut o = options();
    o.disabled = true;
    assert!(none(&o, &some_caps()));
    let read_only = CapabilitySet {
        fs: vec![cap("/read", false, AccessMode::Read, CapabilitySource::User)],
    };
    assert!(none(&options(), &read_only));
    assert_eq!(user_tracked_paths(&read_only), vec![path("/read")]);
}

#[test]
fn the_first_filter_holds_defaults_and_user_patterns() {
    let mut o = options();
    o.exclude_patterns = strings(&["target", "dist", "node_modules"]);
    o.exclude_globs = strings(&["*.log"]);
    o.force_include = strings(&["vendor"]);
    let base = || strings(&["node_modules", ".git"]);
    let setup = plan_rollback(&o, &some_caps(), base()).unwrap();
    assert_eq!(setup.tracked_paths, vec![path("/write"), path("/both")]);
    assert_eq!(setup.gitignore_root, path("/write"));
    assert!(setup.run_preflight);
    assert_eq!(
        setup.filter,
        ExclusionConfig {
            use_gitignore: true,
            exclude_patterns: strings(&[".git", "dist", "node_modules", "target"]),
            exclude_globs: strings(&["*.log"]),
            force_include: strings(&["vendor"]),
        }
    );
    o.track_all = true;
    let setup = plan_rollback(&o, &some_caps(), base()).unwrap();
    assert!(!setup.run_preflight);
    assert_eq!(
        setup.filter.exclude_patterns,
        strings(&[".git", ".hg", ".svn", "dist", "node_modules", "target"])
    );
}

fn heavy(name: &str) -> HeavyDir {
    HeavyDir {
        name: name.to_string(),
        file_count: 10_000,
    }
}

fn report(needs_warning: bool, names: &[&str]) -> PreflightReport {
    PreflightReport {
        needs_warning,
        heavy_dirs: names.iter().map(|n| heavy(n)).collect(),
    }
}

#[test]
fn heavy_directories_are_left_out_unless_taken_in() {
    let mut o = options();
    o.force_include = strings(&["vendor"]);
    let setup = plan_rollback(&o, &some_caps(), strings(&[".git"])).unwrap();
    let refined = setup
        .after_preflight(&o, report(true, &["target", "vendor", "cache"]))
        .unwrap();
    assert_eq!(refined.auto_excluded, vec![heavy("target"), heavy("cache")]);
    assert_eq!(
        refined.filter.exclude_patterns,
        strings(&[".git", "cache", "target"])
    );
    assert_eq!(refined.filter.force_include, strings(&["vendor"]));
    assert!(refined.filter.use_gitignore);

    assert_eq!(setup.after_preflight(&o, report(false, &["target"])), None);
    assert_eq!(setup.after_preflight(&o, report(true, &["vendor"])), None);

    o.track_all = true;
    let setup = plan_rollback(&o, &some_caps(), vec![]).unwrap();
    assert_eq!(setup.after_preflight(&o, report(true, &["target"])), None);
}

#[test]
fn a_rollback_session_is_shared_as_it_is() {
    let setup = plan_rollback(&options(), &some_caps(), vec![]).unwrap();
    let state = setup.into_state("id-9".to_string(), path("/r/id-9"));
    let share = state.as_sharing();
    assert_eq!(share.session_id, "id-9");
    assert_eq!(*share.session_dir, path("/r/id-9"));
    assert_eq!(*share.tracked_paths, vec![path("/write"), path("/both")]);
}

#[test]
fn ignored_flags_are_warned_about() {
    let quiet = FlagWarning {
        log: None,
        print: None,
    };
    let mut o = options();
    o.track_all = true;
    assert_eq!(warn_if_rollback_flags_ignored(&o, false), quiet);
    o.track_all = false;
    o.disabled = true;
    assert_eq!(warn_if_rollback_flags_ignored(&o, false), quiet);
    let log = Some(
        "--no-rollback is active; rollback flags \
         (--rollback-all, --rollback-include, --rollback-exclude) \
         have no effect"
            .to_string(),
    );
    let print = Some(
        "  [nono] Warning: --no-rollback is active; \
         rollback customization flags have no effect."
            .to_string(),
    );
    for k in 0..4 {
        let mut o = options();
        o.disabled = true;
        match k {
            0 => o.track_all = true,
            1 => o.force_include = strings(&["a"]),
            2 => o.exclude_patterns = strings(&["a"]),
            _ => o.exclude_globs = strings(&["a"]),
        }
        let said = warn_if_rollback_flags_ignored(&o, false);
        assert_eq!(said.log, log);
        assert_eq!(said.print, print);
        let said = warn_if_rollback_flags_ignored(&o, true);
        assert_eq!(said.log, log);
        assert_eq!(said.print, None);
    }
}

fn context(
    audit_state: Option<AuditState>,
    rollback: Option<Result<RollbackOutcome, NonoError>>,
) -> RollbackExitContext {
    RollbackExitContext {
        audit_state,
        rollback,
        network_events: strings(&["event"]),
        started: "s".to_string(),
        ended: "e".to_string(),
        command: strings(&["ls", "-l"]),
        exit_code: 3,
        silent: false,
        rollback_prompt_disabled: false,
    }
}

fn audit() -> AuditState {
    AuditState {
        session_id: "audit-1".to_string(),
        session_dir: path("/a/audit-1"),
        tracked_paths: vec![path("/read")],
        owns_dir: true,
    }
}

fn outcome(has_changes: bool) -> RollbackOutcome {
    RollbackOutcome {
        state: RollbackRuntimeState {
            tracked_paths: vec![path("/write")],
            session_id: "rb-2".to_string(),
            session_dir: path("/r/rb-2"),
        },
        snapshot_count: 2,
        baseline_root: vec![1],
        final_root: vec![2],
        has_changes,
    }
}

fn rollback_record() -> SessionMetadata {
    SessionMetadata {
        session_id: "rb-2".to_string(),
        started: "s".to_string(),
        ended: Some("e".to_string()),
        command: strings(&["ls", "-l"]),
        tracked_paths: vec![path("/write")],
        snapshot_count: 2,
        exit_code: Some(3),
        merkle_roots: vec![vec![1], vec![2]],
        network_events: strings(&["event"]),
    }
}

#[test]
fn audit_only_sessions_leave_a_record_without_snapshots() {
    let steps = finalize_supervised_exit(context(Some(audit()), None)).unwrap();
    assert_eq!(
        steps,
        vec![ExitStep::WriteAuditRecord {
            dir: path("/a/audit-1"),
            metadata: SessionMetadata {
                session_id: "audit-1".to_string(),
                started: "s".to_string(),
                ended: Some("e".to_string()),
                command: strings(&["ls", "-l"]),
                tracked_paths: vec![path("/read")],
                snapshot_count: 0,
                exit_code: Some(3),
                merkle_roots: vec![],
                network_events: strings(&["event"]),
            },
        }]
    );
}

#[test]
fn rollback_sessions_leave_one_record_audited_or_not() {
    let expected = || {
        vec![
            ExitStep::SaveRollbackRecord {
                metadata: rollback_record(),
            },
            ExitStep::RemoveNewTempFiles,
        ]
    };
    let with_audit = finalize_supervised_exit(context(Some(audit()), Some(Ok(outcome(false)))));
    assert_eq!(with_audit, Ok(expected()));
    let without_audit = finalize_supervised_exit(context(None, Some(Ok(outcome(false)))));
    assert_eq!(without_audit, Ok(expected()));
}

#[test]
fn without_audit_and_rollback_nothing_is_left() {
    assert_eq!(finalize_supervised_exit(context(None, None)), Ok(vec![]));
}

#[test]
fn changes_are_shown_and_offered_to_be_undone() {
    let steps = finalize_supervised_exit(context(None, Some(Ok(outcome(true))))).unwrap();
    assert_eq!(
        steps[1..],
        [
            ExitStep::ShowChanges,
            ExitStep::OfferRestore,
            ExitStep::RemoveNewTempFiles
        ]
    );
    for (silent, prompt_disabled) in [(true, false), (false, true), (true, true)] {
        let mut ctx = context(None, Some(Ok(outcome(true))));
        ctx.silent = silent;
        ctx.rollback_prompt_disabled = prompt_disabled;
        assert_eq!(
            finalize_supervised_exit(ctx).unwrap()[1..],
            [ExitStep::ShowChanges, ExitStep::RemoveNewTempFiles]
        );
    }
}

fn error(text: &str) -> NonoError {
    NonoError::Snapshot(text.to_string())
}

#[test]
fn a_failed_last_snapshot_ends_the_exit() {
    let failed = context(Some(audit()), Some(Err(error("disk full"))));
    assert_eq!(finalize_supervised_exit(failed), Err(error("disk full")));
}

fn taken(steps: Vec<ExitStep>, failing: &[usize]) -> (usize, Result<(), NonoError>) {
    let expected: Vec<String> = steps.iter().map(|s| format!("{s:?}")).collect();
    let (mut run, mut action) = ExitRun::start(steps);
    let mut count = 0;
    loop {
        match action {
            ExitAction::Stop(result) => return (count, result),
            ExitAction::Perform(step) => {
                assert_eq!(format!("{step:?}"), expected[count]);
                let outcome = if failing.contains(&count) {
                    Err(error("failed"))
                } else {
                    Ok(())
                };
                count += 1;
                (run, action) = run.advance(outcome);
            }
        }
    }
}

#[test]
fn exit_steps_are_taken_in_order() {
    let plan = || finalize_supervised_exit(context(None, Some(Ok(outcome(true))))).unwrap();
    assert_eq!(plan().len(), 4);
    assert_eq!(taken(plan(), &[]), (4, Ok(())));
    assert_eq!(taken(plan(), &[1, 2, 3]), (4, Ok(())));
    assert_eq!(taken(plan(), &[0]), (1, Err(error("failed"))));
    assert_eq!(taken(vec![], &[]), (0, Ok(())));
    let audit_only = finalize_supervised_exit(context(Some(audit()), None)).unwrap();
    assert_eq!(taken(audit_only, &[0]), (1, Err(error("failed"))));
}

fn stopped_with(action: SetupAction) -> Result<Option<RollbackRuntimeState>, NonoError> {
    match action {
        SetupAction::Stop { outcome } => outcome,
        other => panic!("not stopped: {other:?}"),
    }
}

const PID: u32 = 1234;

fn created(action: SetupAction) -> FsPath {
    match action {
        SetupAction::CreateSession { session_dir } => {
            let dest = path("/dest");
            assert!(session_dir.starts_with(&dest));
            let text = String::from_utf8(session_dir.bytes.clone()).unwrap();
            let id = text.strip_prefix("/dest/").unwrap();
            assert_eq!(parse_pid_from_session_id(id), Some(PID));
            session_dir
        }
        other => panic!("unexpected: {other:?}"),
    }
}

fn up_to_report(o: &RollbackLaunchOptions, silent: bool) -> (SetupRun<'_>, FsPath) {
    let base = strings(&["node_modules"]);
    let (run, action) = initialize_rollback_state(o, &some_caps(), silent, base, PID);
    assert_eq!(action, SetupAction::EnforceLimits);
    let (run, action) = run.advance(SetupReply::Done);
    let dir = created(action);
    let (run, action) = run.advance(SetupReply::Done);
    assert_eq!(
        action,
        SetupAction::BuildFilter {
            config: ExclusionConfig {
                use_gitignore: true,
                exclude_patterns: strings(&["node_modules"]),
                exclude_globs: vec![],
                force_include: vec![],
            },
            gitignore_root: path("/write"),
        }
    );
    let (run, action) = run.advance(SetupReply::Done);
    assert_eq!(
        action,
        SetupAction::FindHeavyDirs {
            tracked_paths: vec![path("/write"), path("/both")],
            skip_dirs: strings(&["skipped"]),
        }
    );
    (run, dir)
}

fn baseline(dir: &FsPath) -> SetupAction {
    SetupAction::TakeBaseline {
        session_dir: dir.clone(),
        tracked_paths: vec![path("/write"), path("/both")],
    }
}

#[test]
fn setup_goes_through_its_phases() {
    let mut o = options();
    o.skip_dirs = strings(&["skipped"]);
    o.destination = Some(path("/dest"));
    let (run, dir) = up_to_report(&o, false);
    let (run, action) = run.advance(SetupReply::Report(report(true, &["target"])));
    match action {
        SetupAction::BuildFilter {
            config,
            gitignore_root,
        } => {
            assert_eq!(config.exclude_patterns, strings(&["node_modules", "target"]));
            assert_eq!(gitignore_root, path("/write"));
        }
        other => panic!("unexpected: {other:?}"),
    }
    let (run, action) = run.advance(SetupReply::Done);
    assert_eq!(
        action,
        SetupAction::Announce {
            heavy: vec![heavy("target")]
        }
    );
    let (run, action) = run.advance(SetupReply::Done);
    assert_eq!(action, baseline(&dir));
    let (run, action) = run.advance(SetupReply::Done);
    assert_eq!(
        action,
        SetupAction::ShowTracking {
            tracked_paths: vec![path("/write"), path("/both")],
            silent: false,
        }
    );
    let (run, action) = run.advance(SetupReply::Done);
    assert_eq!(run.phase, SetupPhase::Finished);
    let state = stopped_with(action).unwrap().unwrap();
    assert_eq!(state.tracked_paths, vec![path("/write"), path("/both")]);
    assert_eq!(state.session_dir, dir);
    assert_eq!(state.session_dir, path("/dest").join(&state.session_id));
}

#[test]
fn setup_says_nothing_when_silent() {
    let mut o = options();
    o.skip_dirs = strings(&["skipped"]);
    o.destination = Some(path("/dest"));
    let (run, dir) = up_to_report(&o, true);
    let (run, action) = run.advance(SetupReply::Report(report(true, &["target"])));
    assert!(matches!(action, SetupAction::BuildFilter { .. }));
    let (_, action) = run.advance(SetupReply::Done);
    assert_eq!(action, baseline(&dir));

    let (run, dir) = up_to_report(&o, false);
    let (_, action) = run.advance(SetupReply::Report(report(false, &["target"])));
    assert_eq!(action, baseline(&dir));
}

#[test]
fn setup_of_everything_skips_the_look_for_heavy_directories() {
    let mut o = options();
    o.track_all = true;
    o.destination = Some(path("/dest"));
    let (run, _) = initialize_rollback_state(&o, &some_caps(), false, strings(&["dist"]), PID);
    let (run, action) = run.advance(SetupReply::Done);
    let dir = created(action);
    let (run, action) = run.advance(SetupReply::Done);
    match action {
        SetupAction::BuildFilter { config, .. } => {
            assert_eq!(config.exclude_patterns, strings(&[".git", ".hg", ".svn"]))
        }
        other => panic!("unexpected: {other:?}"),
    }
    let (_, action) = run.advance(SetupReply::Done);
    assert_eq!(action, baseline(&dir));
}

#[test]
fn limits_are_not_enforced_without_rollback() {
    let mut off = options();
    off.disabled = true;
    let mut unasked = options();
    unasked.requested = false;
    for o in [off, unasked] {
        let (run, action) = initialize_rollback_state(&o, &some_caps(), false, vec![], PID);
        assert_eq!(run.phase, SetupPhase::Finished);
        assert_eq!(stopped_with(action), Ok(None));
    }
    let o = options();
    let (_, action) = initialize_rollback_state(&o, &CapabilitySet::new(), false, vec![], PID);
    assert_eq!(stopped_with(action), Ok(None));
}

#[test]
fn setup_ends_with_the_error_of_a_failed_step() {
    let mut o = options();
    o.skip_dirs = strings(&["skipped"]);
    o.destination = Some(path("/dest"));
    let failed = || SetupReply::Failed(error("no"));
    let start = || initialize_rollback_state(&o, &some_caps(), false, vec![], PID).0;

    // trouble with the limits does not stop the setup
    let (run, action) = start().advance(failed());
    created(action);
    let (_, action) = run.advance(failed());
    assert_eq!(stopped_with(action), Err(error("no")));

    let (run, _) = start().advance(SetupReply::Done);
    let (run, _) = run.advance(SetupReply::Done);
    let (_, action) = run.advance(failed());
    assert_eq!(stopped_with(action), Err(error("no")));

    let (run, _) = up_to_report(&o, true).0.advance(SetupReply::Report(report(true, &["target"])));
    let (_, action) = run.advance(failed());
    assert_eq!(stopped_with(action), Err(error("no")));

    let (run, dir) = up_to_report(&o, true);
    let (run, action) = run.advance(SetupReply::Report(report(false, &[])));
    assert_eq!(action, baseline(&dir));
    let (_, action) = run.advance(failed());
    assert_eq!(stopped_with(action), Err(error("no")));
}

#[test]
fn sessions_are_set_up_below_the_rollback_root_by_default() {
    let o = options();
    let (run, _) = initialize_rollback_state(&o, &some_caps(), true, vec![], PID);
    let (run, action) = run.advance(SetupReply::Done);
    match nono_sessions::session::rollback_root() {
        Err(e) => assert_eq!(stopped_with(action), Err(e)),
        Ok(root) => match (run.phase, action) {
            (
                SetupPhase::CreatingSession { session, .. },
                SetupAction::CreateSession { session_dir },
            ) => {
                assert_eq!(session_dir, root.join(&session.session_id));
                assert_eq!(session.session_dir, session_dir);
            }
            other => panic!("unexpected: {other:?}"),
        },
    }
}

#[test]
fn setup_goes_on_with_the_session_that_was_placed() {
    let setup = || plan_rollback(&options(), &some_caps(), vec![]).unwrap();
    let (phase, action) = on_session_placed(setup(), Err(NonoError::HomeNotFound));
    assert_eq!(phase, SetupPhase::Finished);
    assert_eq!(stopped_with(action), Err(NonoError::HomeNotFound));
    let placed = Ok(("id-1".to_string(), path("/r/id-1")));
    let (phase, action) = on_session_placed(setup(), placed);
    assert_eq!(
        phase,
        SetupPhase::CreatingSession {
            setup: setup(),
            session: NewSession {
                session_id: "id-1".to_string(),
                session_dir: path("/r/id-1"),
            },
        }
    );
    assert_eq!(
        action,
        SetupAction::CreateSession {
            session_dir: path("/r/id-1")
        }
    );
}
