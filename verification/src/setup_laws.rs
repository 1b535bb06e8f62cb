//! What setting up rollback comes to, field by field.

use crate::audit::{is_audit_only_state, AuditState};
use crate::capabilities::{granted_paths, AccessMode, CapabilitySet, CapabilitySource};
use crate::errors::{is_not_found, is_snapshot_error, NonoError};
use crate::exclusions::{texts, ExclusionConfig};
use crate::exit_laws::{directories_are_collected_one_by_one, paths_are_viewed_one_by_one};
use crate::paths::{path_join, paths_view, FsPath};
use crate::rollback::{is_fresh_session, RollbackLaunchOptions, RollbackRuntimeState};
use crate::session::{root_path, SessionKind};
use crate::session_id::{is_timestamp, pid_of, session_id_text};
use crate::setup::{
    auto_excluded, creation_is_next, first_patterns, heavy_names, is_filter_for, is_placed,
    is_placement, is_setup_for, not_included, rollback_active, setup_follows, starts_setup,
    HeavyDir, NewSession, PreflightReport, RollbackSetup, SetupAction, SetupPhase, SetupReply,
    SetupRun,
};
use crate::text::{decimal, text_before};
use vstd::prelude::*;
use vstd::utf8::*;

verus! {

// ---- whether there is anything to set up ----
proof fn some_directory_for_writing(caps: Seq<crate::capabilities::FsCapability>)
    ensures
        granted_paths(caps, true).len() > 0 <==> exists|i: int|
            0 <= i < caps.len() && !(#[trigger] caps[i]).is_file && caps[i].source
                == CapabilitySource::User && (caps[i].access == AccessMode::Write || caps[i].access
                == AccessMode::ReadWrite),
    decreases caps.len(),
{
    if caps.len() == 0 {
        assert(caps =~= Seq::empty());
        directories_are_collected_one_by_one(caps, arbitrary(), true);
    } else {
        let front = caps.drop_last();
        some_directory_for_writing(front);
        directories_are_collected_one_by_one(front, caps.last(), true);
        assert(caps =~= front.push(caps.last()));
        let last = caps[caps.len() - 1];
        if granted_paths(front, true).len() > 0 {
            let i = choose|i: int|
                0 <= i < front.len() && !(#[trigger] front[i]).is_file && front[i].source
                    == CapabilitySource::User && (front[i].access == AccessMode::Write
                    || front[i].access == AccessMode::ReadWrite);
            assert(caps[i] == front[i]);
        }
        if exists|i: int|
            0 <= i < caps.len() && !(#[trigger] caps[i]).is_file && caps[i].source
                == CapabilitySource::User && (caps[i].access == AccessMode::Write || caps[i].access
                == AccessMode::ReadWrite) {
            let i = choose|i: int|
                0 <= i < caps.len() && !(#[trigger] caps[i]).is_file && caps[i].source
                    == CapabilitySource::User && (caps[i].access == AccessMode::Write
                    || caps[i].access == AccessMode::ReadWrite);
            if i < front.len() {
                assert(front[i] == caps[i]);
            }
        }
    }
}

/// Rollback is active exactly if it was asked for, was not switched off, and the
/// user granted some directory for writing.
pub proof fn rollback_is_active_where_asked_for(
    options: RollbackLaunchOptions,
    caps: CapabilitySet,
)
    ensures
        rollback_active(options, caps) <==> options.requested && !options.disabled && exists|i: int|
            0 <= i < caps.fs@.len() && !(#[trigger] caps.fs@[i]).is_file && caps.fs@[i].source
                == CapabilitySource::User && (caps.fs@[i].access == AccessMode::Write
                || caps.fs@[i].access == AccessMode::ReadWrite),
{
    some_directory_for_writing(caps.fs@);
}

/// A setup starts by enforcing the limits if rollback is active, and else ends
/// at once with nothing.
pub proof fn setups_start_with_the_limits(
    run: SetupRun<'_>,
    action: SetupAction,
    caps: CapabilitySet,
    base_exclusions: Seq<Seq<char>>,
)
    requires
        starts_setup(run, action, caps, base_exclusions),
    ensures
        rollback_active(*run.rollback, caps) ==> action == SetupAction::EnforceLimits
            && run.phase is EnforcingLimits,
        !rollback_active(*run.rollback, caps) ==> run.phase == SetupPhase::Finished && (
        action matches SetupAction::Stop { outcome } && outcome == Ok::<
            Option<RollbackRuntimeState>,
            NonoError,
        >(None)),
{
}

// ---- what is tracked and left out ----
/// The texts of some strings are viewed one by one.
pub proof fn strings_are_viewed_one_by_one(strings: Seq<String>)
    ensures
        texts(strings).len() == strings.len(),
        forall|i: int| 0 <= i < strings.len() ==> #[trigger] texts(strings)[i] == strings[i]@,
{
}

/// A filter follows ignore files, leaves out exactly the patterns that it is
/// for, each once and in ascending order, and leaves out and takes in what the
/// user named besides.
pub proof fn filters_leave_out_what_they_are_for(
    config: ExclusionConfig,
    options: RollbackLaunchOptions,
    patterns: Seq<Seq<char>>,
)
    requires
        is_filter_for(config, options, patterns),
    ensures
        config.use_gitignore,
        config.exclude_globs@ == options.exclude_globs@,
        config.force_include@ == options.force_include@,
        forall|i: int, j: int|
            0 <= i < j < config.exclude_patterns@.len() ==> text_before(
                (#[trigger] config.exclude_patterns@[i])@,
                (#[trigger] config.exclude_patterns@[j])@,
            ),
        forall|i: int|
            0 <= i < config.exclude_patterns@.len() ==> patterns.contains(
                (#[trigger] config.exclude_patterns@[i])@,
            ),
        forall|name: Seq<char>| #[trigger]
            patterns.contains(name) ==> exists|i: int|
                0 <= i < config.exclude_patterns@.len() && (#[trigger] config.exclude_patterns@[i])@
                    == name,
{
    let own = texts(config.exclude_patterns@);
    strings_are_viewed_one_by_one(config.exclude_patterns@);
    assert forall|i: int, j: int|
        0 <= i < j < config.exclude_patterns@.len() implies text_before(
        (#[trigger] config.exclude_patterns@[i])@,
        (#[trigger] config.exclude_patterns@[j])@,
    ) by {
        assert(text_before(own[i], own[j]));
    }
    assert forall|i: int| 0 <= i < config.exclude_patterns@.len() implies patterns.contains(
        (#[trigger] config.exclude_patterns@[i])@,
    ) by {
        assert(own[i] == config.exclude_patterns@[i]@);
        assert(own.contains(own[i]));
    }
    assert forall|name: Seq<char>| #[trigger] patterns.contains(name) implies exists|i: int|
        0 <= i < config.exclude_patterns@.len() && (#[trigger] config.exclude_patterns@[i])@
            == name by {
        assert(own.contains(name));
        let i = choose|i: int| 0 <= i < own.len() && own[i] == name;
        assert(config.exclude_patterns@[i]@ == name);
    }
}

/// A setup tracks the directories that the user granted for writing, one by one
/// and in their order. To begin with it leaves out what the user named, and
/// beside that the data of version control systems if everything is tracked, and
/// the defaults if not. Heavy directories are looked for unless everything is
/// tracked.
pub proof fn setups_track_and_leave_out_what_was_asked(
    setup: RollbackSetup,
    options: RollbackLaunchOptions,
    caps: CapabilitySet,
    base_exclusions: Seq<Seq<char>>,
    name: Seq<char>,
)
    requires
        is_setup_for(setup, options, caps, base_exclusions),
    ensures
        setup.tracked_paths@.len() == granted_paths(caps.fs@, true).len(),
        forall|i: int|
            0 <= i < setup.tracked_paths@.len() ==> (#[trigger] setup.tracked_paths@[i])@
                == granted_paths(caps.fs@, true)[i],
        setup.gitignore_root@ == granted_paths(caps.fs@, true)[0],
        setup.run_preflight <==> !options.track_all,
        setup.filter.use_gitignore,
        setup.filter.exclude_globs@ == options.exclude_globs@,
        setup.filter.force_include@ == options.force_include@,
        (exists|i: int|
            0 <= i < setup.filter.exclude_patterns@.len() && (
            #[trigger] setup.filter.exclude_patterns@[i])@ == name) <==> {
            ||| exists|i: int|
                0 <= i < options.exclude_patterns@.len() && (#[trigger] options.exclude_patterns@[i])@
                    == name
            ||| options.track_all && (name == ".git"@ || name == ".hg"@ || name == ".svn"@)
            ||| !options.track_all && base_exclusions.contains(name)
        },
{
    paths_are_viewed_one_by_one(setup.tracked_paths@);
    assert forall|i: int| 0 <= i < setup.tracked_paths@.len() implies (
    #[trigger] setup.tracked_paths@[i])@ == granted_paths(caps.fs@, true)[i] by {
        assert(paths_view(setup.tracked_paths@)[i] == setup.tracked_paths@[i]@);
    }
    let given = first_patterns(options, base_exclusions);
    let own = texts(options.exclude_patterns@);
    let head = if options.track_all {
        seq![".git"@, ".hg"@, ".svn"@]
    } else {
        base_exclusions
    };
    assert(given == head + own);
    strings_are_viewed_one_by_one(options.exclude_patterns@);
    strings_are_viewed_one_by_one(setup.filter.exclude_patterns@);
    let kept = texts(setup.filter.exclude_patterns@);
    assert(kept.contains(name) <==> given.contains(name));
    assert(given.contains(name) <==> head.contains(name) || own.contains(name)) by {
        if head.contains(name) {
            let i = choose|i: int| 0 <= i < head.len() && head[i] == name;
            assert(given[i] == name);
        }
        if own.contains(name) {
            let i = choose|i: int| 0 <= i < own.len() && own[i] == name;
            assert(given[head.len() + i] == name);
        }
        if given.contains(name) {
            let i = choose|i: int| 0 <= i < given.len() && given[i] == name;
            if i < head.len() {
                assert(head[i] == name);
            } else {
                assert(own[i - head.len()] == name);
            }
        }
    }
    if options.track_all {
        assert(head[0] == ".git"@ && head[1] == ".hg"@ && head[2] == ".svn"@);
        assert(head.contains(name) <==> name == ".git"@ || name == ".hg"@ || name == ".svn"@) by {
            assert(head.contains(head[0]) && head.contains(head[1]) && head.contains(head[2]));
        }
    }
    if own.contains(name) {
        let i = choose|i: int| 0 <= i < own.len() && own[i] == name;
        assert(options.exclude_patterns@[i]@ == name);
    }
    if exists|i: int|
        0 <= i < options.exclude_patterns@.len() && (#[trigger] options.exclude_patterns@[i])@
            == name {
        let i = choose|i: int|
            0 <= i < options.exclude_patterns@.len() && (#[trigger] options.exclude_patterns@[i])@
                == name;
        assert(own[i] == name);
    }
    if kept.contains(name) {
        let i = choose|i: int| 0 <= i < kept.len() && kept[i] == name;
        assert(setup.filter.exclude_patterns@[i]@ == name);
    }
    if exists|i: int|
        0 <= i < setup.filter.exclude_patterns@.len() && (
        #[trigger] setup.filter.exclude_patterns@[i])@ == name {
        let i = choose|i: int|
            0 <= i < setup.filter.exclude_patterns@.len() && (
            #[trigger] setup.filter.exclude_patterns@[i])@ == name;
        assert(kept[i] == name);
    }
}

/// Heavy directories are left out one by one: one that the user did not ask to
/// take in, by its name, and no other.
pub proof fn heavy_directories_are_left_out_one_by_one(
    heavy_dirs: Seq<HeavyDir>,
    dir: HeavyDir,
    force_include: Seq<Seq<char>>,
)
    ensures
        auto_excluded(Seq::empty(), force_include).len() == 0,
        heavy_names(Seq::empty()).len() == 0,
        auto_excluded(heavy_dirs.push(dir), force_include) == if force_include.contains(
            dir.name@,
        ) {
            auto_excluded(heavy_dirs, force_include)
        } else {
            auto_excluded(heavy_dirs, force_include).push(dir)
        },
        heavy_names(heavy_dirs.push(dir)) == heavy_names(heavy_dirs).push(dir.name@),
{
    reveal(Seq::filter);
    heavy_dirs.lemma_filter_push(dir, not_included(force_include));
    assert(heavy_names(heavy_dirs.push(dir)) =~= heavy_names(heavy_dirs).push(dir.name@));
}

// ---- where a session lives ----
/// A fresh session is named by a moment and its process, and its directory by
/// its name.
pub proof fn fresh_sessions_are_named_by_moment_and_process(
    id: Seq<char>,
    dir: Seq<u8>,
    root: Seq<u8>,
    pid: u32,
)
    requires
        is_fresh_session(id, dir, root, pid),
    ensures
        exists|t: Seq<char>| #[trigger]
            is_timestamp(t) && id == t + "-"@ + decimal(pid as nat),
        pid_of(id) == Some(pid),
        dir == path_join(root, encode_utf8(id)),
{
    let t = choose|t: Seq<char>| is_timestamp(t) && id == #[trigger] session_id_text(t, pid);
    assert(is_timestamp(t));
}

/// A session is placed below the destination if there is one, and else below the
/// rollback root of some home directory; only without a destination may it have
/// no place, because no home directory is known.
pub proof fn sessions_are_placed_below_destination_or_home(
    placed: Result<(String, FsPath), NonoError>,
    options: RollbackLaunchOptions,
    pid: u32,
)
    requires
        is_placement(placed, options, pid),
    ensures
        match placed {
            Err(e) => options.destination is None && e == NonoError::HomeNotFound,
            Ok((id, dir)) => {
                &&& pid_of(id@) == Some(pid)
                &&& options.destination matches Some(root) ==> dir@ == path_join(
                    root@,
                    encode_utf8(id@),
                )
                &&& options.destination is None ==> exists|home: Seq<u8>|
                    dir@ == path_join(
                        #[trigger] root_path(home, SessionKind::Rollback),
                        encode_utf8(id@),
                    )
            },
        },
{
    if let Ok((id, dir)) = placed {
        if options.destination is None {
            let home = choose|home: Seq<u8>|
                home.len() > 0 && is_fresh_session(
                    id@,
                    dir@,
                    #[trigger] crate::session::rollback_root_path(home),
                    pid,
                );
            assert(root_path(home, SessionKind::Rollback) == crate::session::rollback_root_path(
                home,
            ));
        }
    }
}

/// An audit-only state is a fresh session below the audit root, with a directory
/// of its own and every directory that the user granted.
pub proof fn audit_only_states_are_fresh(state: AuditState, caps: CapabilitySet, pid: u32)
    requires
        is_audit_only_state(state, caps, pid),
    ensures
        pid_of(state.session_id@) == Some(pid),
        exists|home: Seq<u8>|
            state.session_dir@ == path_join(
                #[trigger] root_path(home, SessionKind::AuditOnly),
                encode_utf8(state.session_id@),
            ),
        state.tracked_paths@.len() == granted_paths(caps.fs@, false).len(),
        forall|i: int|
            0 <= i < state.tracked_paths@.len() ==> (#[trigger] state.tracked_paths@[i])@
                == granted_paths(caps.fs@, false)[i],
        state.owns_dir,
{
    let home = choose|home: Seq<u8>|
        home.len() > 0 && is_fresh_session(
            state.session_id@,
            state.session_dir@,
            #[trigger] crate::session::audit_root_path(home),
            pid,
        );
    assert(root_path(home, SessionKind::AuditOnly) == crate::session::audit_root_path(home));
    let own = state.tracked_paths@;
    paths_are_viewed_one_by_one(own);
    assert forall|i: int| 0 <= i < own.len() implies (#[trigger] own[i])@ == granted_paths(
        caps.fs@,
        false,
    )[i] by {
        assert(paths_view(own)[i] == own[i]@);
    }
}

// ---- step by step ----
/// After the limits the session is created, or there is no place for it.
pub proof fn limits_are_followed_by_the_session(
    run: SetupRun<'_>,
    reply: SetupReply,
    phase: SetupPhase,
    action: SetupAction,
)
    requires
        setup_follows(run, reply, phase, action),
        run.phase is EnforcingLimits,
    ensures
        match action {
            SetupAction::CreateSession { session_dir } => {
                &&& phase matches SetupPhase::CreatingSession { setup, session }
                &&& setup == run.phase->EnforcingLimits_setup
                &&& session.session_dir@ == session_dir@
                &&& is_placed(session.session_id@, session_dir@, *run.rollback, run.pid)
            },
            SetupAction::Stop { outcome } => {
                &&& outcome matches Err(e)
                &&& e == NonoError::HomeNotFound
                &&& run.rollback.destination is None
                &&& phase == SetupPhase::Finished
            },
            _ => false,
        },
{
    let setup = run.phase->EnforcingLimits_setup;
    let placed = choose|placed: Result<(String, FsPath), NonoError>|
        is_placement(placed, *run.rollback, run.pid) && #[trigger] creation_is_next(
            phase,
            action,
            setup,
            placed,
        );
    assert(is_placement(placed, *run.rollback, run.pid));
}

/// After the session the filter is built; after the filter heavy directories are
/// looked for, unless everything is tracked; after that the first snapshot is
/// taken, and in the end it is shown what is tracked. A failure on the way ends
/// the setup with its error.
pub proof fn setups_go_step_by_step(
    run: SetupRun<'_>,
    reply: SetupReply,
    phase: SetupPhase,
    action: SetupAction,
)
    requires
        setup_follows(run, reply, phase, action),
    ensures
        match (run.phase, reply) {
            (SetupPhase::CreatingSession { setup, session }, SetupReply::Done) => {
                &&& phase == SetupPhase::BuildingFilter { setup, session }
                &&& action matches SetupAction::BuildFilter { config, gitignore_root }
                &&& config.use_gitignore == setup.filter.use_gitignore
                &&& config.exclude_patterns@ == setup.filter.exclude_patterns@
                &&& config.exclude_globs@ == setup.filter.exclude_globs@
                &&& config.force_include@ == setup.filter.force_include@
                &&& gitignore_root@ == setup.gitignore_root@
            },
            (SetupPhase::BuildingFilter { setup, session }, SetupReply::Done) => {
                if setup.run_preflight {
                    &&& phase == SetupPhase::FindingHeavyDirs { setup, session }
                    &&& action matches SetupAction::FindHeavyDirs { tracked_paths, skip_dirs }
                    &&& paths_view(tracked_paths@) == paths_view(setup.tracked_paths@)
                    &&& skip_dirs@ == run.rollback.skip_dirs@
                } else {
                    takes_first_snapshot(phase, action, setup, session)
                }
            },
            (SetupPhase::RefiningFilter { setup, session, heavy }, SetupReply::Done) => {
                if run.silent {
                    takes_first_snapshot(phase, action, setup, session)
                } else {
                    &&& phase == SetupPhase::Announcing { setup, session }
                    &&& action matches SetupAction::Announce { heavy: told }
                    &&& told@ == heavy@
                }
            },
            (SetupPhase::Announcing { setup, session }, _) => takes_first_snapshot(
                phase,
                action,
                setup,
                session,
            ),
            (SetupPhase::TakingBaseline { setup, session }, SetupReply::Done) => {
                &&& phase == SetupPhase::ShowingTracking { setup, session }
                &&& action matches SetupAction::ShowTracking { tracked_paths, silent }
                &&& paths_view(tracked_paths@) == paths_view(setup.tracked_paths@)
                &&& silent == run.silent
            },
            (SetupPhase::ShowingTracking { setup, session }, _) => {
                &&& phase == SetupPhase::Finished
                &&& action matches SetupAction::Stop { outcome }
                &&& outcome matches Ok(Some(state))
                &&& state.session_id@ == session.session_id@
                &&& state.session_dir@ == session.session_dir@
                &&& state.tracked_paths@ == setup.tracked_paths@
            },
            _ => true,
        },
        reply matches SetupReply::Failed(e) ==> match run.phase {
            SetupPhase::CreatingSession { .. }
            | SetupPhase::BuildingFilter { .. }
            | SetupPhase::FindingHeavyDirs { .. }
            | SetupPhase::RefiningFilter { .. }
            | SetupPhase::TakingBaseline { .. } => {
                &&& phase == SetupPhase::Finished
                &&& action matches SetupAction::Stop { outcome }
                &&& outcome == Err::<Option<RollbackRuntimeState>, NonoError>(e)
            },
            _ => true,
        },
{
}

/// Whether the first snapshot is next, into the directory of the session and of
/// what is tracked.
pub open spec fn takes_first_snapshot(
    phase: SetupPhase,
    action: SetupAction,
    setup: RollbackSetup,
    session: NewSession,
) -> bool {
    &&& phase == SetupPhase::TakingBaseline { setup, session }
    &&& action matches SetupAction::TakeBaseline { session_dir, tracked_paths }
    &&& session_dir@ == session.session_dir@
    &&& paths_view(tracked_paths@) == paths_view(setup.tracked_paths@)
}

/// Heavy directories that deserve a warning, and that the user did not all ask
/// to take in, are left out of the snapshots too: the new filter leaves out what
/// the first one does and those directories, by their names, and nothing else.
/// In every other case the first snapshot is taken with the first filter.
pub proof fn heavy_directories_refine_the_filter(
    run: SetupRun<'_>,
    report: PreflightReport,
    phase: SetupPhase,
    action: SetupAction,
)
    requires
        setup_follows(run, SetupReply::Report(report), phase, action),
        run.phase is FindingHeavyDirs,
        run.phase->FindingHeavyDirs_setup.run_preflight,
    ensures
        ({
            let setup = run.phase->FindingHeavyDirs_setup;
            let session = run.phase->FindingHeavyDirs_session;
            let heavy = auto_excluded(report.heavy_dirs@, texts(run.rollback.force_include@));
            if report.needs_warning && heavy.len() > 0 {
                &&& phase matches SetupPhase::RefiningFilter {
                    setup: kept,
                    session: same,
                    heavy: left_out,
                }
                &&& kept == setup && same == session && left_out@ == heavy
                &&& action matches SetupAction::BuildFilter { config, gitignore_root }
                &&& config.use_gitignore
                &&& config.exclude_globs@ == run.rollback.exclude_globs@
                &&& config.force_include@ == run.rollback.force_include@
                &&& gitignore_root@ == setup.gitignore_root@
                &&& forall|i: int, j: int|
                    0 <= i < j < config.exclude_patterns@.len() ==> text_before(
                        (#[trigger] config.exclude_patterns@[i])@,
                        (#[trigger] config.exclude_patterns@[j])@,
                    )
                &&& forall|name: Seq<char>| #[trigger]
                    texts(config.exclude_patterns@).contains(name) <==> texts(
                        setup.filter.exclude_patterns@,
                    ).contains(name) || heavy_names(heavy).contains(name)
            } else {
                takes_first_snapshot(phase, action, setup, session)
            }
        }),
{
    let setup = run.phase->FindingHeavyDirs_setup;
    let heavy = auto_excluded(report.heavy_dirs@, texts(run.rollback.force_include@));
    if report.needs_warning && heavy.len() > 0 {
        let config = action->BuildFilter_config;
        let first = texts(setup.filter.exclude_patterns@);
        let names = heavy_names(heavy);
        filters_leave_out_what_they_are_for(config, *run.rollback, first + names);
        assert forall|name: Seq<char>| #[trigger]
            texts(config.exclude_patterns@).contains(name) <==> first.contains(name)
                || names.contains(name) by {
            assert(texts(config.exclude_patterns@).contains(name) <==> (first + names).contains(
                name,
            ));
            if first.contains(name) {
                let i = choose|i: int| 0 <= i < first.len() && first[i] == name;
                assert((first + names)[i] == name);
            }
            if names.contains(name) {
                let i = choose|i: int| 0 <= i < names.len() && names[i] == name;
                assert((first + names)[first.len() + i] == name);
            }
            if (first + names).contains(name) {
                let i = choose|i: int|
                    0 <= i < (first + names).len() && (first + names)[i] == name;
                if i < first.len() {
                    assert(first[i] == name);
                } else {
                    assert(names[i - first.len()] == name);
                }
            }
        }
    }
}

/// An error that is said to be of a sort is of that sort and says the words.
pub proof fn errors_are_of_the_sort_they_are_said_to_be(e: NonoError, message: Seq<char>)
    ensures
        is_snapshot_error(e, message) <==> (e matches NonoError::Snapshot(text) && text@
            == message),
        is_not_found(e, message) <==> (e matches NonoError::SessionNotFound(text) && text@
            == message),
{
}

} // verus!
