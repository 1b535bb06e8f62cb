//! Setting up rollback for a supervised command: what is tracked, what the
//! snapshots leave out, and the steps until the first snapshot is taken.

use crate::capabilities::{granted_paths, writable_tracked_paths, CapabilitySet};
use crate::errors::NonoError;
use crate::evidence::{clock_gave, home_lookup_gave};
use crate::exclusions::{
    copy_strings, is_among, is_sorted_set, rollback_vcs_exclusions, sorted_patterns, texts,
    ExclusionConfig,
};
use crate::loading::session_dir_path;
use crate::paths::{copy_paths, paths_view, FsPath};
use crate::rollback::{
    ensure_rollback_session_dir, is_fresh_session, RollbackLaunchOptions, RollbackRuntimeState,
};
use crate::session::rollback_root_path;
use crate::session_id::session_id_text;
use vstd::prelude::*;

verus! {

// ---- what is tracked and left out ----
/// What was decided about a rollback session before anything is touched.
#[derive(Debug, PartialEq, Eq)]
pub struct RollbackSetup {
    /// The directories that snapshots are taken of.
    pub tracked_paths: Vec<FsPath>,
    /// What the snapshots leave out, unless heavy directories are found.
    pub filter: ExclusionConfig,
    /// The directory whose ignore files are followed.
    pub gitignore_root: FsPath,
    /// Whether to look for heavy directories.
    pub run_preflight: bool,
}

/// A directory that would make snapshots slow.
#[derive(Debug, PartialEq, Eq)]
pub struct HeavyDir {
    /// The name of the directory.
    pub name: String,
    /// How many files were counted in it.
    pub file_count: u64,
}

/// What the look for heavy directories gave.
#[derive(Debug, PartialEq, Eq)]
pub struct PreflightReport {
    /// Whether what was found is worth a warning.
    pub needs_warning: bool,
    /// The heavy directories.
    pub heavy_dirs: Vec<HeavyDir>,
}

/// What the snapshots leave out once heavy directories were found.
#[derive(Debug, PartialEq, Eq)]
pub struct RefinedFilter {
    /// What the snapshots leave out.
    pub filter: ExclusionConfig,
    /// The heavy directories that are left out.
    pub auto_excluded: Vec<HeavyDir>,
}

/// Whether rollback is active: it was asked for, was not switched off, and the
/// user granted a directory for writing.
pub open spec fn rollback_active(options: RollbackLaunchOptions, caps: CapabilitySet) -> bool {
    &&& options.requested
    &&& !options.disabled
    &&& granted_paths(caps.fs@, true).len() > 0
}

/// The names that are left out to begin with: the data of version control
/// systems, or the defaults, and what the user added.
pub open spec fn first_patterns(
    options: RollbackLaunchOptions,
    base_exclusions: Seq<Seq<char>>,
) -> Seq<Seq<char>> {
    (if options.track_all {
        seq![".git"@, ".hg"@, ".svn"@]
    } else {
        base_exclusions
    }) + texts(options.exclude_patterns@)
}

/// Whether `config` follows ignore files, leaves out `patterns`, each once and
/// in order, and otherwise does what the user asked.
pub open spec fn is_filter_for(
    config: ExclusionConfig,
    options: RollbackLaunchOptions,
    patterns: Seq<Seq<char>>,
) -> bool {
    &&& config.use_gitignore
    &&& is_sorted_set(texts(config.exclude_patterns@), patterns)
    &&& config.exclude_globs@ == options.exclude_globs@
    &&& config.force_include@ == options.force_include@
}

/// Whether `setup` tracks the directories that the user granted for writing,
/// follows the ignore files of the first of them, leaves out what is left out
/// to begin with, and looks for heavy directories unless everything is tracked.
pub open spec fn is_setup_for(
    setup: RollbackSetup,
    options: RollbackLaunchOptions,
    caps: CapabilitySet,
    base_exclusions: Seq<Seq<char>>,
) -> bool {
    &&& paths_view(setup.tracked_paths@) == granted_paths(caps.fs@, true)
    &&& is_filter_for(setup.filter, options, first_patterns(options, base_exclusions))
    &&& setup.gitignore_root@ == granted_paths(caps.fs@, true)[0]
    &&& setup.run_preflight == !options.track_all
}

/// Decides about rollback for a command with the capabilities `caps`. There is
/// nothing to set up where rollback is not active.
///
/// `base_exclusions` are the names that are left out by default.
pub fn plan_rollback(
    rollback: &RollbackLaunchOptions,
    caps: &CapabilitySet,
    base_exclusions: Vec<String>,
) -> (r: Option<RollbackSetup>)
    ensures
        r is Some <==> rollback_active(*rollback, *caps),
        r matches Some(setup) ==> is_setup_for(setup, *rollback, *caps, texts(base_exclusions@)),
{
    if !rollback.requested || rollback.disabled {
        return None;
    }
    let tracked_paths = writable_tracked_paths(caps);
    assert(tracked_paths@.len() == paths_view(tracked_paths@).len());
    if tracked_paths.is_empty() {
        return None;
    }
    let patterns = if rollback.track_all {
        rollback_vcs_exclusions()
    } else {
        base_exclusions
    };
    let exclude_patterns = sorted_patterns(patterns, &rollback.exclude_patterns);
    let filter = ExclusionConfig {
        use_gitignore: true,
        exclude_patterns,
        exclude_globs: copy_strings(&rollback.exclude_globs),
        force_include: copy_strings(&rollback.force_include),
    };
    let gitignore_root = tracked_paths[0].clone();
    assert(paths_view(tracked_paths@)[0] == tracked_paths@[0]@);
    Some(RollbackSetup { tracked_paths, filter, gitignore_root, run_preflight: !rollback.track_all })
}

/// The test for a heavy directory that the user did not ask to take in.
pub open spec fn not_included(force_include: Seq<Seq<char>>) -> spec_fn(HeavyDir) -> bool {
    |dir: HeavyDir| !force_include.contains(dir.name@)
}

/// The heavy directories that the user did not ask to take in.
pub open spec fn auto_excluded(heavy_dirs: Seq<HeavyDir>, force_include: Seq<Seq<char>>) -> Seq<
    HeavyDir,
> {
    heavy_dirs.filter(not_included(force_include))
}

/// The names of some heavy directories.
pub open spec fn heavy_names(dirs: Seq<HeavyDir>) -> Seq<Seq<char>> {
    dirs.map_values(|dir: HeavyDir| dir.name@)
}

fn select_heavy(heavy_dirs: Vec<HeavyDir>, force_include: &Vec<String>) -> (r: Vec<HeavyDir>)
    ensures
        r@ == auto_excluded(heavy_dirs@, texts(force_include@)),
{
    let mut kept: Vec<HeavyDir> = Vec::new();
    let ghost all = heavy_dirs@;
    let ghost test = not_included(texts(force_include@));
    proof {
        reveal(Seq::filter);
        assert(all.take(0) =~= Seq::<HeavyDir>::empty());
    }
    for dir in it: heavy_dirs
        invariant
            it.seq() == all,
            test == not_included(texts(force_include@)),
            kept@ == all.take(it.index()).filter(test),
    {
        proof {
            let done = all.take(it.index());
            done.lemma_filter_push(dir, test);
            assert(all.take(it.index() + 1) =~= done.push(dir));
        }
        if !is_among(&dir.name, force_include) {
            kept.push(dir);
        }
    }
    assert(all.take(all.len() as int) =~= all);
    kept
}

fn names_of(dirs: &Vec<HeavyDir>) -> (r: Vec<String>)
    ensures
        texts(r@) == heavy_names(dirs@),
{
    let mut names: Vec<String> = Vec::new();
    let mut i: usize = 0;
    while i < dirs.len()
        invariant
            i <= dirs@.len(),
            names@.len() == i,
            forall|k: int| 0 <= k < i ==> (#[trigger] names@[k])@ == dirs@[k].name@,
        decreases dirs@.len() - i,
    {
        names.push(dirs[i].name.clone());
        i = i + 1;
    }
    assert(texts(names@) =~= heavy_names(dirs@));
    names
}

impl RollbackSetup {
    /// Decides what heavy directories change: where a warning is due and any of
    /// them was not taken in by the user, those are left out too.
    pub fn after_preflight(
        &self,
        rollback: &RollbackLaunchOptions,
        report: PreflightReport,
    ) -> (r: Option<RefinedFilter>)
        ensures
            ({
                let heavy = auto_excluded(report.heavy_dirs@, texts(rollback.force_include@));
                &&& r is Some <==> self.run_preflight && report.needs_warning && heavy.len() > 0
                &&& r matches Some(refined) ==> {
                    &&& refined.auto_excluded@ == heavy
                    &&& is_filter_for(
                        refined.filter,
                        *rollback,
                        texts(self.filter.exclude_patterns@) + heavy_names(heavy),
                    )
                }
            }),
    {
        if !self.run_preflight || !report.needs_warning {
            return None;
        }
        let auto_excluded = select_heavy(report.heavy_dirs, &rollback.force_include);
        if auto_excluded.is_empty() {
            return None;
        }
        let names = names_of(&auto_excluded);
        let exclude_patterns = sorted_patterns(copy_strings(&self.filter.exclude_patterns), &names);
        let filter = ExclusionConfig {
            use_gitignore: true,
            exclude_patterns,
            exclude_globs: copy_strings(&rollback.exclude_globs),
            force_include: copy_strings(&rollback.force_include),
        };
        Some(RefinedFilter { filter, auto_excluded })
    }

    /// The session, once its directory was created.
    pub fn into_state(self, session_id: String, session_dir: FsPath) -> (r: RollbackRuntimeState)
        ensures
            r == (RollbackRuntimeState {
                tracked_paths: self.tracked_paths,
                session_id,
                session_dir,
            }),
    {
        RollbackRuntimeState { tracked_paths: self.tracked_paths, session_id, session_dir }
    }
}

// ---- setting up, step by step ----
/// A session with the directory that is created for it.
#[derive(Debug, PartialEq, Eq)]
pub struct NewSession {
    /// The session ID.
    pub session_id: String,
    /// The session directory.
    pub session_dir: FsPath,
}

/// How far the setup has come.
#[derive(Debug, PartialEq, Eq)]
pub enum SetupPhase {
    /// The limits on rollback sessions are being enforced.
    EnforcingLimits { setup: RollbackSetup },
    /// The session directory is being created.
    CreatingSession { setup: RollbackSetup, session: NewSession },
    /// The first filter is being built.
    BuildingFilter { setup: RollbackSetup, session: NewSession },
    /// Heavy directories are being looked for.
    FindingHeavyDirs { setup: RollbackSetup, session: NewSession },
    /// The filter that leaves out the heavy directories `heavy` is being built.
    RefiningFilter { setup: RollbackSetup, session: NewSession, heavy: Vec<HeavyDir> },
    /// The user is being told about heavy directories.
    Announcing { setup: RollbackSetup, session: NewSession },
    /// The first snapshot is being taken.
    TakingBaseline { setup: RollbackSetup, session: NewSession },
    /// The user is being told what is tracked.
    ShowingTracking { setup: RollbackSetup, session: NewSession },
    /// Nothing is left to do.
    Finished,
}

/// A setup of rollback under way.
#[derive(Debug, PartialEq, Eq)]
pub struct SetupRun<'a> {
    /// What the user asked for.
    pub rollback: &'a RollbackLaunchOptions,
    /// Whether nothing is to be said.
    pub silent: bool,
    /// The process that starts the session.
    pub pid: u32,
    /// How far the setup has come.
    pub phase: SetupPhase,
}

/// What the program is to do next.
#[derive(Debug, PartialEq, Eq)]
pub enum SetupAction {
    /// Enforce the limits on rollback sessions.
    EnforceLimits,
    /// Create the session directory.
    CreateSession { session_dir: FsPath },
    /// Build the filter for the snapshots, in place of any that was built.
    BuildFilter { config: ExclusionConfig, gitignore_root: FsPath },
    /// Look for heavy directories with the filter that was built.
    FindHeavyDirs { tracked_paths: Vec<FsPath>, skip_dirs: Vec<String> },
    /// Tell the user that these directories are left out.
    Announce { heavy: Vec<HeavyDir> },
    /// Take the first snapshot with the filter that was built, and note the
    /// temporary files that there are.
    TakeBaseline { session_dir: FsPath, tracked_paths: Vec<FsPath> },
    /// Show what is tracked.
    ShowTracking { tracked_paths: Vec<FsPath>, silent: bool },
    /// Stop with this result.
    Stop { outcome: Result<Option<RollbackRuntimeState>, NonoError> },
}

/// What came of an action.
#[derive(Debug, PartialEq, Eq)]
pub enum SetupReply {
    /// It was done.
    Done,
    /// What looking for heavy directories gave.
    Report(PreflightReport),
    /// It failed.
    Failed(NonoError),
}

/// Whether two configurations leave out and take in the same.
pub open spec fn same_config(a: ExclusionConfig, b: ExclusionConfig) -> bool {
    &&& a.use_gitignore == b.use_gitignore
    &&& a.exclude_patterns@ == b.exclude_patterns@
    &&& a.exclude_globs@ == b.exclude_globs@
    &&& a.force_include@ == b.force_include@
}

/// Whether a setup is over, with `outcome`.
pub open spec fn setup_ends(
    phase: SetupPhase,
    action: SetupAction,
    outcome: Result<Option<RollbackRuntimeState>, NonoError>,
) -> bool {
    phase == SetupPhase::Finished && action == SetupAction::Stop { outcome }
}

/// Whether `id` and `dir` are a fresh session of the process `pid` where the user
/// wants it: below the destination, or below the rollback root of some home
/// directory.
pub open spec fn is_placed(
    id: Seq<char>,
    dir: Seq<u8>,
    options: RollbackLaunchOptions,
    pid: u32,
) -> bool {
    match options.destination {
        Some(root) => is_fresh_session(id, dir, root@, pid),
        None => exists|home: Seq<u8>|
            home.len() > 0 && is_fresh_session(id, dir, #[trigger] rollback_root_path(home), pid),
    }
}

/// Whether creating the session that was `placed` is next; where no place was
/// found the setup is over.
pub open spec fn creation_is_next(
    phase: SetupPhase,
    action: SetupAction,
    setup: RollbackSetup,
    placed: Result<(String, FsPath), NonoError>,
) -> bool {
    match placed {
        Err(e) => setup_ends(phase, action, Err(e)),
        Ok((session_id, session_dir)) => {
            &&& phase == SetupPhase::CreatingSession {
                setup,
                session: NewSession { session_id, session_dir },
            }
            &&& action matches SetupAction::CreateSession { session_dir: dir }
            &&& dir@ == session_dir@
        },
    }
}

/// Whether `placed` is where a fresh session of the process `pid` is to live. A
/// place may be missing only where there is no destination.
pub open spec fn is_placement(
    placed: Result<(String, FsPath), NonoError>,
    options: RollbackLaunchOptions,
    pid: u32,
) -> bool {
    match placed {
        Ok((id, dir)) => is_placed(id@, dir@, options, pid),
        Err(e) => options.destination is None && e == NonoError::HomeNotFound,
    }
}

/// Whether the first snapshot is next.
pub open spec fn baseline_is_next(
    phase: SetupPhase,
    action: SetupAction,
    setup: RollbackSetup,
    session: NewSession,
) -> bool {
    &&& phase == SetupPhase::TakingBaseline { setup, session }
    &&& action matches SetupAction::TakeBaseline { session_dir, tracked_paths }
    &&& session_dir@ == session.session_dir@
    &&& paths_view(tracked_paths@) == paths_view(setup.tracked_paths@)
}

/// Whether a report makes the snapshots leave out more.
pub open spec fn refines(report: PreflightReport, options: RollbackLaunchOptions) -> bool {
    report.needs_warning && auto_excluded(
        report.heavy_dirs@,
        texts(options.force_include@),
    ).len() > 0
}

/// Whether a filter that leaves out the heavy directories of `report` is next.
pub open spec fn refinement_is_next(
    phase: SetupPhase,
    action: SetupAction,
    setup: RollbackSetup,
    session: NewSession,
    options: RollbackLaunchOptions,
    report: PreflightReport,
) -> bool {
    let left_out = auto_excluded(report.heavy_dirs@, texts(options.force_include@));
    &&& phase matches SetupPhase::RefiningFilter { setup: kept, session: created, heavy }
    &&& kept == setup && created == session && heavy@ == left_out
    &&& action matches SetupAction::BuildFilter { config, gitignore_root }
    &&& is_filter_for(
        config,
        options,
        texts(setup.filter.exclude_patterns@) + heavy_names(left_out),
    )
    &&& gitignore_root@ == setup.gitignore_root@
}

/// Whether `phase` and `action` are what follows on a reply.
///
/// The limits, the announcement and showing what is tracked are passed whatever
/// comes of them. The limits are followed by a session that lives where the user
/// wants it. Anything else that fails ends the setup with its error, and so does, without one, a
/// reply to a question that was not asked.
pub open spec fn setup_follows(
    run: SetupRun<'_>,
    reply: SetupReply,
    phase: SetupPhase,
    action: SetupAction,
) -> bool {
    match (run.phase, reply) {
        (SetupPhase::EnforcingLimits { setup }, _) => {
            exists|placed: Result<(String, FsPath), NonoError>|
                is_placement(placed, *run.rollback, run.pid) && #[trigger] creation_is_next(
                    phase,
                    action,
                    setup,
                    placed,
                )
        },
        (SetupPhase::CreatingSession { setup, session }, SetupReply::Done) => {
            &&& phase == SetupPhase::BuildingFilter { setup, session }
            &&& action matches SetupAction::BuildFilter { config, gitignore_root }
            &&& same_config(config, setup.filter)
            &&& gitignore_root@ == setup.gitignore_root@
        },
        (SetupPhase::BuildingFilter { setup, session }, SetupReply::Done) => {
            if setup.run_preflight {
                &&& phase == SetupPhase::FindingHeavyDirs { setup, session }
                &&& action matches SetupAction::FindHeavyDirs { tracked_paths, skip_dirs }
                &&& paths_view(tracked_paths@) == paths_view(setup.tracked_paths@)
                &&& skip_dirs@ == run.rollback.skip_dirs@
            } else {
                baseline_is_next(phase, action, setup, session)
            }
        },
        (SetupPhase::FindingHeavyDirs { setup, session }, SetupReply::Report(report)) => {
            if setup.run_preflight && refines(report, *run.rollback) {
                refinement_is_next(phase, action, setup, session, *run.rollback, report)
            } else {
                baseline_is_next(phase, action, setup, session)
            }
        },
        (SetupPhase::RefiningFilter { setup, session, heavy }, SetupReply::Done) => {
            if run.silent {
                baseline_is_next(phase, action, setup, session)
            } else {
                &&& phase == SetupPhase::Announcing { setup, session }
                &&& action == SetupAction::Announce { heavy }
            }
        },
        (SetupPhase::Announcing { setup, session }, _) => {
            baseline_is_next(phase, action, setup, session)
        },
        (SetupPhase::TakingBaseline { setup, session }, SetupReply::Done) => {
            &&& phase == SetupPhase::ShowingTracking { setup, session }
            &&& action matches SetupAction::ShowTracking { tracked_paths, silent }
            &&& paths_view(tracked_paths@) == paths_view(setup.tracked_paths@)
            &&& silent == run.silent
        },
        (SetupPhase::ShowingTracking { setup, session }, _) => setup_ends(
            phase,
            action,
            Ok(
                Some(
                    RollbackRuntimeState {
                        tracked_paths: setup.tracked_paths,
                        session_id: session.session_id,
                        session_dir: session.session_dir,
                    },
                ),
            ),
        ),
        (SetupPhase::Finished, _) => setup_ends(phase, action, Ok(None)),
        (_, SetupReply::Failed(e)) => setup_ends(phase, action, Err(e)),
        (_, _) => setup_ends(phase, action, Ok(None)),
    }
}

fn copy_config(config: &ExclusionConfig) -> (r: ExclusionConfig)
    ensures
        same_config(r, *config),
{
    ExclusionConfig {
        use_gitignore: config.use_gitignore,
        exclude_patterns: copy_strings(&config.exclude_patterns),
        exclude_globs: copy_strings(&config.exclude_globs),
        force_include: copy_strings(&config.force_include),
    }
}

/// Goes on with the session that was placed; where no place was found the setup
/// is over.
pub fn on_session_placed(
    setup: RollbackSetup,
    placed: Result<(String, FsPath), NonoError>,
) -> (r: (SetupPhase, SetupAction))
    ensures
        creation_is_next(r.0, r.1, setup, placed),
{
    match placed {
        Err(e) => (SetupPhase::Finished, SetupAction::Stop { outcome: Err(e) }),
        Ok((session_id, session_dir)) => {
            let action = SetupAction::CreateSession { session_dir: session_dir.clone() };
            let session = NewSession { session_id, session_dir };
            (SetupPhase::CreatingSession { setup, session }, action)
        },
    }
}

fn on_baseline(setup: RollbackSetup, session: NewSession) -> (r: (SetupPhase, SetupAction))
    ensures
        baseline_is_next(r.0, r.1, setup, session),
{
    let action = SetupAction::TakeBaseline {
        session_dir: session.session_dir.clone(),
        tracked_paths: copy_paths(&setup.tracked_paths),
    };
    (SetupPhase::TakingBaseline { setup, session }, action)
}

/// Whether `run` and `action` are the start of a setup.
pub open spec fn starts_setup(
    run: SetupRun<'_>,
    action: SetupAction,
    caps: CapabilitySet,
    base_exclusions: Seq<Seq<char>>,
) -> bool {
    if rollback_active(*run.rollback, caps) {
        &&& run.phase matches SetupPhase::EnforcingLimits { setup }
        &&& is_setup_for(setup, *run.rollback, caps, base_exclusions)
        &&& action == SetupAction::EnforceLimits
    } else {
        setup_ends(run.phase, action, Ok(None))
    }
}

/// Starts to set up rollback by the process `pid` for a command with the
/// capabilities `caps`. Where rollback is not active nothing is done at all;
/// where it is, the limits on rollback sessions are enforced first.
///
/// `base_exclusions` are the names that are left out by default.
pub fn initialize_rollback_state<'a>(
    rollback: &'a RollbackLaunchOptions,
    caps: &CapabilitySet,
    silent: bool,
    base_exclusions: Vec<String>,
    pid: u32,
) -> (r: (SetupRun<'a>, SetupAction))
    ensures
        r.0.rollback == rollback,
        r.0.silent == silent,
        r.0.pid == pid,
        starts_setup(r.0, r.1, *caps, texts(base_exclusions@)),
{
    match plan_rollback(rollback, caps, base_exclusions) {
        None => (
            SetupRun { rollback, silent, pid, phase: SetupPhase::Finished },
            SetupAction::Stop { outcome: Ok(None) },
        ),
        Some(setup) => (
            SetupRun { rollback, silent, pid, phase: SetupPhase::EnforcingLimits { setup } },
            SetupAction::EnforceLimits,
        ),
    }
}

impl<'a> SetupRun<'a> {
    /// Goes on once an action was carried out.
    pub fn advance(self, reply: SetupReply) -> (r: (SetupRun<'a>, SetupAction))
        ensures
            r.0.rollback == self.rollback,
            r.0.silent == self.silent,
            r.0.pid == self.pid,
            setup_follows(self, reply, r.0.phase, r.1),
            self.phase is EnforcingLimits ==> match r.0.phase {
                SetupPhase::CreatingSession { session, .. } => {
                    &&& exists|t: Seq<char>|
                        clock_gave(t) && session.session_id@ == #[trigger] session_id_text(
                            t,
                            self.pid,
                        )
                    &&& self.rollback.destination is None ==> exists|home: Seq<u8>|
                        home_lookup_gave(Some(home)) && session.session_dir@ == session_dir_path(
                            #[trigger] rollback_root_path(home),
                            session.session_id@,
                        )
                },
                _ => self.rollback.destination is None && home_lookup_gave(None),
            },
    {
        let rollback = self.rollback;
        let silent = self.silent;
        let pid = self.pid;
        let (phase, action) = match (self.phase, reply) {
            (SetupPhase::EnforcingLimits { setup }, _) => {
                let placed = match &rollback.destination {
                    Some(root) => ensure_rollback_session_dir(Some(root), pid),
                    None => ensure_rollback_session_dir(None, pid),
                };
                assert(is_placement(placed, *rollback, pid));
                on_session_placed(setup, placed)
            },
            (SetupPhase::CreatingSession { setup, session }, SetupReply::Done) => {
                let action = SetupAction::BuildFilter {
                    config: copy_config(&setup.filter),
                    gitignore_root: setup.gitignore_root.clone(),
                };
                (SetupPhase::BuildingFilter { setup, session }, action)
            },
            (SetupPhase::BuildingFilter { setup, session }, SetupReply::Done) => {
                if setup.run_preflight {
                    let action = SetupAction::FindHeavyDirs {
                        tracked_paths: copy_paths(&setup.tracked_paths),
                        skip_dirs: copy_strings(&rollback.skip_dirs),
                    };
                    (SetupPhase::FindingHeavyDirs { setup, session }, action)
                } else {
                    on_baseline(setup, session)
                }
            },
            (SetupPhase::FindingHeavyDirs { setup, session }, SetupReply::Report(report)) => {
                match setup.after_preflight(rollback, report) {
                    None => on_baseline(setup, session),
                    Some(refined) => {
                        let action = SetupAction::BuildFilter {
                            config: refined.filter,
                            gitignore_root: setup.gitignore_root.clone(),
                        };
                        (
                            SetupPhase::RefiningFilter {
                                setup,
                                session,
                                heavy: refined.auto_excluded,
                            },
                            action,
                        )
                    },
                }
            },
            (SetupPhase::RefiningFilter { setup, session, heavy }, SetupReply::Done) => {
                if silent {
                    on_baseline(setup, session)
                } else {
                    (SetupPhase::Announcing { setup, session }, SetupAction::Announce { heavy })
                }
            },
            (SetupPhase::Announcing { setup, session }, _) => on_baseline(setup, session),
            (SetupPhase::TakingBaseline { setup, session }, SetupReply::Done) => {
                let action = SetupAction::ShowTracking {
                    tracked_paths: copy_paths(&setup.tracked_paths),
                    silent,
                };
                (SetupPhase::ShowingTracking { setup, session }, action)
            },
            (SetupPhase::ShowingTracking { setup, session }, _) => {
                let state = setup.into_state(session.session_id, session.session_dir);
                (SetupPhase::Finished, SetupAction::Stop { outcome: Ok(Some(state)) })
            },
            (SetupPhase::Finished, _) => (
                SetupPhase::Finished,
                SetupAction::Stop { outcome: Ok(None) },
            ),
            (_, SetupReply::Failed(e)) => (
                SetupPhase::Finished,
                SetupAction::Stop { outcome: Err(e) },
            ),
            (_, _) => (SetupPhase::Finished, SetupAction::Stop { outcome: Ok(None) }),
        };
        (SetupRun { rollback, silent, pid, phase }, action)
    }
}

// ---- what holds of every setup ----
/// A step of a setup: a reply, and what followed on it.
pub struct SetupStep {
    pub reply: SetupReply,
    pub phase: SetupPhase,
    pub action: SetupAction,
}

/// The phase after some steps.
pub open spec fn phase_after(run: SetupRun<'_>, steps: Seq<SetupStep>) -> SetupPhase {
    if steps.len() == 0 {
        run.phase
    } else {
        steps.last().phase
    }
}

/// Whether the setup `run` can go through `steps`.
pub open spec fn is_setup_trace(run: SetupRun<'_>, steps: Seq<SetupStep>) -> bool
    decreases steps.len(),
{
    steps.len() > 0 ==> {
        let before = SetupRun { phase: phase_after(run, steps.drop_last()), ..run };
        &&& is_setup_trace(run, steps.drop_last())
        &&& setup_follows(before, steps.last().reply, steps.last().phase, steps.last().action)
    }
}

/// The limits on rollback sessions are enforced when rollback is active and
/// only then, once, before anything else is done. So a session directory is
/// created only after the limits were enforced, and is not there to be pruned.
pub proof fn limits_come_first_and_only_with_rollback(
    run: SetupRun<'_>,
    action: SetupAction,
    caps: CapabilitySet,
    base_exclusions: Seq<Seq<char>>,
    steps: Seq<SetupStep>,
)
    requires
        starts_setup(run, action, caps, base_exclusions),
        is_setup_trace(run, steps),
    ensures
        action is EnforceLimits <==> rollback_active(*run.rollback, caps),
        forall|i: int| 0 <= i < steps.len() ==> !((#[trigger] steps[i]).action is EnforceLimits),
        forall|i: int|
            0 <= i < steps.len() && (#[trigger] steps[i]).action is CreateSession ==> i == 0
                && action is EnforceLimits,
    decreases steps.len(),
{
    if steps.len() > 0 {
        let earlier = steps.drop_last();
        limits_come_first_and_only_with_rollback(run, action, caps, base_exclusions, earlier);
        no_way_back_to_limits(run, earlier);
        assert forall|i: int| 0 <= i < steps.len() implies !((#[trigger] steps[i]).action
            is EnforceLimits) && (steps[i].action is CreateSession ==> i == 0
            && action is EnforceLimits) by {
            if i < earlier.len() {
                assert(earlier[i] == steps[i]);
            }
        }
    }
}

proof fn no_way_back_to_limits(run: SetupRun<'_>, steps: Seq<SetupStep>)
    requires
        is_setup_trace(run, steps),
    ensures
        steps.len() > 0 ==> !(phase_after(run, steps) is EnforcingLimits),
{
}

/// What was decided in a phase.
pub open spec fn setup_of(phase: SetupPhase) -> Option<RollbackSetup> {
    match phase {
        SetupPhase::EnforcingLimits { setup } => Some(setup),
        SetupPhase::CreatingSession { setup, .. } => Some(setup),
        SetupPhase::BuildingFilter { setup, .. } => Some(setup),
        SetupPhase::FindingHeavyDirs { setup, .. } => Some(setup),
        SetupPhase::RefiningFilter { setup, .. } => Some(setup),
        SetupPhase::Announcing { setup, .. } => Some(setup),
        SetupPhase::TakingBaseline { setup, .. } => Some(setup),
        SetupPhase::ShowingTracking { setup, .. } => Some(setup),
        SetupPhase::Finished => None,
    }
}

/// What is decided at the start holds until the end: a session that is set up
/// tracks the directories that the user granted for writing, neither more nor
/// less, and the filters leave out at least what was left out to begin with.
pub proof fn setups_keep_what_was_decided(
    run: SetupRun<'_>,
    action: SetupAction,
    caps: CapabilitySet,
    base_exclusions: Seq<Seq<char>>,
    steps: Seq<SetupStep>,
)
    requires
        starts_setup(run, action, caps, base_exclusions),
        is_setup_trace(run, steps),
    ensures
        setup_of(phase_after(run, steps)) matches Some(setup) ==> is_setup_for(
            setup,
            *run.rollback,
            caps,
            base_exclusions,
        ),
        steps.len() > 0 ==> match steps.last().action {
            SetupAction::Stop { outcome: Ok(Some(state)) } => paths_view(state.tracked_paths@)
                == granted_paths(caps.fs@, true),
            SetupAction::BuildFilter { config, .. } => forall|name: Seq<char>|
                first_patterns(*run.rollback, base_exclusions).contains(name) ==> #[trigger] texts(
                    config.exclude_patterns@,
                ).contains(name),
            _ => true,
        },
    decreases steps.len(),
{
    if steps.len() > 0 {
        let earlier = steps.drop_last();
        setups_keep_what_was_decided(run, action, caps, base_exclusions, earlier);
        let before = phase_after(run, earlier);
        if let SetupAction::BuildFilter { config, .. } = steps.last().action {
            let first = first_patterns(*run.rollback, base_exclusions);
            match (before, steps.last().reply) {
                (SetupPhase::FindingHeavyDirs { setup, .. }, SetupReply::Report(report)) => {
                    let heavy = auto_excluded(
                        report.heavy_dirs@,
                        texts(run.rollback.force_include@),
                    );
                    assert forall|name: Seq<char>| first.contains(name) implies #[trigger] texts(
                        config.exclude_patterns@,
                    ).contains(name) by {
                        assert(texts(setup.filter.exclude_patterns@).contains(name));
                        refining_only_leaves_out_more(
                            setup.filter,
                            config,
                            *run.rollback,
                            first,
                            heavy,
                            name,
                        );
                    }
                },
                _ => {},
            }
        }
    }
}

/// The session of a phase.
pub open spec fn session_of(phase: SetupPhase) -> Option<NewSession> {
    match phase {
        SetupPhase::CreatingSession { session, .. } => Some(session),
        SetupPhase::BuildingFilter { session, .. } => Some(session),
        SetupPhase::FindingHeavyDirs { session, .. } => Some(session),
        SetupPhase::RefiningFilter { session, .. } => Some(session),
        SetupPhase::Announcing { session, .. } => Some(session),
        SetupPhase::TakingBaseline { session, .. } => Some(session),
        SetupPhase::ShowingTracking { session, .. } => Some(session),
        _ => None,
    }
}

/// A session that is set up lives where the user wants it: in a directory named
/// by its fresh ID below the destination, or below the rollback root of the home
/// directory. It is the one session of the setup: the directory that is created
/// is its directory, and the first snapshot is taken into it, of the directories
/// that the session tracks.
pub proof fn sessions_are_set_up_where_they_belong(
    run: SetupRun<'_>,
    action: SetupAction,
    caps: CapabilitySet,
    base_exclusions: Seq<Seq<char>>,
    steps: Seq<SetupStep>,
)
    requires
        starts_setup(run, action, caps, base_exclusions),
        is_setup_trace(run, steps),
        steps.len() > 0,
    ensures
        session_of(steps.last().phase) matches Some(session) ==> {
            &&& session_of(steps[0].phase) == Some(session)
            &&& is_placed(session.session_id@, session.session_dir@, *run.rollback, run.pid)
        },
        match steps.last().action {
            SetupAction::CreateSession { session_dir } => {
                &&& session_of(steps[0].phase) matches Some(session)
                &&& session_dir@ == session.session_dir@
            },
            SetupAction::TakeBaseline { session_dir, tracked_paths } => {
                &&& session_of(steps[0].phase) matches Some(session)
                &&& session_dir@ == session.session_dir@
                &&& paths_view(tracked_paths@) == granted_paths(caps.fs@, true)
            },
            SetupAction::Stop { outcome: Ok(Some(state)) } => {
                &&& session_of(steps[0].phase) matches Some(session)
                &&& state.session_id == session.session_id
                &&& state.session_dir == session.session_dir
                &&& is_placed(state.session_id@, state.session_dir@, *run.rollback, run.pid)
                &&& paths_view(state.tracked_paths@) == granted_paths(caps.fs@, true)
            },
            _ => true,
        },
    decreases steps.len(),
{
    let earlier = steps.drop_last();
    setups_keep_what_was_decided(run, action, caps, base_exclusions, steps);
    setups_keep_what_was_decided(run, action, caps, base_exclusions, earlier);
    if earlier.len() > 0 {
        sessions_are_set_up_where_they_belong(run, action, caps, base_exclusions, earlier);
        no_way_back_to_limits(run, earlier);
        assert(earlier[0] == steps[0]);
    } else {
        assert(steps.last() == steps[0]);
    }
}

/// A setup ends with an error only if something failed with that error, or if
/// there is no destination and the home directory is unknown, and with a session
/// only once its first snapshot was taken.
pub proof fn setups_end_for_a_reason(
    run: SetupRun<'_>,
    reply: SetupReply,
    phase: SetupPhase,
    action: SetupAction,
)
    requires
        setup_follows(run, reply, phase, action),
    ensures
        action matches SetupAction::Stop { outcome: Err(e) } ==> reply == SetupReply::Failed(e) || (
        run.phase is EnforcingLimits && run.rollback.destination is None && e
            == NonoError::HomeNotFound),
        action matches SetupAction::Stop { outcome: Ok(Some(_)) } ==> run.phase is ShowingTracking,
        phase is ShowingTracking ==> run.phase is TakingBaseline && reply is Done,
{
}

/// How far a phase is from the end.
pub open spec fn setup_rank(phase: SetupPhase) -> nat {
    match phase {
        SetupPhase::EnforcingLimits { .. } => 8,
        SetupPhase::CreatingSession { .. } => 7,
        SetupPhase::BuildingFilter { .. } => 6,
        SetupPhase::FindingHeavyDirs { .. } => 5,
        SetupPhase::RefiningFilter { .. } => 4,
        SetupPhase::Announcing { .. } => 3,
        SetupPhase::TakingBaseline { .. } => 2,
        SetupPhase::ShowingTracking { .. } => 1,
        SetupPhase::Finished => 0,
    }
}

/// Every setup ends: each reply brings it to a later phase.
pub proof fn setups_end(
    run: SetupRun<'_>,
    reply: SetupReply,
    phase: SetupPhase,
    action: SetupAction,
)
    requires
        !(run.phase is Finished),
        setup_follows(run, reply, phase, action),
    ensures
        setup_rank(phase) < setup_rank(run.phase),
{
}

/// Finding heavy directories never takes anything back in: whatever was left
/// out before is still left out.
pub proof fn refining_only_leaves_out_more(
    before: ExclusionConfig,
    after: ExclusionConfig,
    options: RollbackLaunchOptions,
    patterns: Seq<Seq<char>>,
    heavy: Seq<HeavyDir>,
    name: Seq<char>,
)
    requires
        is_filter_for(before, options, patterns),
        is_filter_for(after, options, texts(before.exclude_patterns@) + heavy_names(heavy)),
        texts(before.exclude_patterns@).contains(name),
    ensures
        texts(after.exclude_patterns@).contains(name),
{
    let given = texts(before.exclude_patterns@) + heavy_names(heavy);
    let at = choose|at: int|
        0 <= at < texts(before.exclude_patterns@).len() && texts(before.exclude_patterns@)[at]
            == name;
    assert(given[at] == name);
    assert(given.contains(name));
}

/// Whatever the defaults, the names that the user added are left out, and with
/// everything tracked the data of version control systems is left out too.
pub proof fn user_patterns_are_left_out(
    config: ExclusionConfig,
    options: RollbackLaunchOptions,
    base_exclusions: Seq<Seq<char>>,
    name: Seq<char>,
)
    requires
        is_filter_for(config, options, first_patterns(options, base_exclusions)),
    ensures
        texts(options.exclude_patterns@).contains(name) ==> texts(
            config.exclude_patterns@,
        ).contains(name),
        options.track_all && (name == ".git"@ || name == ".hg"@ || name == ".svn"@) ==> texts(
            config.exclude_patterns@,
        ).contains(name),
{
    let given = first_patterns(options, base_exclusions);
    let own = texts(options.exclude_patterns@);
    if own.contains(name) {
        let at = choose|at: int| 0 <= at < own.len() && own[at] == name;
        assert(given[given.len() - own.len() + at] == name);
        assert(given.contains(name));
    }
    if options.track_all {
        assert(given[0] == ".git"@ && given[1] == ".hg"@ && given[2] == ".svn"@);
        assert(given.contains(given[0]) && given.contains(given[1]) && given.contains(given[2]));
    }
}

} // verus!
