//! The audit state of a supervised command, and the record that is left when
//! the command ends.

use crate::capabilities::{granted_paths, user_tracked_paths, CapabilitySet};
use crate::errors::{is_snapshot_error, NonoError};
use crate::evidence::{clock_gave, home_lookup_gave};
use crate::lists::reversed;
use crate::loading::session_dir_path;
use crate::paths::{copy_paths, paths_view, FsPath};
use crate::rollback::{
    create_session_dir, creation_error_text, fresh_session_at, fresh_sessions_are_fresh,
    is_fresh_session, RollbackLaunchOptions, RollbackRuntimeState, RollbackSharing,
};
use crate::session::{audit_root_path, home_dir, SessionKind, SessionMetadata};
use crate::session_id::{session_id_text, utc_timestamp};
use crate::setup::rollback_active;
use vstd::prelude::*;
use vstd::string::*;

verus! {

/// Where the audit record of a supervised command goes.
#[derive(Debug, PartialEq, Eq)]
pub struct AuditState {
    /// The session ID.
    pub session_id: String,
    /// The session directory.
    pub session_dir: FsPath,
    /// Paths the sandbox had user-granted access to. Used to populate the
    /// tracked paths of audit-only sessions so that audit listings can group
    /// and filter them by project.
    pub tracked_paths: Vec<FsPath>,
    /// Whether the directory is the audit's own and has yet to be created. A
    /// directory shared with a rollback session exists already.
    pub owns_dir: bool,
}

/// Whether `state` writes into the rollback session `share`.
pub open spec fn is_shared_state(state: AuditState, share: RollbackSharing<'_>) -> bool {
    &&& state.session_id@ == share.session_id@
    &&& state.session_dir@ == share.session_dir@
    &&& paths_view(state.tracked_paths@) == paths_view(share.tracked_paths@)
    &&& !state.owns_dir
}

/// Whether `state` is an audit-only session of the process `pid` for a command
/// with the capabilities `caps`.
pub open spec fn is_audit_only_state(state: AuditState, caps: CapabilitySet, pid: u32) -> bool {
    &&& exists|home: Seq<u8>|
        home.len() > 0 && is_fresh_session(
            state.session_id@,
            state.session_dir@,
            #[trigger] audit_root_path(home),
            pid,
        )
    &&& paths_view(state.tracked_paths@) == granted_paths(caps.fs@, false)
    &&& state.owns_dir
}

/// Whether `r` is the audit-only session that the process `pid` starts at
/// `timestamp`, for a command with the capabilities `caps`: below the audit root
/// of the home directory `home`, which must be known.
pub open spec fn is_audit_only_result(
    r: Result<Option<AuditState>, NonoError>,
    home: Option<FsPath>,
    timestamp: Seq<char>,
    caps: CapabilitySet,
    pid: u32,
) -> bool {
    match home {
        None => r == Err::<Option<AuditState>, NonoError>(NonoError::HomeNotFound),
        Some(home) => {
            &&& r matches Ok(Some(state))
            &&& state.session_id@ == session_id_text(timestamp, pid)
            &&& state.session_dir@ == session_dir_path(audit_root_path(home@), state.session_id@)
            &&& paths_view(state.tracked_paths@) == granted_paths(caps.fs@, false)
            &&& state.owns_dir
        },
    }
}

/// Create the audit state for a supervised session of the process `pid` that
/// started at `timestamp`, for a user with the home directory `home`.
///
/// - When audit is disabled, returns `None`.
/// - When rollback is active (`sharing` is `Some`), shares the rollback
///   session ID and directory so both records live in a single record.
/// - Otherwise a fresh directory under `~/.nono/audit/` is to hold only audit
///   metadata, and the tracked paths come from `caps`.
pub fn create_audit_state_at(
    home: Option<FsPath>,
    timestamp: &str,
    audit_disabled: bool,
    sharing: Option<RollbackSharing<'_>>,
    caps: &CapabilitySet,
    pid: u32,
) -> (r: Result<Option<AuditState>, NonoError>)
    ensures
        match (audit_disabled, sharing) {
            (true, _) => r == Ok::<Option<AuditState>, NonoError>(None),
            (false, Some(share)) => r matches Ok(Some(state)) && is_shared_state(state, share),
            (false, None) => is_audit_only_result(r, home, timestamp@, *caps, pid),
        },
{
    if audit_disabled {
        return Ok(None);
    }
    if let Some(share) = sharing {
        return Ok(
            Some(
                AuditState {
                    session_id: share.session_id.to_owned(),
                    session_dir: share.session_dir.clone(),
                    tracked_paths: copy_paths(share.tracked_paths),
                    owns_dir: false,
                },
            ),
        );
    }
    match fresh_session_at(home, SessionKind::AuditOnly, timestamp, pid) {
        Err(e) => Err(e),
        Ok((session_id, session_dir)) => Ok(
            Some(
                AuditState {
                    session_id,
                    session_dir,
                    tracked_paths: user_tracked_paths(caps),
                    owns_dir: true,
                },
            ),
        ),
    }
}

/// Create the audit state for a supervised session of the process `pid` that
/// starts now, as [`create_audit_state_at`] does. The clock and the home
/// directory are consulted only for an audit-only session, and the clock only
/// once the home directory is known.
pub fn create_audit_state(
    audit_disabled: bool,
    sharing: Option<RollbackSharing<'_>>,
    caps: &CapabilitySet,
    pid: u32,
) -> (r: Result<Option<AuditState>, NonoError>)
    ensures
        match (audit_disabled, sharing) {
            (true, _) => r == Ok::<Option<AuditState>, NonoError>(None),
            (false, Some(share)) => r matches Ok(Some(state)) && is_shared_state(state, share),
            (false, None) => match r {
                Ok(Some(state)) => is_audit_only_state(state, *caps, pid),
                Ok(None) => false,
                Err(e) => e == NonoError::HomeNotFound,
            },
        },
        !audit_disabled && sharing is None ==> match r {
            Ok(Some(state)) => {
                &&& exists|t: Seq<char>|
                    clock_gave(t) && state.session_id@ == #[trigger] session_id_text(t, pid)
                &&& exists|home: Seq<u8>|
                    home_lookup_gave(Some(home)) && state.session_dir@ == session_dir_path(
                        #[trigger] audit_root_path(home),
                        state.session_id@,
                    )
            },
            _ => home_lookup_gave(None),
        },
{
    if audit_disabled || sharing.is_some() {
        return create_audit_state_at(None, "", audit_disabled, sharing, caps, pid);
    }
    let home = match home_dir() {
        Some(home) => home,
        None => return Err(NonoError::HomeNotFound),
    };
    let ghost root = audit_root_path(home@);
    let timestamp = utc_timestamp();
    let created = create_audit_state_at(Some(home), timestamp.as_str(), false, None, caps, pid);
    proof {
        let state = created->Ok_0->0;
        fresh_sessions_are_fresh(
            timestamp@,
            state.session_id@,
            state.session_dir@,
            root,
            pid,
        );
    }
    created
}

/// Whether `r` is what becomes of `state` once its directory was to be created.
pub open spec fn is_settled(
    r: Result<AuditState, NonoError>,
    state: AuditState,
    shown: Seq<char>,
    outcome: Result<(), String>,
) -> bool {
    match outcome {
        Err(reason) if state.owns_dir => r matches Err(e) && is_snapshot_error(
            e,
            creation_error_text(shown, reason@),
        ),
        _ => r == Ok::<AuditState, NonoError>(state),
    }
}

impl AuditState {
    /// The audit state, once its directory was to be created: `outcome` is what
    /// the file system answered, and `shown` how the directory is shown in an
    /// error. A directory shared with a rollback session is not created, so
    /// there the answer does not matter.
    pub fn with_dir(self, shown: &str, outcome: Result<(), String>) -> (r: Result<
        AuditState,
        NonoError,
    >)
        ensures
            is_settled(r, self, shown@, outcome),
    {
        if !self.owns_dir {
            return Ok(self);
        }
        match create_session_dir(self.session_dir, shown, outcome) {
            Err(e) => Err(e),
            Ok(session_dir) => Ok(
                AuditState {
                    session_id: self.session_id,
                    session_dir,
                    tracked_paths: self.tracked_paths,
                    owns_dir: true,
                },
            ),
        }
    }
}

/// An audit-only session comes about exactly where the home directory is known
/// and the session directory can be created. It lives in the directory named by
/// its ID below the audit root, and records the directories that the user
/// granted.
pub proof fn audit_only_sessions_need_home_and_directory(
    home: Option<FsPath>,
    timestamp: Seq<char>,
    caps: CapabilitySet,
    pid: u32,
    created: Result<Option<AuditState>, NonoError>,
    shown: Seq<char>,
    outcome: Result<(), String>,
    settled: Result<AuditState, NonoError>,
)
    requires
        is_audit_only_result(created, home, timestamp, caps, pid),
        match created {
            Ok(Some(state)) => is_settled(settled, state, shown, outcome),
            Ok(None) => false,
            Err(e) => settled == Err::<AuditState, NonoError>(e),
        },
    ensures
        settled is Ok <==> home is Some && outcome is Ok,
        settled matches Ok(state) ==> {
            &&& state.session_dir@ == session_dir_path(
                audit_root_path(home->0@),
                state.session_id@,
            )
            &&& paths_view(state.tracked_paths@) == granted_paths(caps.fs@, false)
        },
{
}

// ---- the end of a command ----
/// A rollback session whose last snapshot was taken.
#[derive(Debug, PartialEq, Eq)]
pub struct RollbackOutcome {
    /// The session.
    pub state: RollbackRuntimeState,
    /// How many snapshots were taken.
    pub snapshot_count: u32,
    /// The Merkle root of the first snapshot.
    pub baseline_root: Vec<u8>,
    /// The Merkle root of the last snapshot.
    pub final_root: Vec<u8>,
    /// Whether the command changed any tracked file.
    pub has_changes: bool,
}

/// What is known when a supervised command has ended.
#[derive(Debug, PartialEq, Eq)]
pub struct RollbackExitContext {
    /// The audit state, unless audit is disabled.
    pub audit_state: Option<AuditState>,
    /// The rollback session, if there is one, or why its last snapshot could
    /// not be taken.
    pub rollback: Option<Result<RollbackOutcome, NonoError>>,
    /// The network audit events, each in its serialized form.
    pub network_events: Vec<String>,
    /// When the command started.
    pub started: String,
    /// When the command ended.
    pub ended: String,
    /// The command.
    pub command: Vec<String>,
    /// Its exit code.
    pub exit_code: i32,
    /// Whether nothing is to be asked of the user.
    pub silent: bool,
    /// Whether the user does not want to be asked about restoring files.
    pub rollback_prompt_disabled: bool,
}

/// A step of finishing a session.
#[derive(Debug, PartialEq, Eq)]
pub enum ExitStep {
    /// Write the record of the rollback session.
    SaveRollbackRecord { metadata: SessionMetadata },
    /// Show which files changed.
    ShowChanges,
    /// Let the user review the changes and restore files.
    OfferRestore,
    /// Remove the temporary files that the command left behind.
    RemoveNewTempFiles,
    /// Write the record of the audit-only session into `dir`.
    WriteAuditRecord { dir: FsPath, metadata: SessionMetadata },
}

/// Whether `metadata` tells what is known of the command itself.
pub open spec fn tells_of_command(metadata: SessionMetadata, ctx: RollbackExitContext) -> bool {
    &&& metadata.started == ctx.started
    &&& metadata.ended == Some(ctx.ended)
    &&& metadata.command == ctx.command
    &&& metadata.exit_code == Some(ctx.exit_code)
    &&& metadata.network_events == ctx.network_events
}

/// Whether `metadata` is the record of the rollback session `outcome`.
pub open spec fn is_rollback_record(
    metadata: SessionMetadata,
    ctx: RollbackExitContext,
    outcome: RollbackOutcome,
) -> bool {
    &&& tells_of_command(metadata, ctx)
    &&& metadata.session_id == outcome.state.session_id
    &&& metadata.tracked_paths == outcome.state.tracked_paths
    &&& metadata.snapshot_count == outcome.snapshot_count
    &&& metadata.merkle_roots@ == seq![outcome.baseline_root, outcome.final_root]
}

/// Whether `metadata` is the record of the audit-only session `state`.
pub open spec fn is_audit_record(
    metadata: SessionMetadata,
    ctx: RollbackExitContext,
    state: AuditState,
) -> bool {
    &&& tells_of_command(metadata, ctx)
    &&& metadata.session_id == state.session_id
    &&& metadata.tracked_paths == state.tracked_paths
    &&& metadata.snapshot_count == 0
    &&& metadata.merkle_roots@.len() == 0
}

/// What follows on the record of a rollback session: changes are shown, if
/// there are any, and offered to be undone unless the user is not to be asked;
/// in any case temporary files are removed.
pub open spec fn follow_ups(ctx: RollbackExitContext, has_changes: bool) -> Seq<ExitStep> {
    if !has_changes {
        seq![ExitStep::RemoveNewTempFiles]
    } else if ctx.rollback_prompt_disabled || ctx.silent {
        seq![ExitStep::ShowChanges, ExitStep::RemoveNewTempFiles]
    } else {
        seq![ExitStep::ShowChanges, ExitStep::OfferRestore, ExitStep::RemoveNewTempFiles]
    }
}

/// Whether `steps` are how a session is finished.
pub open spec fn is_exit_plan(ctx: RollbackExitContext, steps: Seq<ExitStep>) -> bool {
    match (ctx.rollback, ctx.audit_state) {
        (Some(Err(_)), _) => false,
        (Some(Ok(outcome)), _) => {
            &&& steps.len() > 0
            &&& steps[0] matches ExitStep::SaveRollbackRecord { metadata }
            &&& is_rollback_record(metadata, ctx, outcome)
            &&& steps.drop_first() == follow_ups(ctx, outcome.has_changes)
        },
        (None, Some(state)) => {
            &&& steps.len() == 1
            &&& steps[0] matches ExitStep::WriteAuditRecord { dir, metadata }
            &&& dir == state.session_dir
            &&& is_audit_record(metadata, ctx, state)
        },
        (None, None) => steps.len() == 0,
    }
}

/// Decides how a supervised session is finished.
///
/// With rollback the record is that of the rollback session; where its last
/// snapshot could not be taken, that error is all there is. Without rollback,
/// unless audit is disabled, it is an audit-only record: no snapshots, just the
/// command, the paths that the user granted and the network events.
pub fn finalize_supervised_exit(ctx: RollbackExitContext) -> (r: Result<Vec<ExitStep>, NonoError>)
    ensures
        match r {
            Ok(steps) => is_exit_plan(ctx, steps@),
            Err(e) => ctx.rollback == Some(Err::<RollbackOutcome, NonoError>(e)),
        },
{
    let mut steps: Vec<ExitStep> = Vec::new();
    match (ctx.rollback, ctx.audit_state) {
        (Some(Err(e)), _) => {
            return Err(e);
        },
        (Some(Ok(outcome)), _) => {
            let has_changes = outcome.has_changes;
            let metadata = SessionMetadata {
                session_id: outcome.state.session_id,
                started: ctx.started,
                ended: Some(ctx.ended),
                command: ctx.command,
                tracked_paths: outcome.state.tracked_paths,
                snapshot_count: outcome.snapshot_count,
                exit_code: Some(ctx.exit_code),
                merkle_roots: vec![outcome.baseline_root, outcome.final_root],
                network_events: ctx.network_events,
            };
            steps.push(ExitStep::SaveRollbackRecord { metadata });
            if has_changes {
                steps.push(ExitStep::ShowChanges);
                if !ctx.rollback_prompt_disabled && !ctx.silent {
                    steps.push(ExitStep::OfferRestore);
                }
            }
            steps.push(ExitStep::RemoveNewTempFiles);
            assert(steps@.drop_first() =~= follow_ups(ctx, has_changes));
        },
        (None, Some(state)) => {
            let metadata = SessionMetadata {
                session_id: state.session_id,
                started: ctx.started,
                ended: Some(ctx.ended),
                command: ctx.command,
                tracked_paths: state.tracked_paths,
                snapshot_count: 0,
                exit_code: Some(ctx.exit_code),
                merkle_roots: Vec::new(),
                network_events: ctx.network_events,
            };
            steps.push(ExitStep::WriteAuditRecord { dir: state.session_dir, metadata });
        },
        (None, None) => {},
    }
    Ok(steps)
}

/// The test for a step that writes a record.
pub open spec fn writes_record() -> spec_fn(ExitStep) -> bool {
    |step: ExitStep| step is SaveRollbackRecord || step is WriteAuditRecord
}

/// The record that a step writes.
pub open spec fn record_of(step: ExitStep) -> SessionMetadata
    recommends
        writes_record()(step),
{
    match step {
        ExitStep::SaveRollbackRecord { metadata } => metadata,
        ExitStep::WriteAuditRecord { metadata, .. } => metadata,
        _ => arbitrary(),
    }
}

// ---- taking the steps ----
/// A session that is being finished, one step after the other.
#[derive(Debug, PartialEq, Eq)]
pub struct ExitRun {
    /// The steps that are left, the next one at the end.
    pub stack: Vec<ExitStep>,
    /// Whether the step under way writes a record.
    pub writing: bool,
}

/// What the program is to do next.
#[derive(Debug, PartialEq, Eq)]
pub enum ExitAction {
    /// Take this step.
    Perform(ExitStep),
    /// Stop with this result.
    Stop(Result<(), NonoError>),
}

/// [`ExitRun`], with the steps that are left in the order in which they come.
pub struct ExitModel {
    pub left: Seq<ExitStep>,
    pub writing: bool,
}

impl View for ExitRun {
    type V = ExitModel;

    open spec fn view(&self) -> ExitModel {
        ExitModel { left: self.stack@.reverse(), writing: self.writing }
    }
}

/// Going on with the first of some steps; when none is left, all went well.
pub open spec fn next_step(steps: Seq<ExitStep>) -> (ExitModel, ExitAction) {
    if steps.len() == 0 {
        (ExitModel { left: Seq::empty(), writing: false }, ExitAction::Stop(Ok(())))
    } else {
        (
            ExitModel { left: steps.drop_first(), writing: writes_record()(steps[0]) },
            ExitAction::Perform(steps[0]),
        )
    }
}

/// What follows on a step. A record that cannot be written ends everything with
/// its error; it does not matter what comes of the other steps.
pub open spec fn after_step(run: ExitModel, outcome: Result<(), NonoError>) -> (
    ExitModel,
    ExitAction,
) {
    match outcome {
        Err(e) if run.writing => (
            ExitModel { left: Seq::empty(), writing: false },
            ExitAction::Stop(Err(e)),
        ),
        _ => next_step(run.left),
    }
}

fn step_writes(step: &ExitStep) -> (r: bool)
    ensures
        r == writes_record()(*step),
{
    matches!(step, ExitStep::SaveRollbackRecord { .. } | ExitStep::WriteAuditRecord { .. })
}

fn take_next(stack: Vec<ExitStep>) -> (r: (ExitRun, ExitAction))
    ensures
        r.0@ == next_step(stack@.reverse()).0,
        r.1 == next_step(stack@.reverse()).1,
{
    let ghost steps = stack@.reverse();
    let mut left = stack;
    match left.pop() {
        None => {
            assert(left@.reverse() =~= Seq::<ExitStep>::empty());
            (ExitRun { stack: left, writing: false }, ExitAction::Stop(Ok(())))
        },
        Some(step) => {
            assert(steps[0] == step);
            assert(left@.reverse() =~= steps.drop_first());
            let writing = step_writes(&step);
            (ExitRun { stack: left, writing }, ExitAction::Perform(step))
        },
    }
}

impl ExitRun {
    /// Starts to take the steps in their order.
    pub fn start(steps: Vec<ExitStep>) -> (r: (ExitRun, ExitAction))
        ensures
            r.0@ == next_step(steps@).0,
            r.1 == next_step(steps@).1,
    {
        let stack = reversed(steps);
        assert(stack@.reverse() =~= steps@);
        take_next(stack)
    }

    /// Goes on once a step was taken.
    pub fn advance(self, outcome: Result<(), NonoError>) -> (r: (ExitRun, ExitAction))
        ensures
            r.0@ == after_step(self@, outcome).0,
            r.1 == after_step(self@, outcome).1,
    {
        match outcome {
            Err(e) => {
                if self.writing {
                    let none: Vec<ExitStep> = Vec::new();
                    assert(none@.reverse() =~= Seq::<ExitStep>::empty());
                    (ExitRun { stack: none, writing: false }, ExitAction::Stop(Err(e)))
                } else {
                    take_next(self.stack)
                }
            },
            Ok(()) => take_next(self.stack),
        }
    }
}

/// The run and what it does after some steps were taken.
pub open spec fn exit_after(steps: Seq<ExitStep>, outcomes: Seq<Result<(), NonoError>>) -> (
    ExitModel,
    ExitAction,
)
    decreases outcomes.len(),
{
    if outcomes.len() == 0 {
        next_step(steps)
    } else {
        after_step(exit_after(steps, outcomes.drop_last()).0, outcomes.last())
    }
}

/// As long as the records can be written, all the steps are taken, each once
/// and in their order, whatever comes of the others; then all went well.
pub proof fn exit_takes_every_step(steps: Seq<ExitStep>, outcomes: Seq<Result<(), NonoError>>)
    requires
        outcomes.len() <= steps.len(),
        forall|k: int|
            0 <= k < outcomes.len() && writes_record()(steps[k]) ==> #[trigger] outcomes[k] is Ok,
    ensures
        exit_after(steps, outcomes) == next_step(steps.skip(outcomes.len() as int)),
    decreases outcomes.len(),
{
    let n = outcomes.len() as int;
    if n == 0 {
        assert(steps.skip(0) =~= steps);
    } else {
        let earlier = outcomes.drop_last();
        assert forall|k: int| 0 <= k < earlier.len() && writes_record()(steps[k]) implies (
        #[trigger] earlier[k]) is Ok by {
            assert(earlier[k] == outcomes[k]);
        }
        exit_takes_every_step(steps, earlier);
        let left = steps.skip(n - 1);
        assert(left[0] == steps[n - 1]);
        assert(left.drop_first() =~= steps.skip(n));
        assert(outcomes.last() == outcomes[n - 1]);
    }
}

/// Where the record of a session cannot be written, the session ends with that
/// error, and nothing is done after it.
pub proof fn unwritten_records_end_the_exit(
    ctx: RollbackExitContext,
    steps: Seq<ExitStep>,
    e: NonoError,
)
    requires
        is_exit_plan(ctx, steps),
        steps.len() > 0,
    ensures
        next_step(steps).1 == ExitAction::Perform(steps[0]),
        writes_record()(steps[0]),
        after_step(next_step(steps).0, Err(e)).1 == ExitAction::Stop(Err(e)),
        after_step(next_step(steps).0, Err(e)).0.left.len() == 0,
{
}

// ---- what is left behind ----
/// Audit and rollback are independent of each other. A session leaves one
/// record if either is active, and none if neither is; the record tells how
/// the command ended, and bears the ID of the rollback session where there is
/// one, else that of the audit-only session. (There is no plan where the last
/// snapshot could not be taken.)
pub proof fn each_session_leaves_one_record(ctx: RollbackExitContext, steps: Seq<ExitStep>)
    requires
        is_exit_plan(ctx, steps),
    ensures
        steps.filter(writes_record()).len() == (if ctx.rollback is Some || ctx.audit_state is Some {
            1int
        } else {
            0int
        }),
        ctx.rollback is Some || ctx.audit_state is Some ==> {
            let record = record_of(steps.filter(writes_record())[0]);
            &&& tells_of_command(record, ctx)
            &&& record.session_id == match ctx.rollback {
                Some(Ok(outcome)) => outcome.state.session_id,
                _ => ctx.audit_state->0.session_id,
            }
        },
{
    reveal(Seq::filter);
    match (ctx.rollback, ctx.audit_state) {
        (Some(Ok(outcome)), _) => {
            let rest = follow_ups(ctx, outcome.has_changes);
            assert(steps =~= seq![steps[0]] + rest);
            Seq::filter_distributes_over_add(seq![steps[0]], rest, writes_record());
            assert(seq![steps[0]].drop_last().filter(writes_record()) =~= Seq::<ExitStep>::empty());
            assert(seq![steps[0]].filter(writes_record()) =~= seq![steps[0]]);
            rest.lemma_all_neg_filter_empty(writes_record());
            assert(rest.filter(writes_record()).len() == 0);
        },
        (None, Some(state)) => {
            assert(steps.drop_last().filter(writes_record()) =~= Seq::<ExitStep>::empty());
            assert(steps.filter(writes_record()) =~= seq![steps[0]]);
        },
        _ => {},
    }
}

/// When audit shares a rollback session, both live in a single record: the one
/// record that is written bears the audit's session ID and tracked paths too.
pub proof fn shared_sessions_have_one_record(
    ctx: RollbackExitContext,
    steps: Seq<ExitStep>,
    share: RollbackSharing<'_>,
)
    requires
        is_exit_plan(ctx, steps),
        ctx.rollback matches Some(Ok(outcome)) && share.session_id@ == outcome.state.session_id@
            && share.tracked_paths == outcome.state.tracked_paths,
        ctx.audit_state matches Some(state) && is_shared_state(state, share),
    ensures
        steps.filter(writes_record()).len() == 1,
        ({
            let record = record_of(steps.filter(writes_record())[0]);
            &&& record.session_id@ == ctx.audit_state->0.session_id@
            &&& paths_view(record.tracked_paths@) == paths_view(ctx.audit_state->0.tracked_paths@)
        }),
{
    each_session_leaves_one_record(ctx, steps);
    reveal(Seq::filter);
    let rest = follow_ups(ctx, ctx.rollback->0->Ok_0.has_changes);
    assert(steps =~= seq![steps[0]] + rest);
    Seq::filter_distributes_over_add(seq![steps[0]], rest, writes_record());
    assert(seq![steps[0]].drop_last().filter(writes_record()) =~= Seq::<ExitStep>::empty());
    assert(seq![steps[0]].filter(writes_record()) =~= seq![steps[0]]);
}

/// The record of an audit-only session goes into the directory below the audit
/// root that is named by the session ID in the record.
pub proof fn audit_records_lie_under_their_id(
    ctx: RollbackExitContext,
    steps: Seq<ExitStep>,
    caps: CapabilitySet,
    pid: u32,
)
    requires
        is_exit_plan(ctx, steps),
        ctx.rollback is None,
        ctx.audit_state matches Some(state) && is_audit_only_state(state, caps, pid),
    ensures
        steps[0] matches ExitStep::WriteAuditRecord { dir, metadata } && exists|home: Seq<u8>|
            dir@ == session_dir_path(#[trigger] audit_root_path(home), metadata.session_id@),
{
    let state = ctx.audit_state->0;
    let home = choose|home: Seq<u8>|
        home.len() > 0 && is_fresh_session(
            state.session_id@,
            state.session_dir@,
            #[trigger] audit_root_path(home),
            pid,
        );
    assert(state.session_dir@ == session_dir_path(audit_root_path(home), state.session_id@));
}

/// What is left of a session depends on the two switches alone. With rollback
/// active there is the record of the rollback session, audited or not. Without
/// it, because nobody asked for it, it was switched off, or no directory was
/// granted for writing, there is an audit-only record, unless audit is
/// disabled: then nothing is written at all.
pub proof fn switches_decide_the_record(
    audit_disabled: bool,
    options: RollbackLaunchOptions,
    caps: CapabilitySet,
    ctx: RollbackExitContext,
    steps: Seq<ExitStep>,
)
    requires
        ctx.audit_state is Some <==> !audit_disabled,
        ctx.rollback is Some <==> rollback_active(options, caps),
        is_exit_plan(ctx, steps),
    ensures
        rollback_active(options, caps) <==> steps.len() > 0 && steps[0] is SaveRollbackRecord,
        !rollback_active(options, caps) && !audit_disabled <==> steps.len() > 0
            && steps[0] is WriteAuditRecord,
        !rollback_active(options, caps) && audit_disabled <==> steps.len() == 0,
        forall|i: int|
            0 < i < steps.len() ==> !(#[trigger] steps[i] is SaveRollbackRecord)
                && !(steps[i] is WriteAuditRecord),
        granted_paths(caps.fs@, true).len() == 0 ==> !rollback_active(options, caps),
{
    if let Some(Ok(outcome)) = ctx.rollback {
        let rest = follow_ups(ctx, outcome.has_changes);
        assert forall|i: int| 0 < i < steps.len() implies !(#[trigger] steps[i]
            is SaveRollbackRecord) && !(steps[i] is WriteAuditRecord) by {
            assert(steps[i] == steps.drop_first()[i - 1]);
            assert(rest.len() <= 3);
            assert(i - 1 == 0 || i - 1 == 1 || i - 1 == 2);
            assert(!writes_record()(rest[i - 1]));
        }
    }
}

} // verus!
