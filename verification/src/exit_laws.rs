//! What a supervised command leaves behind, field by field.

use crate::audit::{
    exit_after, is_audit_only_result, is_exit_plan, is_settled, is_shared_state, AuditState,
    ExitAction, ExitStep, RollbackExitContext,
};
use crate::capabilities::{
    granted_paths, is_granted, resolved_paths, AccessMode, CapabilitySet, CapabilitySource,
    FsCapability,
};
use crate::errors::NonoError;
use crate::paths::{path_join, paths_view, FsPath};
use crate::rollback::{has_rollback_flags, says, RollbackLaunchOptions, RollbackSharing};
use crate::session::{root_path, SessionKind};
use crate::text::decimal;
use vstd::prelude::*;
use vstd::utf8::*;

verus! {

// ---- the record ----
/// The record of a finished command tells how it ended, whatever the exit code:
/// every record that a plan writes holds the exit code, the end, the start, the
/// command and the network events as they are.
pub proof fn records_tell_how_the_command_ended(
    ctx: RollbackExitContext,
    steps: Seq<ExitStep>,
    i: int,
)
    requires
        is_exit_plan(ctx, steps),
        0 <= i < steps.len(),
    ensures
        ({
            let record = match steps[i] {
                ExitStep::SaveRollbackRecord { metadata } => Some(metadata),
                ExitStep::WriteAuditRecord { metadata, .. } => Some(metadata),
                _ => None,
            };
            record matches Some(metadata) ==> {
                &&& metadata.exit_code is Some
                &&& metadata.exit_code->0 == ctx.exit_code
                &&& metadata.ended is Some
                &&& metadata.ended->0@ == ctx.ended@
                &&& metadata.started@ == ctx.started@
                &&& metadata.command@ == ctx.command@
                &&& metadata.network_events@ == ctx.network_events@
            }
        }),
{
    steps_come_as_planned(ctx, steps);
}

/// A rollback session leaves its own record: under its ID, with the directories
/// that it tracked, the number of its snapshots, and the roots of the first and
/// the last one. An audit-only session leaves a record in its directory, under
/// its ID, with the directories that were granted, and no snapshots. Without
/// either nothing is left.
pub proof fn records_belong_to_their_session(ctx: RollbackExitContext, steps: Seq<ExitStep>)
    requires
        is_exit_plan(ctx, steps),
    ensures
        match (ctx.rollback, ctx.audit_state) {
            (Some(Ok(outcome)), _) => {
                &&& steps.len() > 0
                &&& steps[0] matches ExitStep::SaveRollbackRecord { metadata }
                &&& metadata.session_id@ == outcome.state.session_id@
                &&& metadata.tracked_paths@ == outcome.state.tracked_paths@
                &&& metadata.snapshot_count == outcome.snapshot_count
                &&& metadata.merkle_roots@.len() == 2
                &&& metadata.merkle_roots@[0]@ == outcome.baseline_root@
                &&& metadata.merkle_roots@[1]@ == outcome.final_root@
            },
            (Some(Err(_)), _) => false,
            (None, Some(state)) => {
                &&& steps.len() == 1
                &&& steps[0] matches ExitStep::WriteAuditRecord { dir, metadata }
                &&& dir@ == state.session_dir@
                &&& metadata.session_id@ == state.session_id@
                &&& metadata.tracked_paths@ == state.tracked_paths@
                &&& metadata.snapshot_count == 0
                &&& metadata.merkle_roots@.len() == 0
            },
            (None, None) => steps.len() == 0,
        },
{
}

/// What follows on the record of a rollback session: changes are shown if and
/// only if there are any, they are offered to be undone if moreover the user may
/// be asked, and the temporary files are removed in any case, last of all.
pub proof fn steps_come_as_planned(ctx: RollbackExitContext, steps: Seq<ExitStep>)
    requires
        is_exit_plan(ctx, steps),
    ensures
        ctx.rollback matches Some(Ok(outcome)) ==> {
            let asks = outcome.has_changes && !ctx.silent && !ctx.rollback_prompt_disabled;
            &&& steps.len() == 2 + (if outcome.has_changes {
                1int
            } else {
                0int
            }) + (if asks {
                1int
            } else {
                0int
            })
            &&& steps[0] is SaveRollbackRecord
            &&& outcome.has_changes ==> steps[1] == ExitStep::ShowChanges
            &&& asks ==> steps[2] == ExitStep::OfferRestore
            &&& steps.last() == ExitStep::RemoveNewTempFiles
        },
        ctx.rollback is None ==> forall|i: int|
            0 <= i < steps.len() ==> #[trigger] steps[i] is WriteAuditRecord,
{
    if let Some(Ok(outcome)) = ctx.rollback {
        let rest = steps.drop_first();
        assert(rest.len() == steps.len() - 1);
        assert(steps[1] == rest[0]);
        if rest.len() > 1 {
            assert(steps[2] == rest[1]);
        }
        if rest.len() > 2 {
            assert(steps[3] == rest[2]);
        }
        assert(steps.last() == rest.last());
    }
}

/// The steps are taken in their order, each once. It does not matter what comes
/// of a step that writes no record.
pub proof fn steps_are_taken_one_by_one(
    steps: Seq<ExitStep>,
    outcomes: Seq<Result<(), NonoError>>,
)
    requires
        outcomes.len() <= steps.len(),
        forall|k: int|
            0 <= k < outcomes.len() && (steps[k] is SaveRollbackRecord
                || steps[k] is WriteAuditRecord) ==> #[trigger] outcomes[k] is Ok,
    ensures
        exit_after(steps, outcomes).1 == if outcomes.len() < steps.len() {
            ExitAction::Perform(steps[outcomes.len() as int])
        } else {
            ExitAction::Stop(Ok(()))
        },
        exit_after(steps, outcomes).0.left == if outcomes.len() < steps.len() {
            steps.skip(outcomes.len() as int + 1)
        } else {
            Seq::<ExitStep>::empty()
        },
        outcomes.len() < steps.len() ==> exit_after(steps, outcomes).0.writing == (
        steps[outcomes.len() as int] is SaveRollbackRecord || steps[outcomes.len() as int]
            is WriteAuditRecord),
    decreases outcomes.len(),
{
    let n = outcomes.len() as int;
    if n == 0 {
        if steps.len() > 0 {
            assert(steps.drop_first() =~= steps.skip(1));
        }
    } else {
        let earlier = outcomes.drop_last();
        assert forall|k: int|
            0 <= k < earlier.len() && (steps[k] is SaveRollbackRecord
                || steps[k] is WriteAuditRecord) implies (#[trigger] earlier[k]) is Ok by {
            assert(earlier[k] == outcomes[k]);
        }
        steps_are_taken_one_by_one(steps, earlier);
        assert(outcomes.last() == outcomes[n - 1]);
        let left = steps.skip(n);
        if n < steps.len() {
            assert(left[0] == steps[n]);
            assert(left.drop_first() =~= steps.skip(n + 1));
        }
    }
}

/// A record that cannot be written ends everything: its error is the result,
/// and no step follows.
pub proof fn unwritten_records_stop_everything(
    steps: Seq<ExitStep>,
    outcomes: Seq<Result<(), NonoError>>,
    e: NonoError,
)
    requires
        outcomes.len() < steps.len(),
        forall|k: int|
            0 <= k < outcomes.len() && (steps[k] is SaveRollbackRecord
                || steps[k] is WriteAuditRecord) ==> #[trigger] outcomes[k] is Ok,
        steps[outcomes.len() as int] is SaveRollbackRecord || steps[outcomes.len() as int]
            is WriteAuditRecord,
    ensures
        exit_after(steps, outcomes.push(Err(e))).1 == ExitAction::Stop(Err(e)),
        exit_after(steps, outcomes.push(Err(e))).0.left.len() == 0,
{
    steps_are_taken_one_by_one(steps, outcomes);
    assert(outcomes.push(Err(e)).drop_last() =~= outcomes);
    assert(outcomes.push(Err(e)).last() == Err::<(), NonoError>(e));
}

// ---- the audit state ----
/// An audit state that shares a rollback session bears its ID, its directory and
/// its tracked paths, and has no directory of its own to create.
pub proof fn shared_states_are_the_rollback_session(state: AuditState, share: RollbackSharing<'_>)
    requires
        is_shared_state(state, share),
    ensures
        state.session_id@ == share.session_id@,
        state.session_dir@ == share.session_dir@,
        state.tracked_paths@.len() == share.tracked_paths@.len(),
        forall|i: int|
            0 <= i < state.tracked_paths@.len() ==> (#[trigger] state.tracked_paths@[i])@
                == share.tracked_paths@[i]@,
        !state.owns_dir,
{
    let (own, shared) = (state.tracked_paths@, share.tracked_paths@);
    paths_are_viewed_one_by_one(own);
    paths_are_viewed_one_by_one(shared);
    assert forall|i: int| 0 <= i < own.len() implies (#[trigger] own[i])@ == shared[i]@ by {
        assert(paths_view(own)[i] == paths_view(shared)[i]);
    }
}

/// The view of a list of paths is the list of their byte strings.
pub proof fn paths_are_viewed_one_by_one(paths: Seq<FsPath>)
    ensures
        paths_view(paths).len() == paths.len(),
        forall|i: int| 0 <= i < paths.len() ==> #[trigger] paths_view(paths)[i] == paths[i].bytes@,
{
}

/// An audit-only session is named by the moment and the process, lies below the
/// audit root of the home directory, and records every directory that the user
/// granted. Without a home directory there is none.
pub proof fn audit_only_states_bear_moment_and_home(
    r: Result<Option<AuditState>, NonoError>,
    home: Option<FsPath>,
    timestamp: Seq<char>,
    caps: CapabilitySet,
    pid: u32,
)
    requires
        is_audit_only_result(r, home, timestamp, caps, pid),
    ensures
        match home {
            None => r == Err::<Option<AuditState>, NonoError>(NonoError::HomeNotFound),
            Some(home) => {
                &&& r matches Ok(Some(state))
                &&& state.session_id@ == timestamp + "-"@ + decimal(pid as nat)
                &&& state.session_dir@ == path_join(
                    root_path(home@, SessionKind::AuditOnly),
                    encode_utf8(state.session_id@),
                )
                &&& state.tracked_paths@.len() == granted_paths(caps.fs@, false).len()
                &&& forall|i: int|
                    0 <= i < state.tracked_paths@.len() ==> (#[trigger] state.tracked_paths@[i])@
                        == granted_paths(caps.fs@, false)[i]
                &&& state.owns_dir
            },
        },
{
    if let Some(home) = home {
        let own = r->Ok_0->0.tracked_paths@;
        paths_are_viewed_one_by_one(own);
        assert forall|i: int| 0 <= i < own.len() implies (#[trigger] own[i])@ == granted_paths(
            caps.fs@,
            false,
        )[i] by {
            assert(paths_view(own)[i] == own[i]@);
        }
    }
}

/// An audit state whose own directory cannot be created is none; in every other
/// case it stays as it is.
pub proof fn states_settle_with_their_directory(
    r: Result<AuditState, NonoError>,
    state: AuditState,
    shown: Seq<char>,
    outcome: Result<(), String>,
)
    requires
        is_settled(r, state, shown, outcome),
    ensures
        r is Err <==> state.owns_dir && outcome is Err,
        r matches Ok(settled) ==> settled == state,
        r matches Err(e) ==> {
            &&& e matches NonoError::Snapshot(text)
            &&& outcome matches Err(reason)
            &&& text@ == "Failed to create session directory "@ + shown + ": "@ + reason@
        },
{
}

// ---- what was granted ----
/// The directories that the user granted are collected one by one: a capability
/// adds its path exactly if it is for a directory, comes from the user, and, for
/// rollback, lets the command write.
pub proof fn directories_are_collected_one_by_one(
    caps: Seq<FsCapability>,
    cap: FsCapability,
    for_writing: bool,
)
    ensures
        granted_paths(Seq::empty(), for_writing).len() == 0,
        granted_paths(caps.push(cap), for_writing) == if !cap.is_file && cap.source
            == CapabilitySource::User && (!for_writing || cap.access == AccessMode::Write
            || cap.access == AccessMode::ReadWrite) {
            granted_paths(caps, for_writing).push(cap.resolved.bytes@)
        } else {
            granted_paths(caps, for_writing)
        },
{
    reveal(Seq::filter);
    let test = is_granted(for_writing);
    caps.lemma_filter_push(cap, test);
    assert(resolved_paths(caps.filter(test).push(cap)) =~= resolved_paths(caps.filter(test)).push(
        cap.resolved@,
    ));
    assert(granted_paths(Seq::empty(), for_writing) =~= Seq::<Seq<u8>>::empty());
}

// ---- flags without effect ----
/// Customizing rollback is tracking everything, or naming anything that is taken
/// in or left out. What is said is said exactly where it is due.
pub proof fn warnings_are_given_where_due(
    options: RollbackLaunchOptions,
    said: Option<String>,
    due: bool,
    text: Seq<char>,
)
    ensures
        has_rollback_flags(options) <==> options.track_all || options.force_include@.len() > 0
            || options.exclude_patterns@.len() > 0 || options.exclude_globs@.len() > 0,
        says(said, due, text) ==> (said is Some <==> due),
        says(said, due, text) ==> (said matches Some(words) ==> words@ == text),
{
}

} // verus!
