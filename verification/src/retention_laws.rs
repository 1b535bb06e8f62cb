//! What holds of every run of limit enforcement.

use crate::discovery::{
    discovered_kinds, has_kind, is_newest_first, newest_first, started_before,
};
use crate::retention::{
    at_most, beyond_limit, completed, count_pass, is_completed, next_action, next_run, notice_text,
    storage_pass, tally_with, total_without, ActionModel, PhaseModel, ReplyModel, RetentionLimits,
    RunModel, Tally,
};
use crate::session::{entry_sessions, ScannedEntry, SessionInfo, SessionKind};
use vstd::prelude::*;

verus! {

/// A run that has just started.
pub open spec fn fresh_run(silent: bool, default_limits: RetentionLimits) -> RunModel {
    RunModel { silent, default_limits, phase: PhaseModel::AwaitLimits }
}

/// The run after a number of replies.
pub open spec fn run_after(run: RunModel, replies: Seq<ReplyModel>) -> RunModel
    decreases replies.len(),
{
    if replies.len() == 0 {
        run
    } else {
        next_run(run_after(run, replies.drop_last()), replies.last())
    }
}

/// The sessions that a phase is still going to remove.
pub open spec fn phase_queue(phase: PhaseModel) -> Seq<SessionInfo> {
    match phase {
        PhaseModel::CountPass { queue, .. } => queue,
        PhaseModel::StoragePass { queue, .. } => queue,
        _ => Seq::empty(),
    }
}

spec fn none_alive(sessions: Seq<SessionInfo>) -> bool {
    forall|i: int| 0 <= i < sessions.len() ==> !(#[trigger] sessions[i]).is_alive
}

proof fn completed_are_dead(sessions: Seq<SessionInfo>)
    ensures
        none_alive(completed(sessions)),
{
    assert forall|i: int| 0 <= i < completed(sessions).len() implies !(#[trigger] completed(
        sessions,
    )[i]).is_alive by {
        sessions.lemma_filter_pred(is_completed(), i);
    }
}

proof fn step_spares_the_living(run: RunModel, reply: ReplyModel)
    requires
        none_alive(phase_queue(run.phase)),
    ensures
        none_alive(phase_queue(next_run(run, reply).phase)),
        next_action(run, reply) matches ActionModel::Remove(session) ==> !session.is_alive,
{
    if let ReplyModel::Sessions(sessions) = reply {
        completed_are_dead(sessions);
        let done = completed(sessions);
        if let PhaseModel::AwaitSessions { limits } = run.phase {
            let excess = beyond_limit(sessions, limits.max_sessions as nat);
            assert forall|i: int| 0 <= i < excess.len() implies !(#[trigger] excess[i]).is_alive by {
                assert(excess[i] == done[i + limits.max_sessions]);
            }
        }
        assert forall|i: int| 0 <= i < done.reverse().len() implies !(
        #[trigger] done.reverse()[i]).is_alive by {
            assert(done.reverse()[i] == done[done.len() - 1 - i]);
        }
    }
    let queue = phase_queue(run.phase);
    if queue.len() > 0 {
        let rest = queue.drop_first();
        assert forall|i: int| 0 <= i < rest.len() implies !(#[trigger] rest[i]).is_alive by {
            assert(rest[i] == queue[i + 1]);
        }
    }
}

proof fn runs_spare_the_living(silent: bool, limits: RetentionLimits, replies: Seq<ReplyModel>)
    ensures
        none_alive(phase_queue(run_after(fresh_run(silent, limits), replies).phase)),
    decreases replies.len(),
{
    if replies.len() > 0 {
        runs_spare_the_living(silent, limits, replies.drop_last());
        step_spares_the_living(
            run_after(fresh_run(silent, limits), replies.drop_last()),
            replies.last(),
        );
    }
}

/// No run ever removes a session whose process is running, whatever the
/// program answers.
pub proof fn live_sessions_are_never_removed(
    silent: bool,
    default_limits: RetentionLimits,
    replies: Seq<ReplyModel>,
    reply: ReplyModel,
)
    ensures
        next_action(
            run_after(fresh_run(silent, default_limits), replies),
            reply,
        ) matches ActionModel::Remove(session) ==> !session.is_alive,
{
    runs_spare_the_living(silent, default_limits, replies);
    step_spares_the_living(run_after(fresh_run(silent, default_limits), replies), reply);
}

spec fn all_pass(sessions: Seq<SessionInfo>, test: spec_fn(SessionInfo) -> bool) -> bool {
    forall|i: int| 0 <= i < sessions.len() ==> test(#[trigger] sessions[i])
}

/// Whether every session that a reply lists passes a test.
pub open spec fn lists_only(reply: ReplyModel, test: spec_fn(SessionInfo) -> bool) -> bool {
    reply matches ReplyModel::Sessions(sessions) ==> forall|s: SessionInfo| #[trigger]
        sessions.contains(s) ==> test(s)
}

proof fn step_removes_what_was_listed(
    run: RunModel,
    reply: ReplyModel,
    test: spec_fn(SessionInfo) -> bool,
)
    requires
        all_pass(phase_queue(run.phase), test),
        lists_only(reply, test),
    ensures
        all_pass(phase_queue(next_run(run, reply).phase), test),
        next_action(run, reply) matches ActionModel::Remove(session) ==> test(session),
{
    if let ReplyModel::Sessions(sessions) = reply {
        let done = completed(sessions);
        assert forall|i: int| 0 <= i < done.len() implies test(#[trigger] done[i]) by {
            sessions.lemma_filter_contains_rev(is_completed(), done[i]);
        }
        if let PhaseModel::AwaitSessions { limits } = run.phase {
            let excess = beyond_limit(sessions, limits.max_sessions as nat);
            assert forall|i: int| 0 <= i < excess.len() implies test(#[trigger] excess[i]) by {
                assert(excess[i] == done[i + limits.max_sessions]);
            }
        }
        assert forall|i: int| 0 <= i < done.reverse().len() implies test(
            #[trigger] done.reverse()[i],
        ) by {
            assert(done.reverse()[i] == done[done.len() - 1 - i]);
        }
    }
    let queue = phase_queue(run.phase);
    if queue.len() > 0 {
        let rest = queue.drop_first();
        assert forall|i: int| 0 <= i < rest.len() implies test(#[trigger] rest[i]) by {
            assert(rest[i] == queue[i + 1]);
        }
    }
}

/// A run removes nothing but sessions that it was given: whatever holds of all
/// the sessions that were listed holds of every session that is removed.
pub proof fn only_listed_sessions_are_removed(
    silent: bool,
    default_limits: RetentionLimits,
    replies: Seq<ReplyModel>,
    reply: ReplyModel,
    test: spec_fn(SessionInfo) -> bool,
)
    requires
        forall|i: int| 0 <= i < replies.len() ==> lists_only(#[trigger] replies[i], test),
        lists_only(reply, test),
    ensures
        next_action(
            run_after(fresh_run(silent, default_limits), replies),
            reply,
        ) matches ActionModel::Remove(session) ==> test(session),
{
    queues_hold_what_was_listed(silent, default_limits, replies, test);
    step_removes_what_was_listed(
        run_after(fresh_run(silent, default_limits), replies),
        reply,
        test,
    );
}

proof fn queues_hold_what_was_listed(
    silent: bool,
    default_limits: RetentionLimits,
    replies: Seq<ReplyModel>,
    test: spec_fn(SessionInfo) -> bool,
)
    requires
        forall|i: int| 0 <= i < replies.len() ==> lists_only(#[trigger] replies[i], test),
    ensures
        all_pass(phase_queue(run_after(fresh_run(silent, default_limits), replies).phase), test),
    decreases replies.len(),
{
    if replies.len() > 0 {
        let earlier = replies.drop_last();
        assert forall|i: int| 0 <= i < earlier.len() implies lists_only(
            #[trigger] earlier[i],
            test,
        ) by {
            assert(earlier[i] == replies[i]);
        }
        queues_hold_what_was_listed(silent, default_limits, earlier, test);
        assert(lists_only(replies[replies.len() - 1], test));
        step_removes_what_was_listed(
            run_after(fresh_run(silent, default_limits), earlier),
            replies.last(),
            test,
        );
    }
}

/// Whether a reply, if it lists sessions, lists what rollback discovery finds
/// in some rollback root.
pub open spec fn comes_from_discovery(reply: ReplyModel) -> bool {
    reply matches ReplyModel::Sessions(sessions) ==> exists|entries: Seq<ScannedEntry>|
        sessions == newest_first(#[trigger] entry_sessions(entries, SessionKind::Rollback))
}

/// Audit-only sessions are not subject to the limits: as long as the sessions
/// come from rollback discovery, every session that is removed is a rollback
/// session.
pub proof fn audit_only_sessions_are_never_pruned(
    silent: bool,
    default_limits: RetentionLimits,
    replies: Seq<ReplyModel>,
    reply: ReplyModel,
)
    requires
        forall|i: int| 0 <= i < replies.len() ==> comes_from_discovery(#[trigger] replies[i]),
        comes_from_discovery(reply),
    ensures
        next_action(
            run_after(fresh_run(silent, default_limits), replies),
            reply,
        ) matches ActionModel::Remove(session) ==> session.kind == SessionKind::Rollback,
{
    let test = has_kind(SessionKind::Rollback);
    assert forall|i: int| 0 <= i < replies.len() implies lists_only(#[trigger] replies[i], test) by {
        discovery_lists_rollback_sessions(replies[i]);
    }
    discovery_lists_rollback_sessions(reply);
    only_listed_sessions_are_removed(silent, default_limits, replies, reply, test);
}

proof fn discovery_lists_rollback_sessions(reply: ReplyModel)
    requires
        comes_from_discovery(reply),
    ensures
        lists_only(reply, has_kind(SessionKind::Rollback)),
{
    if let ReplyModel::Sessions(sessions) = reply {
        let entries = choose|entries: Seq<ScannedEntry>|
            sessions == newest_first(#[trigger] entry_sessions(entries, SessionKind::Rollback));
        discovered_kinds(entries, SessionKind::Rollback);
    }
}

/// The session count limit divides the completed sessions of a listing, newest
/// first, into those that are kept and those that go: as many as the limit
/// allows are kept, and none that is kept started before one that goes.
pub proof fn count_limit_keeps_the_newest(sessions: Seq<SessionInfo>, max_sessions: nat)
    requires
        is_newest_first(sessions),
    ensures
        ({
            let done = completed(sessions);
            let excess = beyond_limit(sessions, max_sessions);
            let kept = done.take(done.len() - excess.len());
            &&& done == kept + excess
            &&& kept.len() == at_most(done.len() as int, max_sessions as int)
            &&& forall|i: int, j: int|
                0 <= i < kept.len() && 0 <= j < excess.len() ==> !started_before(
                    #[trigger] kept[i],
                    #[trigger] excess[j],
                )
        }),
{
    let done = completed(sessions);
    let excess = beyond_limit(sessions, max_sessions);
    let kept = done.take(done.len() - excess.len());
    filter_keeps_order(sessions);
    assert(done =~= kept + excess);
    assert forall|i: int, j: int|
        0 <= i < kept.len() && 0 <= j < excess.len() implies !started_before(
        #[trigger] kept[i],
        #[trigger] excess[j],
    ) by {
        assert(kept[i] == done[i]);
        assert(excess[j] == done[kept.len() + j]);
    }
}

proof fn filter_keeps_order(sessions: Seq<SessionInfo>)
    requires
        is_newest_first(sessions),
    ensures
        is_newest_first(completed(sessions)),
    decreases sessions.len(),
{
    reveal(Seq::filter);
    if sessions.len() > 0 {
        let before = sessions.drop_last();
        let last = sessions.last();
        assert forall|i: int, j: int| 0 <= i < j < before.len() implies !started_before(
            #[trigger] before[i],
            #[trigger] before[j],
        ) by {
            assert(before[i] == sessions[i] && before[j] == sessions[j]);
        }
        filter_keeps_order(before);
        let done = completed(before);
        assert forall|i: int| 0 <= i < done.len() implies !started_before(
            #[trigger] done[i],
            last,
        ) by {
            before.lemma_filter_contains_rev(is_completed(), done[i]);
            let at = choose|at: int| 0 <= at < before.len() && before[at] == done[i];
            assert(!started_before(sessions[at], sessions[sessions.len() - 1]));
        }
    }
}

/// For their space, sessions go oldest first: none goes before one that
/// started earlier.
pub proof fn storage_limit_takes_the_oldest(sessions: Seq<SessionInfo>)
    requires
        is_newest_first(sessions),
    ensures
        ({
            let queue = completed(sessions).reverse();
            forall|i: int, j: int|
                0 <= i < j < queue.len() ==> !started_before(
                    #[trigger] queue[j],
                    #[trigger] queue[i],
                )
        }),
{
    filter_keeps_order(sessions);
    let done = completed(sessions);
    let queue = done.reverse();
    assert forall|i: int, j: int| 0 <= i < j < queue.len() implies !started_before(
        #[trigger] queue[j],
        #[trigger] queue[i],
    ) by {
        assert(queue[i] == done[done.len() - 1 - i]);
        assert(queue[j] == done[done.len() - 1 - j]);
    }
}

/// The replies to a number of removals.
pub open spec fn removals(outcomes: Seq<bool>) -> Seq<ReplyModel> {
    outcomes.map_values(|removed: bool| ReplyModel::Removed(removed))
}

/// The tally after trying to remove the first sessions of a queue.
pub open spec fn tally_over(tally: Tally, queue: Seq<SessionInfo>, outcomes: Seq<bool>) -> Tally
    decreases outcomes.len(),
{
    if outcomes.len() == 0 {
        tally
    } else {
        tally_with(
            tally_over(tally, queue, outcomes.drop_last()),
            queue[outcomes.len() - 1],
            outcomes.last(),
        )
    }
}

/// The space that is taken after trying to remove the first sessions of a queue.
pub open spec fn total_over(total: u64, queue: Seq<SessionInfo>, outcomes: Seq<bool>) -> u64
    decreases outcomes.len(),
{
    if outcomes.len() == 0 {
        total
    } else {
        total_without(
            total_over(total, queue, outcomes.drop_last()),
            queue[outcomes.len() - 1],
            outcomes.last(),
        )
    }
}

proof fn removals_grow(outcomes: Seq<bool>)
    requires
        outcomes.len() > 0,
    ensures
        removals(outcomes).len() == outcomes.len(),
        removals(outcomes).drop_last() == removals(outcomes.drop_last()),
        removals(outcomes).last() == ReplyModel::Removed(outcomes.last()),
{
    assert(removals(outcomes).drop_last() =~= removals(outcomes.drop_last()));
}

/// The session count limit removes exactly the excess: after each answer the
/// next session of the queue goes, whatever came of those before, and when all
/// have been tried the space is measured.
pub proof fn count_pass_tries_each_in_turn(
    run: RunModel,
    limits: RetentionLimits,
    queue: Seq<SessionInfo>,
    tally: Tally,
    outcomes: Seq<bool>,
)
    requires
        run.phase == count_pass(limits, queue, tally).0,
        outcomes.len() <= queue.len(),
    ensures
        run_after(run, removals(outcomes)).phase == count_pass(
            limits,
            queue.skip(outcomes.len() as int),
            tally_over(tally, queue, outcomes),
        ).0,
        outcomes.len() > 0 ==> next_action(
            run_after(run, removals(outcomes.drop_last())),
            ReplyModel::Removed(outcomes.last()),
        ) == count_pass(
            limits,
            queue.skip(outcomes.len() as int),
            tally_over(tally, queue, outcomes),
        ).1,
    decreases outcomes.len(),
{
    let n = outcomes.len() as int;
    if n == 0 {
        assert(queue.skip(0) =~= queue);
        assert(removals(outcomes) =~= Seq::<ReplyModel>::empty());
    } else {
        count_pass_tries_each_in_turn(run, limits, queue, tally, outcomes.drop_last());
        removals_grow(outcomes);
        let left = queue.skip(n - 1);
        assert(left[0] == queue[n - 1]);
        assert(left.drop_first() =~= queue.skip(n));
    }
}

/// The storage limit removes sessions in the order of the queue and no longer
/// than needed: as long as the rest takes too much space the next session goes,
/// and when it no longer does, or none is left, the run ends.
pub proof fn storage_pass_stops_in_time(
    run: RunModel,
    limits: RetentionLimits,
    queue: Seq<SessionInfo>,
    total: u64,
    tally: Tally,
    outcomes: Seq<bool>,
)
    requires
        run.phase == storage_pass(run.silent, limits, queue, total, tally).0,
        outcomes.len() <= queue.len(),
        forall|k: int|
            0 <= k < outcomes.len() ==> #[trigger] total_over(total, queue, outcomes.take(k))
                > limits.max_storage_bytes,
    ensures
        run_after(run, removals(outcomes)).phase == storage_pass(
            run.silent,
            limits,
            queue.skip(outcomes.len() as int),
            total_over(total, queue, outcomes),
            tally_over(tally, queue, outcomes),
        ).0,
        outcomes.len() > 0 ==> next_action(
            run_after(run, removals(outcomes.drop_last())),
            ReplyModel::Removed(outcomes.last()),
        ) == storage_pass(
            run.silent,
            limits,
            queue.skip(outcomes.len() as int),
            total_over(total, queue, outcomes),
            tally_over(tally, queue, outcomes),
        ).1,
    decreases outcomes.len(),
{
    let n = outcomes.len() as int;
    if n == 0 {
        assert(queue.skip(0) =~= queue);
        assert(removals(outcomes) =~= Seq::<ReplyModel>::empty());
    } else {
        let earlier = outcomes.drop_last();
        assert forall|k: int| 0 <= k < earlier.len() implies #[trigger] total_over(
            total,
            queue,
            earlier.take(k),
        ) > limits.max_storage_bytes by {
            assert(earlier.take(k) =~= outcomes.take(k));
        }
        storage_pass_stops_in_time(run, limits, queue, total, tally, earlier);
        assert(earlier =~= outcomes.take(n - 1));
        removals_grow(outcomes);
        silence_stays(run, removals(earlier));
        let left = queue.skip(n - 1);
        assert(left[0] == queue[n - 1]);
        assert(left.drop_first() =~= queue.skip(n));
    }
}

proof fn silence_stays(run: RunModel, replies: Seq<ReplyModel>)
    ensures
        run_after(run, replies).silent == run.silent,
    decreases replies.len(),
{
    if replies.len() > 0 {
        silence_stays(run, replies.drop_last());
    }
}

/// How many removals succeeded.
pub open spec fn successes(outcomes: Seq<bool>) -> nat
    decreases outcomes.len(),
{
    if outcomes.len() == 0 {
        0
    } else {
        successes(outcomes.drop_last()) + if outcomes.last() {
            1nat
        } else {
            0nat
        }
    }
}

/// How many bytes the removed sessions took.
pub open spec fn freed_bytes(queue: Seq<SessionInfo>, outcomes: Seq<bool>) -> nat
    decreases outcomes.len(),
{
    if outcomes.len() == 0 {
        0
    } else {
        freed_bytes(queue, outcomes.drop_last()) + if outcomes.last() {
            queue[outcomes.len() - 1].disk_size as nat
        } else {
            0nat
        }
    }
}

/// A tally counts the sessions that were removed, and no others, and the bytes
/// that they took, as far as its counters reach.
pub proof fn tally_counts_removed_sessions(
    tally: Tally,
    queue: Seq<SessionInfo>,
    outcomes: Seq<bool>,
)
    requires
        outcomes.len() <= queue.len(),
    ensures
        tally_over(tally, queue, outcomes).pruned == at_most(
            tally.pruned + successes(outcomes),
            usize::MAX as int,
        ),
        tally_over(tally, queue, outcomes).pruned_bytes == at_most(
            tally.pruned_bytes + freed_bytes(queue, outcomes),
            u64::MAX as int,
        ),
    decreases outcomes.len(),
{
    if outcomes.len() > 0 {
        tally_counts_removed_sessions(tally, queue, outcomes.drop_last());
    }
}

/// A silent run never says anything.
pub proof fn silent_runs_say_nothing(run: RunModel, replies: Seq<ReplyModel>, reply: ReplyModel)
    requires
        run.silent,
    ensures
        next_action(run_after(run, replies), reply) matches ActionModel::Stop(notice)
            ==> notice is None,
{
    silence_stays(run, replies);
}

/// What a run says tells of sessions that were pruned.
pub proof fn notices_tell_of_pruning(run: RunModel, reply: ReplyModel)
    ensures
        next_action(run, reply) matches ActionModel::Stop(Some(text)) ==> !run.silent && exists|
            tally: Tally,
        |
            tally.pruned > 0 && text == #[trigger] notice_text(tally),
{
}

/// How far a phase is from the end.
pub open spec fn phase_rank(phase: PhaseModel) -> nat {
    match phase {
        PhaseModel::AwaitLimits => 6,
        PhaseModel::AwaitSessions { .. } => 5,
        PhaseModel::CountPass { .. } => 4,
        PhaseModel::AwaitTotal { .. } => 3,
        PhaseModel::AwaitRemaining { .. } => 2,
        PhaseModel::StoragePass { .. } => 1,
        PhaseModel::Finished => 0,
    }
}

/// Every run ends: each reply brings it to a later phase, or leaves a pass with
/// one session less.
pub proof fn runs_end(run: RunModel, reply: ReplyModel)
    requires
        !(run.phase is Finished),
    ensures
        ({
            let next = next_run(run, reply).phase;
            phase_rank(next) < phase_rank(run.phase) || (phase_rank(next) == phase_rank(run.phase)
                && phase_queue(next).len() < phase_queue(run.phase).len())
        }),
{
}

} // verus!
