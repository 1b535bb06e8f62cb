//! What limit enforcement does from start to end, told by what the program
//! answers and what it is told to do.

use crate::retention::{
    action_says, beyond_limit, completed, count_pass, is_completed, next_action, next_run,
    storage_pass, PhaseModel, PruneAction, PruneReply, ReplyModel, RetentionLimits, RunModel,
    Tally,
};
use crate::retention_laws::{
    count_pass_tries_each_in_turn, freed_bytes, removals, run_after, storage_pass_stops_in_time,
    successes, tally_counts_removed_sessions, tally_over, total_over,
};
use crate::session::SessionInfo;
use crate::sizes::bytes_text;
use crate::text::decimal;
use vstd::prelude::*;

verus! {

/// The run after the program gave some replies.
pub open spec fn run_on(run: RunModel, replies: Seq<PruneReply>) -> RunModel
    decreases replies.len(),
{
    if replies.len() == 0 {
        run
    } else {
        next_run(run_on(run, replies.drop_last()), replies.last()@)
    }
}

/// Whether the program is told `action` on the last of some replies.
pub open spec fn is_told(run: RunModel, replies: Seq<PruneReply>, action: PruneAction) -> bool {
    &&& replies.len() > 0
    &&& action_says(action, next_action(run_on(run, replies.drop_last()), replies.last()@))
}

/// A run that has just started.
pub open spec fn started(silent: bool, default_limits: RetentionLimits) -> RunModel {
    RunModel { silent, default_limits, phase: PhaseModel::AwaitLimits }
}

/// The replies about the configuration and the sessions.
pub open spec fn opening(
    configured: Option<RetentionLimits>,
    sessions: Vec<SessionInfo>,
) -> Seq<PruneReply> {
    seq![
        match configured {
            Some(limits) => PruneReply::Limits(limits),
            None => PruneReply::NoLimits,
        },
        PruneReply::Sessions(sessions),
    ]
}

/// The replies about removed sessions.
pub open spec fn answers(outcomes: Seq<bool>) -> Seq<PruneReply> {
    Seq::new(outcomes.len(), |i: int| PruneReply::Removed(outcomes[i]))
}

/// The completed sessions of a list.
pub open spec fn not_running(sessions: Seq<SessionInfo>) -> Seq<SessionInfo> {
    sessions.filter(|s: SessionInfo| !s.is_alive)
}

/// Whether `action` removes `session`.
pub open spec fn removes(action: PruneAction, session: SessionInfo) -> bool {
    &&& action matches PruneAction::Remove { session_id, dir }
    &&& session_id@ == session.metadata.session_id@
    &&& dir@ == session.dir@
}

/// The limits that hold for a run.
pub open spec fn limits_in_force(
    configured: Option<RetentionLimits>,
    default_limits: RetentionLimits,
) -> RetentionLimits {
    match configured {
        Some(limits) => limits,
        None => default_limits,
    }
}

// ---- from replies to their models ----
spec fn models(replies: Seq<PruneReply>) -> Seq<ReplyModel> {
    replies.map_values(|r: PruneReply| r@)
}

proof fn run_on_models(run: RunModel, replies: Seq<PruneReply>)
    ensures
        run_on(run, replies) == run_after(run, models(replies)),
    decreases replies.len(),
{
    if replies.len() > 0 {
        run_on_models(run, replies.drop_last());
        assert(models(replies).drop_last() =~= models(replies.drop_last()));
    }
}

proof fn runs_chain(run: RunModel, a: Seq<PruneReply>, b: Seq<PruneReply>)
    ensures
        run_on(run, a + b) == run_on(run_on(run, a), b),
    decreases b.len(),
{
    if b.len() == 0 {
        assert(a + b =~= a);
    } else {
        runs_chain(run, a, b.drop_last());
        assert((a + b).drop_last() =~= a + b.drop_last());
    }
}

proof fn answers_are_removals(outcomes: Seq<bool>)
    ensures
        models(answers(outcomes)) == removals(outcomes),
        outcomes.len() > 0 ==> answers(outcomes).drop_last() == answers(outcomes.drop_last()),
{
    assert(models(answers(outcomes)) =~= removals(outcomes));
    if outcomes.len() > 0 {
        assert(answers(outcomes).drop_last() =~= answers(outcomes.drop_last()));
    }
}

proof fn completed_is_not_running(sessions: Seq<SessionInfo>)
    ensures
        completed(sessions) == not_running(sessions),
{
    assert(is_completed() =~= (|s: SessionInfo| !s.is_alive));
}

proof fn after_opening(
    silent: bool,
    default_limits: RetentionLimits,
    configured: Option<RetentionLimits>,
    sessions: Vec<SessionInfo>,
)
    requires
        sessions@.len() > 0,
    ensures
        ({
            let limits = limits_in_force(configured, default_limits);
            let excess = beyond_limit(sessions@, limits.max_sessions as nat);
            let run = run_on(started(silent, default_limits), opening(configured, sessions));
            let first = run_on(
                started(silent, default_limits),
                opening(configured, sessions).drop_last(),
            );
            &&& run.phase == count_pass(limits, excess, Tally { pruned: 0, pruned_bytes: 0 }).0
            &&& next_action(first, PruneReply::Sessions(sessions)@) == count_pass(
                limits,
                excess,
                Tally { pruned: 0, pruned_bytes: 0 },
            ).1
            &&& run.silent == silent
            &&& excess == if not_running(sessions@).len() <= limits.max_sessions {
                Seq::<SessionInfo>::empty()
            } else {
                not_running(sessions@).skip(limits.max_sessions as int)
            }
        }),
{
    let start = started(silent, default_limits);
    let both = opening(configured, sessions);
    assert(both.drop_last().drop_last() =~= Seq::<PruneReply>::empty());
    assert(run_on(start, Seq::<PruneReply>::empty()) == start);
    assert(both.drop_last().last() == both[0]);
    completed_is_not_running(sessions@);
}

proof fn silent_to_the_end(run: RunModel, replies: Seq<PruneReply>)
    ensures
        run_on(run, replies).silent == run.silent,
        run_on(run, replies).default_limits == run.default_limits,
    decreases replies.len(),
{
    if replies.len() > 0 {
        silent_to_the_end(run, replies.drop_last());
    }
}

// ---- the limits ----
/// The limits that a phase goes by.
pub open spec fn phase_limits(phase: PhaseModel) -> Option<RetentionLimits> {
    match phase {
        PhaseModel::AwaitLimits => None,
        PhaseModel::AwaitSessions { limits } => Some(limits),
        PhaseModel::CountPass { limits, .. } => Some(limits),
        PhaseModel::AwaitTotal { limits, .. } => Some(limits),
        PhaseModel::AwaitRemaining { limits, .. } => Some(limits),
        PhaseModel::StoragePass { limits, .. } => Some(limits),
        PhaseModel::Finished => None,
    }
}

/// A run goes by the limits that the user has configured, or else by the
/// defaults, from the first answer to the last, and never by others.
pub proof fn runs_go_by_the_configured_limits(
    silent: bool,
    default_limits: RetentionLimits,
    configured: Option<RetentionLimits>,
    replies: Seq<PruneReply>,
)
    requires
        replies.len() > 0,
        replies[0] == match configured {
            Some(limits) => PruneReply::Limits(limits),
            None => PruneReply::NoLimits,
        },
    ensures
        phase_limits(run_on(started(silent, default_limits), replies).phase) matches Some(limits)
            ==> limits == match configured {
            Some(limits) => limits,
            None => default_limits,
        },
        !(run_on(started(silent, default_limits), replies).phase is AwaitLimits),
    decreases replies.len(),
{
    let earlier = replies.drop_last();
    if earlier.len() > 0 {
        assert(earlier[0] == replies[0]);
        runs_go_by_the_configured_limits(silent, default_limits, configured, earlier);
    } else {
        assert(run_on(started(silent, default_limits), earlier) == started(silent, default_limits));
        assert(replies.last() == replies[0]);
    }
}

/// The first thing to be done is reading the limits, then the sessions are
/// listed; if either fails, or there are no sessions, that is all, and nothing
/// is said.
pub proof fn runs_open_with_limits_and_sessions(
    silent: bool,
    default_limits: RetentionLimits,
    configured: Option<RetentionLimits>,
    sessions: Vec<SessionInfo>,
    on_limits: PruneAction,
    on_sessions: PruneAction,
)
    requires
        is_told(
            started(silent, default_limits),
            opening(configured, sessions).drop_last(),
            on_limits,
        ),
        is_told(started(silent, default_limits), opening(configured, sessions), on_sessions),
    ensures
        on_limits == (PruneAction::ListSessions { log_failure: true }),
        sessions@.len() == 0 ==> on_sessions == (PruneAction::Stop { notice: None }),
{
    let start = started(silent, default_limits);
    let both = opening(configured, sessions);
    assert(both.drop_last().drop_last() =~= Seq::<PruneReply>::empty());
    assert(run_on(start, Seq::<PruneReply>::empty()) == start);
    assert(both.drop_last().last() == both[0]);
}

/// Whatever was found out too late to go on, a run ends on a failure, and says
/// nothing.
pub proof fn failures_end_runs(run: RunModel, replies: Seq<PruneReply>, action: PruneAction)
    requires
        is_told(run, replies.push(PruneReply::Failed), action),
    ensures
        action == (PruneAction::Stop { notice: None }),
{
    assert(replies.push(PruneReply::Failed).drop_last() =~= replies);
    assert(replies.push(PruneReply::Failed).last() == PruneReply::Failed);
}

/// Exactly the excess is removed by count: of the completed sessions, in the
/// order in which they were listed, as many as the limit says are kept, and all
/// behind them are removed, one after the other, whatever comes of each. Then
/// the space is measured.
pub proof fn exactly_the_excess_is_removed(
    silent: bool,
    default_limits: RetentionLimits,
    configured: Option<RetentionLimits>,
    sessions: Vec<SessionInfo>,
    outcomes: Seq<bool>,
    action: PruneAction,
)
    requires
        sessions@.len() > 0,
        ({
            let kept = limits_in_force(configured, default_limits).max_sessions;
            outcomes.len() == 0 || kept + outcomes.len() <= sessions@.filter(
                |s: SessionInfo| !s.is_alive,
            ).len()
        }),
        is_told(
            started(silent, default_limits),
            opening(configured, sessions) + answers(outcomes),
            action,
        ),
    ensures
        ({
            let done = sessions@.filter(|s: SessionInfo| !s.is_alive);
            let kept = match configured {
                Some(limits) => limits.max_sessions,
                None => default_limits.max_sessions,
            };
            let next = kept + outcomes.len();
            if next < done.len() {
                &&& action matches PruneAction::Remove { session_id, dir }
                &&& session_id@ == done[next].metadata.session_id@
                &&& dir@ == done[next].dir@
            } else {
                action == PruneAction::MeasureStorage
            }
        }),
{
    let start = started(silent, default_limits);
    let both = opening(configured, sessions);
    let limits = limits_in_force(configured, default_limits);
    let done = not_running(sessions@);
    let excess = beyond_limit(sessions@, limits.max_sessions as nat);
    let none = Tally { pruned: 0, pruned_bytes: 0 };
    let n = outcomes.len() as int;
    assert(done == sessions@.filter(|s: SessionInfo| !s.is_alive));
    after_opening(silent, default_limits, configured, sessions);
    let run = run_on(start, both);
    if n == 0 {
        assert(both + answers(outcomes) =~= both);
        assert(both.last() == PruneReply::Sessions(sessions));
    } else {
        answers_are_removals(outcomes);
        answers_are_removals(outcomes.drop_last());
        let all = both + answers(outcomes);
        assert(all.drop_last() =~= both + answers(outcomes.drop_last()));
        assert(all.last() == PruneReply::Removed(outcomes.last()));
        runs_chain(start, both, answers(outcomes.drop_last()));
        run_on_models(run, answers(outcomes.drop_last()));
        count_pass_tries_each_in_turn(run, limits, excess, none, outcomes);
        if n < excess.len() {
            assert(excess.skip(n)[0] == done[limits.max_sessions + n]);
        }
    }
    if n == 0 && excess.len() > 0 {
        assert(excess[0] == done[limits.max_sessions as int]);
    }
}

proof fn after_count_pass(
    silent: bool,
    default_limits: RetentionLimits,
    configured: Option<RetentionLimits>,
    sessions: Vec<SessionInfo>,
    outcomes: Seq<bool>,
)
    requires
        sessions@.len() > 0,
        outcomes.len() == beyond_limit(
            sessions@,
            limits_in_force(configured, default_limits).max_sessions as nat,
        ).len(),
    ensures
        ({
            let limits = limits_in_force(configured, default_limits);
            let excess = beyond_limit(sessions@, limits.max_sessions as nat);
            let run = run_on(
                started(silent, default_limits),
                opening(configured, sessions) + answers(outcomes),
            );
            &&& run.phase == PhaseModel::AwaitTotal {
                limits,
                tally: tally_over(Tally { pruned: 0, pruned_bytes: 0 }, excess, outcomes),
            }
            &&& run.silent == silent
        }),
{
    let start = started(silent, default_limits);
    let both = opening(configured, sessions);
    let limits = limits_in_force(configured, default_limits);
    let excess = beyond_limit(sessions@, limits.max_sessions as nat);
    let none = Tally { pruned: 0, pruned_bytes: 0 };
    after_opening(silent, default_limits, configured, sessions);
    let run = run_on(start, both);
    answers_are_removals(outcomes);
    runs_chain(start, both, answers(outcomes));
    run_on_models(run, answers(outcomes));
    count_pass_tries_each_in_turn(run, limits, excess, none, outcomes);
    assert(excess.skip(outcomes.len() as int).len() == 0);
    silent_to_the_end(start, both + answers(outcomes));
}

/// The completed sessions of a list beyond the first `kept`.
pub open spec fn excess_of(sessions: Seq<SessionInfo>, kept: usize) -> Seq<SessionInfo> {
    if not_running(sessions).len() <= kept {
        Seq::empty()
    } else {
        not_running(sessions).skip(kept as int)
    }
}

/// The replies of a run up to the space that all sessions take.
pub open spec fn up_to_total(
    configured: Option<RetentionLimits>,
    sessions: Vec<SessionInfo>,
    outcomes: Seq<bool>,
    total: u64,
) -> Seq<PruneReply> {
    (opening(configured, sessions) + answers(outcomes)).push(PruneReply::Total(total))
}

/// Whether `action` ends a run in which `count` sessions that took `bytes` bytes
/// were removed: it is told if any were and the run is not silent.
pub open spec fn ends_telling(
    action: PruneAction,
    silent: bool,
    count: nat,
    bytes: nat,
) -> bool {
    let shown_count = if count > usize::MAX {
        usize::MAX as nat
    } else {
        count
    };
    let shown_bytes = if bytes > u64::MAX {
        u64::MAX as nat
    } else {
        bytes
    };
    match action {
        PruneAction::Stop { notice: Some(text) } => {
            &&& !silent && count > 0
            &&& text@ == "  Auto-pruned "@ + decimal(shown_count) + " old session(s) (freed "@
                + bytes_text(shown_bytes) + ")"@
        },
        PruneAction::Stop { notice: None } => silent || count == 0,
        _ => false,
    }
}

/// Removals are counted one by one: one that succeeded counts as one session,
/// with the bytes that it took, and one that failed does not count.
pub proof fn removals_are_counted_one_by_one(
    queue: Seq<SessionInfo>,
    outcomes: Seq<bool>,
    removed: bool,
)
    requires
        outcomes.len() < queue.len(),
    ensures
        successes(Seq::empty()) == 0,
        freed_bytes(queue, Seq::empty()) == 0,
        successes(outcomes.push(removed)) == if removed {
            successes(outcomes) + 1
        } else {
            successes(outcomes)
        },
        freed_bytes(queue, outcomes.push(removed)) == if removed {
            freed_bytes(queue, outcomes) + queue[outcomes.len() as int].disk_size as nat
        } else {
            freed_bytes(queue, outcomes)
        },
{
    assert(outcomes.push(removed).drop_last() =~= outcomes);
}

/// Once the excess was removed, the space that all sessions take is held against
/// the limit: up to the limit the run ends, and above it the sessions are listed
/// once more. What is told at the end counts the removals that succeeded, and
/// the bytes that those sessions took.
pub proof fn space_is_held_against_the_limit(
    silent: bool,
    default_limits: RetentionLimits,
    configured: Option<RetentionLimits>,
    sessions: Vec<SessionInfo>,
    outcomes: Seq<bool>,
    total: u64,
    action: PruneAction,
)
    requires
        sessions@.len() > 0,
        outcomes.len() == excess_of(
            sessions@,
            limits_in_force(configured, default_limits).max_sessions,
        ).len(),
        is_told(
            started(silent, default_limits),
            up_to_total(configured, sessions, outcomes, total),
            action,
        ),
    ensures
        ({
            let limits = match configured {
                Some(limits) => limits,
                None => default_limits,
            };
            if total > limits.max_storage_bytes {
                action == (PruneAction::ListSessions { log_failure: false })
            } else {
                ends_telling(
                    action,
                    silent,
                    successes(outcomes),
                    freed_bytes(excess_of(sessions@, limits.max_sessions), outcomes),
                )
            }
        }),
{
    let limits = limits_in_force(configured, default_limits);
    let excess = beyond_limit(sessions@, limits.max_sessions as nat);
    let before = opening(configured, sessions) + answers(outcomes);
    after_opening(silent, default_limits, configured, sessions);
    assert(excess == excess_of(sessions@, limits.max_sessions));
    after_count_pass(silent, default_limits, configured, sessions, outcomes);
    assert(before.push(PruneReply::Total(total)).drop_last() =~= before);
    tally_counts_removed_sessions(Tally { pruned: 0, pruned_bytes: 0 }, excess, outcomes);
}

/// For their space the completed sessions go from the oldest on, one after the
/// other, as long as what is left takes too much space. What is left is what
/// there was without the sessions whose removal succeeded. When it is little
/// enough, or no completed session is left, the run ends, and tells how many
/// sessions were removed altogether.
pub proof fn oldest_sessions_go_until_the_rest_fits(
    silent: bool,
    default_limits: RetentionLimits,
    configured: Option<RetentionLimits>,
    sessions: Vec<SessionInfo>,
    outcomes: Seq<bool>,
    total: u64,
    remaining: Vec<SessionInfo>,
    more: Seq<bool>,
    action: PruneAction,
)
    requires
        sessions@.len() > 0,
        outcomes.len() == excess_of(
            sessions@,
            limits_in_force(configured, default_limits).max_sessions,
        ).len(),
        total > limits_in_force(configured, default_limits).max_storage_bytes,
        more.len() <= not_running(remaining@).len(),
        forall|k: int|
            0 <= k < more.len() ==> total - #[trigger] freed_bytes(
                not_running(remaining@).reverse(),
                more.take(k),
            ) > limits_in_force(configured, default_limits).max_storage_bytes,
        is_told(
            started(silent, default_limits),
            up_to_total(configured, sessions, outcomes, total).push(
                PruneReply::Sessions(remaining),
            ) + answers(more),
            action,
        ),
    ensures
        ({
            let limits = match configured {
                Some(limits) => limits,
                None => default_limits,
            };
            let done = remaining@.filter(|s: SessionInfo| !s.is_alive);
            let n = more.len() as int;
            let freed = freed_bytes(done.reverse(), more);
            if n < done.len() && total - freed > limits.max_storage_bytes {
                &&& action matches PruneAction::Remove { session_id, dir }
                &&& session_id@ == done[done.len() - 1 - n].metadata.session_id@
                &&& dir@ == done[done.len() - 1 - n].dir@
            } else {
                ends_telling(
                    action,
                    silent,
                    successes(outcomes) + successes(more),
                    freed_bytes(excess_of(sessions@, limits.max_sessions), outcomes) + freed,
                )
            }
        }),
{
    let start = started(silent, default_limits);
    let limits = limits_in_force(configured, default_limits);
    let excess = beyond_limit(sessions@, limits.max_sessions as nat);
    let none = Tally { pruned: 0, pruned_bytes: 0 };
    let first = opening(configured, sessions) + answers(outcomes);
    let second = up_to_total(configured, sessions, outcomes, total);
    let third = second.push(PruneReply::Sessions(remaining));
    let done = not_running(remaining@);
    let queue = done.reverse();
    let n = more.len() as int;
    after_opening(silent, default_limits, configured, sessions);
    assert(excess == excess_of(sessions@, limits.max_sessions));
    after_count_pass(silent, default_limits, configured, sessions, outcomes);
    assert(second.drop_last() =~= first);
    assert(third.drop_last() =~= second);
    completed_is_not_running(remaining@);
    tally_counts_removed_sessions(none, excess, outcomes);
    let tally = tally_over(none, excess, outcomes);
    let run = run_on(start, third);
    silent_to_the_end(start, second);
    silent_to_the_end(start, third);
    assert(run.phase == storage_pass(silent, limits, queue, total, tally).0);
    totals_lose_what_was_freed(total, queue, more);
    assert forall|k: int| 0 <= k < more.len() implies #[trigger] total_over(
        total,
        queue,
        more.take(k),
    ) > limits.max_storage_bytes by {
        totals_lose_what_was_freed(total, queue, more.take(k));
        assert(total - freed_bytes(queue, more.take(k)) > limits.max_storage_bytes);
    }
    storage_pass_stops_in_time(run, limits, queue, total, tally, more);
    tally_counts_removed_sessions(tally, queue, more);
    if n == 0 {
        assert(third + answers(more) =~= third);
        assert(queue.skip(0) =~= queue);
        assert(more =~= Seq::<bool>::empty());
    } else {
        let all = third + answers(more);
        answers_are_removals(more);
        answers_are_removals(more.drop_last());
        assert(all.drop_last() =~= third + answers(more.drop_last()));
        assert(all.last() == PruneReply::Removed(more.last()));
        runs_chain(start, third, answers(more.drop_last()));
        run_on_models(run, answers(more.drop_last()));
    }
    if n < queue.len() {
        assert(queue.skip(n)[0] == queue[n]);
        assert(queue[n] == done[done.len() - 1 - n]);
    }
}

proof fn totals_lose_what_was_freed(total: u64, queue: Seq<SessionInfo>, outcomes: Seq<bool>)
    requires
        outcomes.len() <= queue.len(),
    ensures
        total_over(total, queue, outcomes) == if freed_bytes(queue, outcomes) > total {
            0
        } else {
            total - freed_bytes(queue, outcomes)
        },
    decreases outcomes.len(),
{
    if outcomes.len() > 0 {
        totals_lose_what_was_freed(total, queue, outcomes.drop_last());
    }
}

} // verus!
