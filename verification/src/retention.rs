//! Retention of rollback sessions: how many are kept, and how much space they
//! may take.
//!
//! A [`PruneRun`] decides what is done next. The program around it carries the
//! action out and hands the answer back, until the run stops.

use crate::lists::reversed;
use crate::paths::FsPath;
use crate::session::SessionInfo;
use crate::sizes::{bytes_text, format_bytes};
use crate::text::{decimal, decimal_string, joined};
use vstd::prelude::*;
use vstd::string::*;

verus! {

/// How much rollback history is kept.
#[derive(Debug, Clone, Copy, PartialEq, Eq)]
pub struct RetentionLimits {
    /// How many completed sessions are kept.
    pub max_sessions: usize,
    /// How many bytes the rollback sessions may take together.
    pub max_storage_bytes: u64,
}

/// What was pruned so far.
#[derive(Debug, Clone, Copy, PartialEq, Eq)]
pub struct Tally {
    /// How many sessions were removed.
    pub pruned: usize,
    /// How many bytes they took.
    pub pruned_bytes: u64,
}

/// How far a run has come.
#[derive(Debug, PartialEq, Eq)]
pub enum PrunePhase {
    /// The limits are being read.
    AwaitLimits,
    /// The sessions are being listed.
    AwaitSessions { limits: RetentionLimits },
    /// Sessions beyond the number that is kept are being removed: those in
    /// `stack`, from its end, the last of which is being removed right now.
    CountPass { limits: RetentionLimits, stack: Vec<SessionInfo>, tally: Tally },
    /// The space that all sessions take is being measured.
    AwaitTotal { limits: RetentionLimits, tally: Tally },
    /// The sessions are being listed again, because they take too much space.
    AwaitRemaining { limits: RetentionLimits, total: u64, tally: Tally },
    /// Sessions are being removed until the rest takes little enough space:
    /// those in `stack`, from its end, the last of which is being removed
    /// right now.
    StoragePass {
        limits: RetentionLimits,
        stack: Vec<SessionInfo>,
        current_total: u64,
        tally: Tally,
    },
    /// Nothing is left to do.
    Finished,
}

/// A run of limit enforcement.
#[derive(Debug, PartialEq, Eq)]
pub struct PruneRun {
    /// Whether nothing is to be said about what was pruned.
    pub silent: bool,
    /// The limits where the user has configured none.
    pub default_limits: RetentionLimits,
    /// How far the run has come.
    pub phase: PrunePhase,
}

/// What the program is to do next.
#[derive(Debug, PartialEq, Eq)]
pub enum PruneAction {
    /// Read the limits from the user's configuration.
    LoadLimits,
    /// List the rollback sessions, newest first. A failure goes to the log if
    /// `log_failure` says so.
    ListSessions { log_failure: bool },
    /// Remove the session directory `dir`.
    Remove { session_id: String, dir: FsPath },
    /// Measure the space that all rollback sessions take.
    MeasureStorage,
    /// Stop, and print the notice if there is one.
    Stop { notice: Option<String> },
}

/// What came of an action.
#[derive(Debug, PartialEq, Eq)]
pub enum PruneReply {
    /// The configured limits.
    Limits(RetentionLimits),
    /// The user has configured no limits.
    NoLimits,
    /// The sessions, newest first.
    Sessions(Vec<SessionInfo>),
    /// Whether the session directory was removed.
    Removed(bool),
    /// The space that all sessions take.
    Total(u64),
    /// The limits, the sessions or the space could not be found out.
    Failed,
}

// ---- model ----
/// [`PrunePhase`], with the sessions that are still to be removed in the order
/// in which they go.
pub enum PhaseModel {
    AwaitLimits,
    AwaitSessions { limits: RetentionLimits },
    CountPass { limits: RetentionLimits, queue: Seq<SessionInfo>, tally: Tally },
    AwaitTotal { limits: RetentionLimits, tally: Tally },
    AwaitRemaining { limits: RetentionLimits, total: u64, tally: Tally },
    StoragePass {
        limits: RetentionLimits,
        queue: Seq<SessionInfo>,
        current_total: u64,
        tally: Tally,
    },
    Finished,
}

/// [`PruneRun`] with its phase as a [`PhaseModel`].
pub struct RunModel {
    pub silent: bool,
    pub default_limits: RetentionLimits,
    pub phase: PhaseModel,
}

/// [`PruneAction`], with the session to be removed and the notice's text.
pub enum ActionModel {
    LoadLimits,
    ListSessions { log_failure: bool },
    Remove(SessionInfo),
    MeasureStorage,
    Stop(Option<Seq<char>>),
}

/// [`PruneReply`] with the sessions as a sequence.
pub enum ReplyModel {
    Limits(RetentionLimits),
    NoLimits,
    Sessions(Seq<SessionInfo>),
    Removed(bool),
    Total(u64),
    Failed,
}

impl View for PrunePhase {
    type V = PhaseModel;

    open spec fn view(&self) -> PhaseModel {
        match *self {
            PrunePhase::AwaitLimits => PhaseModel::AwaitLimits,
            PrunePhase::AwaitSessions { limits } => PhaseModel::AwaitSessions { limits },
            PrunePhase::CountPass { limits, stack, tally } => PhaseModel::CountPass {
                limits,
                queue: stack@.reverse(),
                tally,
            },
            PrunePhase::AwaitTotal { limits, tally } => PhaseModel::AwaitTotal { limits, tally },
            PrunePhase::AwaitRemaining { limits, total, tally } => PhaseModel::AwaitRemaining {
                limits,
                total,
                tally,
            },
            PrunePhase::StoragePass { limits, stack, current_total, tally } => {
                PhaseModel::StoragePass { limits, queue: stack@.reverse(), current_total, tally }
            },
            PrunePhase::Finished => PhaseModel::Finished,
        }
    }
}

impl View for PruneRun {
    type V = RunModel;

    open spec fn view(&self) -> RunModel {
        RunModel {
            silent: self.silent,
            default_limits: self.default_limits,
            phase: self.phase@,
        }
    }
}

impl View for PruneReply {
    type V = ReplyModel;

    open spec fn view(&self) -> ReplyModel {
        match *self {
            PruneReply::Limits(limits) => ReplyModel::Limits(limits),
            PruneReply::NoLimits => ReplyModel::NoLimits,
            PruneReply::Sessions(sessions) => ReplyModel::Sessions(sessions@),
            PruneReply::Removed(removed) => ReplyModel::Removed(removed),
            PruneReply::Total(total) => ReplyModel::Total(total),
            PruneReply::Failed => ReplyModel::Failed,
        }
    }
}

/// Whether `action` says what `model` says.
pub open spec fn action_says(action: PruneAction, model: ActionModel) -> bool {
    match (action, model) {
        (PruneAction::LoadLimits, ActionModel::LoadLimits) => true,
        (
            PruneAction::ListSessions { log_failure },
            ActionModel::ListSessions { log_failure: due },
        ) => log_failure == due,
        (PruneAction::Remove { session_id, dir }, ActionModel::Remove(session)) => {
            session_id@ == session.metadata.session_id@ && dir@ == session.dir@
        },
        (PruneAction::MeasureStorage, ActionModel::MeasureStorage) => true,
        (PruneAction::Stop { notice }, ActionModel::Stop(text)) => match (notice, text) {
            (Some(notice), Some(text)) => notice@ == text,
            (None, None) => true,
            _ => false,
        },
        _ => false,
    }
}

/// The test for a session that may be pruned: its process is not running.
pub open spec fn is_completed() -> spec_fn(SessionInfo) -> bool {
    |s: SessionInfo| !s.is_alive
}

/// The completed sessions of a listing, in its order.
pub open spec fn completed(sessions: Seq<SessionInfo>) -> Seq<SessionInfo> {
    sessions.filter(is_completed())
}

/// The completed sessions of a listing beyond the first `max_sessions`.
pub open spec fn beyond_limit(sessions: Seq<SessionInfo>, max_sessions: nat) -> Seq<SessionInfo> {
    if completed(sessions).len() <= max_sessions {
        Seq::empty()
    } else {
        completed(sessions).skip(max_sessions as int)
    }
}

/// `n`, or the largest number that a counter holds.
pub open spec fn at_most(n: int, max: int) -> int {
    if n > max {
        max
    } else {
        n
    }
}

/// The tally once a session is, or is not, removed.
pub open spec fn tally_with(tally: Tally, session: SessionInfo, removed: bool) -> Tally {
    if removed {
        Tally {
            pruned: at_most(tally.pruned + 1, usize::MAX as int) as usize,
            pruned_bytes: at_most(
                tally.pruned_bytes + session.disk_size,
                u64::MAX as int,
            ) as u64,
        }
    } else {
        tally
    }
}

/// The space that is taken once a session is, or is not, removed.
pub open spec fn total_without(total: u64, session: SessionInfo, removed: bool) -> u64 {
    if !removed {
        total
    } else if total < session.disk_size {
        0
    } else {
        (total - session.disk_size) as u64
    }
}

/// What is said about what was pruned.
pub open spec fn notice_text(tally: Tally) -> Seq<char> {
    "  Auto-pruned "@ + decimal(tally.pruned as nat) + " old session(s) (freed "@ + bytes_text(
        tally.pruned_bytes as nat,
    ) + ")"@
}

/// The end of a run: something is said if anything was pruned and the run is
/// not silent.
pub open spec fn finish(silent: bool, tally: Tally) -> (PhaseModel, ActionModel) {
    (
        PhaseModel::Finished,
        ActionModel::Stop(
            if tally.pruned > 0 && !silent {
                Some(notice_text(tally))
            } else {
                None
            },
        ),
    )
}

/// The end of a run that found out too little to go on: nothing is said.
pub open spec fn give_up() -> (PhaseModel, ActionModel) {
    (PhaseModel::Finished, ActionModel::Stop(None))
}

/// Removing what is beyond the number of sessions that is kept: one session
/// after the other, and when none is left the space is measured.
pub open spec fn count_pass(
    limits: RetentionLimits,
    queue: Seq<SessionInfo>,
    tally: Tally,
) -> (PhaseModel, ActionModel) {
    if queue.len() == 0 {
        (PhaseModel::AwaitTotal { limits, tally }, ActionModel::MeasureStorage)
    } else {
        (PhaseModel::CountPass { limits, queue, tally }, ActionModel::Remove(queue[0]))
    }
}

/// Removing sessions for their space: one after the other, until the rest takes
/// little enough or none is left.
pub open spec fn storage_pass(
    silent: bool,
    limits: RetentionLimits,
    queue: Seq<SessionInfo>,
    current_total: u64,
    tally: Tally,
) -> (PhaseModel, ActionModel) {
    if queue.len() == 0 || current_total <= limits.max_storage_bytes {
        finish(silent, tally)
    } else {
        (
            PhaseModel::StoragePass { limits, queue, current_total, tally },
            ActionModel::Remove(queue[0]),
        )
    }
}

/// What follows on a reply. A reply to a question that was not asked ends the
/// run.
pub open spec fn next_phase(run: RunModel, reply: ReplyModel) -> (PhaseModel, ActionModel) {
    match (run.phase, reply) {
        (PhaseModel::AwaitLimits, ReplyModel::Limits(limits)) => (
            PhaseModel::AwaitSessions { limits },
            ActionModel::ListSessions { log_failure: true },
        ),
        (PhaseModel::AwaitLimits, ReplyModel::NoLimits) => (
            PhaseModel::AwaitSessions { limits: run.default_limits },
            ActionModel::ListSessions { log_failure: true },
        ),
        (PhaseModel::AwaitSessions { limits }, ReplyModel::Sessions(sessions)) => {
            if sessions.len() == 0 {
                give_up()
            } else {
                count_pass(
                    limits,
                    beyond_limit(sessions, limits.max_sessions as nat),
                    Tally { pruned: 0, pruned_bytes: 0 },
                )
            }
        },
        (PhaseModel::CountPass { limits, queue, tally }, ReplyModel::Removed(removed)) => {
            if queue.len() == 0 {
                give_up()
            } else {
                count_pass(limits, queue.drop_first(), tally_with(tally, queue[0], removed))
            }
        },
        (PhaseModel::AwaitTotal { limits, tally }, ReplyModel::Total(total)) => {
            if total > limits.max_storage_bytes {
                (
                    PhaseModel::AwaitRemaining { limits, total, tally },
                    ActionModel::ListSessions { log_failure: false },
                )
            } else {
                finish(run.silent, tally)
            }
        },
        (PhaseModel::AwaitRemaining { limits, total, tally }, ReplyModel::Sessions(sessions)) => {
            storage_pass(run.silent, limits, completed(sessions).reverse(), total, tally)
        },
        (
            PhaseModel::StoragePass { limits, queue, current_total, tally },
            ReplyModel::Removed(removed),
        ) => {
            if queue.len() == 0 {
                give_up()
            } else {
                storage_pass(
                    run.silent,
                    limits,
                    queue.drop_first(),
                    total_without(current_total, queue[0], removed),
                    tally_with(tally, queue[0], removed),
                )
            }
        },
        _ => give_up(),
    }
}

/// The run that follows on a reply.
pub open spec fn next_run(run: RunModel, reply: ReplyModel) -> RunModel {
    RunModel {
        silent: run.silent,
        default_limits: run.default_limits,
        phase: next_phase(run, reply).0,
    }
}

/// The action that follows on a reply.
pub open spec fn next_action(run: RunModel, reply: ReplyModel) -> ActionModel {
    next_phase(run, reply).1
}

// ---- deciding ----
proof fn reversed_end(stack: Seq<SessionInfo>)
    requires
        stack.len() > 0,
    ensures
        stack.reverse().len() == stack.len(),
        stack.reverse()[0] == stack.last(),
        stack.reverse().drop_first() == stack.drop_last().reverse(),
{
    assert(stack.reverse().drop_first() =~= stack.drop_last().reverse());
}

fn keep_completed(sessions: Vec<SessionInfo>) -> (r: Vec<SessionInfo>)
    ensures
        r@ == completed(sessions@),
{
    let mut kept: Vec<SessionInfo> = Vec::new();
    let ghost all = sessions@;
    proof {
        reveal(Seq::filter);
        assert(all.take(0) =~= Seq::<SessionInfo>::empty());
    }
    for session in it: sessions
        invariant
            it.seq() == all,
            kept@ == completed(all.take(it.index())),
    {
        proof {
            let done = all.take(it.index());
            done.lemma_filter_push(session, is_completed());
            assert(all.take(it.index() + 1) =~= done.push(session));
        }
        if !session.is_alive {
            kept.push(session);
        }
    }
    assert(all.take(all.len() as int) =~= all);
    kept
}

fn removal_of(session: &SessionInfo) -> (r: PruneAction)
    ensures
        action_says(r, ActionModel::Remove(*session)),
{
    PruneAction::Remove {
        session_id: session.metadata.session_id.clone(),
        dir: session.dir.clone(),
    }
}

fn notice_of(tally: Tally) -> (r: String)
    ensures
        r@ == notice_text(tally),
{
    let count = decimal_string(tally.pruned as u64);
    let freed = format_bytes(tally.pruned_bytes);
    let mut text = joined("  Auto-pruned ", count.as_str());
    text.append(" old session(s) (freed ");
    text.append(freed.as_str());
    text.append(")");
    text
}

fn finished(silent: bool, tally: Tally) -> (r: (PrunePhase, PruneAction))
    ensures
        r.0@ == finish(silent, tally).0,
        action_says(r.1, finish(silent, tally).1),
{
    let notice = if tally.pruned > 0 && !silent {
        Some(notice_of(tally))
    } else {
        None
    };
    (PrunePhase::Finished, PruneAction::Stop { notice })
}

fn given_up() -> (r: (PrunePhase, PruneAction))
    ensures
        r.0@ == give_up().0,
        action_says(r.1, give_up().1),
{
    (PrunePhase::Finished, PruneAction::Stop { notice: None })
}

fn on_count_pass(limits: RetentionLimits, stack: Vec<SessionInfo>, tally: Tally) -> (r: (
    PrunePhase,
    PruneAction,
))
    ensures
        r.0@ == count_pass(limits, stack@.reverse(), tally).0,
        action_says(r.1, count_pass(limits, stack@.reverse(), tally).1),
{
    if stack.len() == 0 {
        (PrunePhase::AwaitTotal { limits, tally }, PruneAction::MeasureStorage)
    } else {
        proof {
            reversed_end(stack@);
        }
        let action = removal_of(&stack[stack.len() - 1]);
        (PrunePhase::CountPass { limits, stack, tally }, action)
    }
}

fn on_storage_pass(
    silent: bool,
    limits: RetentionLimits,
    stack: Vec<SessionInfo>,
    current_total: u64,
    tally: Tally,
) -> (r: (PrunePhase, PruneAction))
    ensures
        r.0@ == storage_pass(silent, limits, stack@.reverse(), current_total, tally).0,
        action_says(
            r.1,
            storage_pass(silent, limits, stack@.reverse(), current_total, tally).1,
        ),
{
    if stack.len() == 0 || current_total <= limits.max_storage_bytes {
        finished(silent, tally)
    } else {
        proof {
            reversed_end(stack@);
        }
        let action = removal_of(&stack[stack.len() - 1]);
        (PrunePhase::StoragePass { limits, stack, current_total, tally }, action)
    }
}

fn counted(tally: Tally, session: &SessionInfo, removed: bool) -> (r: Tally)
    ensures
        r == tally_with(tally, *session, removed),
{
    if removed {
        Tally {
            pruned: tally.pruned.saturating_add(1),
            pruned_bytes: tally.pruned_bytes.saturating_add(session.disk_size),
        }
    } else {
        tally
    }
}

impl PruneRun {
    /// Starts to enforce the limits on rollback sessions. `default_limits` hold
    /// where the user has configured none; a `silent` run says nothing.
    pub fn start(silent: bool, default_limits: RetentionLimits) -> (r: (PruneRun, PruneAction))
        ensures
            r.0@ == (RunModel { silent, default_limits, phase: PhaseModel::AwaitLimits }),
            action_says(r.1, ActionModel::LoadLimits),
    {
        (
            PruneRun { silent, default_limits, phase: PrunePhase::AwaitLimits },
            PruneAction::LoadLimits,
        )
    }

    /// Goes on once an action was carried out.
    pub fn advance(self, reply: PruneReply) -> (r: (PruneRun, PruneAction))
        ensures
            r.0@ == next_run(self@, reply@),
            action_says(r.1, next_action(self@, reply@)),
    {
        let silent = self.silent;
        let default_limits = self.default_limits;
        let (phase, action) = match (self.phase, reply) {
            (PrunePhase::AwaitLimits, PruneReply::Limits(limits)) => (
                PrunePhase::AwaitSessions { limits },
                PruneAction::ListSessions { log_failure: true },
            ),
            (PrunePhase::AwaitLimits, PruneReply::NoLimits) => (
                PrunePhase::AwaitSessions { limits: default_limits },
                PruneAction::ListSessions { log_failure: true },
            ),
            (PrunePhase::AwaitSessions { limits }, PruneReply::Sessions(sessions)) => {
                if sessions.len() == 0 {
                    given_up()
                } else {
                    let mut done = keep_completed(sessions);
                    let excess = if done.len() > limits.max_sessions {
                        let beyond = done.split_off(limits.max_sessions);
                        assert(beyond@ =~= completed(sessions@).skip(limits.max_sessions as int));
                        beyond
                    } else {
                        Vec::new()
                    };
                    assert(excess@ =~= beyond_limit(sessions@, limits.max_sessions as nat));
                    let stack = reversed(excess);
                    assert(stack@.reverse() =~= excess@);
                    on_count_pass(limits, stack, Tally { pruned: 0, pruned_bytes: 0 })
                }
            },
            (PrunePhase::CountPass { limits, stack, tally }, PruneReply::Removed(removed)) => {
                let mut rest = stack;
                match rest.pop() {
                    None => given_up(),
                    Some(session) => {
                        proof {
                            reversed_end(stack@);
                            assert(rest@ =~= stack@.drop_last());
                        }
                        on_count_pass(limits, rest, counted(tally, &session, removed))
                    },
                }
            },
            (PrunePhase::AwaitTotal { limits, tally }, PruneReply::Total(total)) => {
                if total > limits.max_storage_bytes {
                    (
                        PrunePhase::AwaitRemaining { limits, total, tally },
                        PruneAction::ListSessions { log_failure: false },
                    )
                } else {
                    finished(silent, tally)
                }
            },
            (
                PrunePhase::AwaitRemaining { limits, total, tally },
                PruneReply::Sessions(sessions),
            ) => {
                let stack = keep_completed(sessions);
                on_storage_pass(silent, limits, stack, total, tally)
            },
            (
                PrunePhase::StoragePass { limits, stack, current_total, tally },
                PruneReply::Removed(removed),
            ) => {
                let mut rest = stack;
                match rest.pop() {
                    None => given_up(),
                    Some(session) => {
                        proof {
                            reversed_end(stack@);
                            assert(rest@ =~= stack@.drop_last());
                        }
                        let total: u64 = if removed {
                            current_total.saturating_sub(session.disk_size)
                        } else {
                            current_total
                        };
                        let tally = counted(tally, &session, removed);
                        on_storage_pass(silent, limits, rest, total, tally)
                    },
                }
            },
            _ => given_up(),
        };
        (PruneRun { silent, default_limits, phase }, action)
    }
}

} // verus!
