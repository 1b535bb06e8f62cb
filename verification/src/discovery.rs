//! Listings of sessions, newest first.

use crate::errors::NonoError;
use crate::session::{
    entry_session, entry_sessions, is_unreadable_root, listed_entries, scan_session_root,
    RootListing, ScannedEntry, SessionInfo, SessionKind,
};
use crate::text::{str_before, text_before, text_order_chains, text_order_is_total};
use vstd::prelude::*;
use vstd::string::*;

verus! {

/// Whether `a` started before `b`, by the order of their start times' texts.
pub open spec fn started_before(a: SessionInfo, b: SessionInfo) -> bool {
    text_before(a.metadata.started@, b.metadata.started@)
}

/// `sessions` with `first`, which came before all of them, put in its place:
/// behind those that started later, ahead of all others.
pub open spec fn place(first: SessionInfo, sessions: Seq<SessionInfo>) -> Seq<SessionInfo>
    decreases sessions.len(),
{
    if sessions.len() == 0 || !started_before(first, sessions[0]) {
        seq![first] + sessions
    } else {
        seq![sessions[0]] + place(first, sessions.drop_first())
    }
}

/// The sessions ordered by their start, newest first; sessions with the same
/// start stay in the order in which they came.
pub open spec fn newest_first(sessions: Seq<SessionInfo>) -> Seq<SessionInfo>
    decreases sessions.len(),
{
    if sessions.len() == 0 {
        Seq::empty()
    } else {
        place(sessions[0], newest_first(sessions.drop_first()))
    }
}

/// Whether no session started before one that comes after it.
pub open spec fn is_newest_first(sessions: Seq<SessionInfo>) -> bool {
    forall|i: int, j: int|
        0 <= i < j < sessions.len() ==> !started_before(
            #[trigger] sessions[i],
            #[trigger] sessions[j],
        )
}

/// The test for a session that started at `start`.
pub open spec fn starts_at(start: Seq<char>) -> spec_fn(SessionInfo) -> bool {
    |s: SessionInfo| s.metadata.started@ == start
}

proof fn not_before_chains(a: SessionInfo, b: SessionInfo, c: SessionInfo)
    requires
        !started_before(a, b),
        !started_before(b, c),
    ensures
        !started_before(a, c),
{
    let (ta, tb, tc) = (a.metadata.started@, b.metadata.started@, c.metadata.started@);
    text_order_is_total(ta, tb);
    text_order_is_total(tb, tc);
    text_order_is_total(ta, tc);
    if started_before(a, c) && tb != tc && ta != tb {
        text_order_chains(tc, tb, ta);
    }
}

proof fn filter_ahead(first: SessionInfo, rest: Seq<SessionInfo>, keep: spec_fn(SessionInfo) -> bool)
    ensures
        (seq![first] + rest).filter(keep) == if keep(first) {
            seq![first] + rest.filter(keep)
        } else {
            rest.filter(keep)
        },
{
    Seq::filter_distributes_over_add(seq![first], rest, keep);
    reveal(Seq::filter);
    assert(seq![first].drop_last() =~= Seq::<SessionInfo>::empty());
    assert(seq![first].drop_last().filter(keep) =~= Seq::<SessionInfo>::empty());
    if keep(first) {
        assert(seq![first].filter(keep) =~= seq![first]);
    } else {
        assert(seq![first].filter(keep) =~= Seq::<SessionInfo>::empty());
        assert(Seq::<SessionInfo>::empty() + rest.filter(keep) =~= rest.filter(keep));
    }
}

proof fn place_elements(first: SessionInfo, sessions: Seq<SessionInfo>)
    ensures
        place(first, sessions).len() == sessions.len() + 1,
        place(first, sessions).to_multiset() == sessions.to_multiset().insert(first),
        forall|k: int|
            0 <= k < place(first, sessions).len() ==> #[trigger] place(first, sessions)[k] == first
                || sessions.contains(place(first, sessions)[k]),
    decreases sessions.len(),
{
    broadcast use vstd::seq_lib::group_to_multiset_ensures;

    let placed = place(first, sessions);
    if sessions.len() == 0 || !started_before(first, sessions[0]) {
        vstd::seq_lib::lemma_multiset_commutative(seq![first], sessions);
        assert(seq![first] =~= Seq::<SessionInfo>::empty().push(first));
        assert(placed.to_multiset() =~= sessions.to_multiset().insert(first));
    } else {
        let rest = sessions.drop_first();
        place_elements(first, rest);
        vstd::seq_lib::lemma_multiset_commutative(seq![sessions[0]], place(first, rest));
        vstd::seq_lib::lemma_multiset_commutative(seq![sessions[0]], rest);
        assert(seq![sessions[0]] =~= Seq::<SessionInfo>::empty().push(sessions[0]));
        assert(sessions =~= seq![sessions[0]] + rest);
        assert(placed.to_multiset() =~= sessions.to_multiset().insert(first));
        assert forall|k: int| 0 <= k < placed.len() implies #[trigger] placed[k] == first
            || sessions.contains(placed[k]) by {
            if k > 0 {
                let inner = place(first, rest)[k - 1];
                assert(placed[k] == inner);
                if inner != first {
                    let at = choose|at: int| 0 <= at < rest.len() && rest[at] == inner;
                    assert(sessions[at + 1] == inner);
                }
            }
        }
    }
}

proof fn tail_stays_in_order(sessions: Seq<SessionInfo>)
    requires
        sessions.len() > 0,
        is_newest_first(sessions),
    ensures
        is_newest_first(sessions.drop_first()),
{
    let rest = sessions.drop_first();
    assert forall|i: int, j: int| 0 <= i < j < rest.len() implies !started_before(
        #[trigger] rest[i],
        #[trigger] rest[j],
    ) by {
        assert(!started_before(sessions[i + 1], sessions[j + 1]));
    }
}

proof fn place_keeps_order(first: SessionInfo, sessions: Seq<SessionInfo>)
    requires
        is_newest_first(sessions),
    ensures
        is_newest_first(place(first, sessions)),
    decreases sessions.len(),
{
    let placed = place(first, sessions);
    if sessions.len() == 0 || !started_before(first, sessions[0]) {
        assert forall|i: int, j: int| 0 <= i < j < placed.len() implies !started_before(
            #[trigger] placed[i],
            #[trigger] placed[j],
        ) by {
            if i == 0 {
                if j > 1 {
                    assert(!started_before(sessions[0], sessions[j - 1]));
                    not_before_chains(first, sessions[0], sessions[j - 1]);
                }
            } else {
                assert(!started_before(sessions[i - 1], sessions[j - 1]));
            }
        }
    } else {
        let rest = sessions.drop_first();
        tail_stays_in_order(sessions);
        place_keeps_order(first, rest);
        place_elements(first, rest);
        let inner = place(first, rest);
        text_order_is_total(first.metadata.started@, sessions[0].metadata.started@);
        assert forall|i: int, j: int| 0 <= i < j < placed.len() implies !started_before(
            #[trigger] placed[i],
            #[trigger] placed[j],
        ) by {
            if i == 0 {
                assert(placed[j] == inner[j - 1]);
                if inner[j - 1] != first {
                    let at = choose|at: int| 0 <= at < rest.len() && rest[at] == inner[j - 1];
                    assert(!started_before(sessions[0], sessions[at + 1]));
                }
            } else {
                assert(!started_before(inner[i - 1], inner[j - 1]));
            }
        }
    }
}

proof fn place_filters(
    first: SessionInfo,
    sessions: Seq<SessionInfo>,
    keep: spec_fn(SessionInfo) -> bool,
)
    requires
        is_newest_first(sessions),
    ensures
        place(first, sessions).filter(keep) == if keep(first) {
            place(first, sessions.filter(keep))
        } else {
            sessions.filter(keep)
        },
    decreases sessions.len(),
{
    let kept = sessions.filter(keep);
    if sessions.len() == 0 || !started_before(first, sessions[0]) {
        filter_ahead(first, sessions, keep);
        if keep(first) && kept.len() > 0 {
            sessions.lemma_filter_contains_rev(keep, kept[0]);
            let at = choose|at: int| 0 <= at < sessions.len() && sessions[at] == kept[0];
            if at > 0 {
                assert(!started_before(sessions[0], sessions[at]));
                not_before_chains(first, sessions[0], sessions[at]);
            }
            assert(!started_before(first, kept[0]));
        }
    } else {
        let head = sessions[0];
        let rest = sessions.drop_first();
        assert(sessions =~= seq![head] + rest);
        tail_stays_in_order(sessions);
        place_filters(first, rest, keep);
        filter_ahead(head, rest, keep);
        filter_ahead(head, place(first, rest), keep);
        if keep(head) {
            assert(kept[0] == head);
            assert(kept.drop_first() =~= rest.filter(keep));
        }
    }
}

/// Ordering sessions keeps exactly the sessions that there were and leaves
/// none ahead of one that started later.
pub proof fn newest_first_orders(sessions: Seq<SessionInfo>)
    ensures
        is_newest_first(newest_first(sessions)),
        newest_first(sessions).to_multiset() == sessions.to_multiset(),
        newest_first(sessions).len() == sessions.len(),
    decreases sessions.len(),
{
    broadcast use vstd::seq_lib::group_to_multiset_ensures;

    if sessions.len() == 0 {
        assert(newest_first(sessions) =~= sessions);
    } else {
        let rest = sessions.drop_first();
        newest_first_orders(rest);
        place_keeps_order(sessions[0], newest_first(rest));
        place_elements(sessions[0], newest_first(rest));
        vstd::seq_lib::lemma_multiset_commutative(seq![sessions[0]], rest);
        assert(seq![sessions[0]] =~= Seq::<SessionInfo>::empty().push(sessions[0]));
        assert(sessions =~= seq![sessions[0]] + rest);
        assert(newest_first(sessions).to_multiset() =~= sessions.to_multiset());
    }
}

/// Choosing some of the sessions and ordering them can be done in either order.
pub proof fn newest_first_filters(
    sessions: Seq<SessionInfo>,
    keep: spec_fn(SessionInfo) -> bool,
)
    ensures
        newest_first(sessions).filter(keep) == newest_first(sessions.filter(keep)),
    decreases sessions.len(),
{
    reveal(Seq::filter);
    if sessions.len() > 0 {
        let rest = sessions.drop_first();
        newest_first_filters(rest, keep);
        newest_first_orders(rest);
        place_filters(sessions[0], newest_first(rest), keep);
        filter_ahead(sessions[0], rest, keep);
        assert(sessions =~= seq![sessions[0]] + rest);
        if keep(sessions[0]) {
            let kept = sessions.filter(keep);
            assert(kept[0] == sessions[0]);
            assert(kept.drop_first() =~= rest.filter(keep));
        }
    }
}

proof fn same_start_stays(sessions: Seq<SessionInfo>, start: Seq<char>)
    requires
        forall|i: int| 0 <= i < sessions.len() ==> (#[trigger] sessions[i]).metadata.started@ == start,
    ensures
        newest_first(sessions) == sessions,
    decreases sessions.len(),
{
    if sessions.len() > 0 {
        let rest = sessions.drop_first();
        assert forall|i: int| 0 <= i < rest.len() implies (#[trigger] rest[i]).metadata.started@
            == start by {
            assert(sessions[i + 1] == rest[i]);
        }
        same_start_stays(rest, start);
        text_order_is_total(start, start);
        assert(sessions =~= seq![sessions[0]] + rest);
        if rest.len() > 0 {
            assert(rest[0] == sessions[1]);
        }
    }
}

/// Sessions with the same start stay in the order in which they came.
pub proof fn newest_first_is_stable(sessions: Seq<SessionInfo>, start: Seq<char>)
    ensures
        newest_first(sessions).filter(starts_at(start)) == sessions.filter(starts_at(start)),
{
    let keep = starts_at(start);
    newest_first_filters(sessions, keep);
    let kept = sessions.filter(keep);
    assert forall|i: int| 0 <= i < kept.len() implies (#[trigger] kept[i]).metadata.started@
        == start by {
        sessions.lemma_filter_pred(keep, i);
    }
    same_start_stays(kept, start);
}

/// Orders sessions by their start, newest first.
pub fn sort_newest_first(sessions: Vec<SessionInfo>) -> (r: Vec<SessionInfo>)
    ensures
        r@ == newest_first(sessions@),
        is_newest_first(r@),
        r@.to_multiset() == sessions@.to_multiset(),
{
    let ghost all = sessions@;
    let mut left = sessions;
    let mut sorted: Vec<SessionInfo> = Vec::new();
    assert(all.take(left@.len() as int) =~= left@);
    assert(all.skip(left@.len() as int) =~= Seq::<SessionInfo>::empty());
    while left.len() > 0
        invariant
            left@.len() <= all.len(),
            left@ == all.take(left@.len() as int),
            sorted@ == newest_first(all.skip(left@.len() as int)),
        decreases left@.len(),
    {
        let ghost n = left@.len() - 1;
        let next = match left.pop() {
            Some(session) => session,
            None => return sorted,
        };
        assert(next == all[n]);
        assert(all.skip(n).drop_first() =~= all.skip(n + 1));
        assert(all.skip(n)[0] == next);
        assert(left@ =~= all.take(n));
        insert_in_place(&mut sorted, next);
    }
    assert(all.skip(0) =~= all);
    proof {
        newest_first_orders(all);
    }
    sorted
}

fn insert_in_place(sorted: &mut Vec<SessionInfo>, next: SessionInfo)
    ensures
        final(sorted)@ == place(next, old(sorted)@),
{
    let ghost all = sorted@;
    let mut i: usize = 0;
    assert(all.take(0) + place(next, all.skip(0)) =~= place(next, all)) by {
        assert(all.skip(0) =~= all);
    }
    while i < sorted.len() && str_before(
        next.metadata.started.as_str(),
        sorted[i].metadata.started.as_str(),
    )
        invariant
            i <= sorted@.len(),
            sorted@ == all,
            all.take(i as int) + place(next, all.skip(i as int)) == place(next, all),
        decreases sorted@.len() - i,
    {
        proof {
            let tail = all.skip(i as int);
            assert(tail[0] == all[i as int]);
            assert(tail.drop_first() =~= all.skip(i + 1));
            assert(all.take(i as int) + (seq![tail[0]] + place(next, all.skip(i + 1)))
                =~= all.take(i + 1) + place(next, all.skip(i + 1)));
        }
        i = i + 1;
    }
    proof {
        if i < all.len() {
            assert(all.skip(i as int)[0] == all[i as int]);
        }
        assert(all.insert(i as int, next) =~= all.take(i as int) + (seq![next] + all.skip(
            i as int,
        )));
    }
    sorted.insert(i, next);
}

/// Discover rollback sessions from a listing of `~/.nono/rollbacks/`.
///
/// Returns only sessions that have an associated rollback session directory
/// (i.e. snapshots were taken). Audit-only sessions are not included. `root`
/// is how the rollback root is shown in an error.
pub fn discover_rollback_sessions(root: &str, listing: RootListing) -> (r: Result<
    Vec<SessionInfo>,
    NonoError,
>)
    ensures
        match listing {
            RootListing::Unreadable(_) => is_unreadable_root(r, root@, listing),
            _ => r matches Ok(sessions) && sessions@ == newest_first(
                entry_sessions(listed_entries(listing), SessionKind::Rollback),
            ),
        },
{
    match scan_session_root(root, listing, SessionKind::Rollback) {
        Ok(sessions) => Ok(sort_newest_first(sessions)),
        Err(e) => Err(e),
    }
}

/// The audit-visible sessions of the two roots: the union of both, newest first.
pub open spec fn audit_sessions(rollbacks: RootListing, audits: RootListing) -> Seq<SessionInfo> {
    newest_first(
        entry_sessions(listed_entries(rollbacks), SessionKind::Rollback) + entry_sessions(
            listed_entries(audits),
            SessionKind::AuditOnly,
        ),
    )
}

/// Discover all audit-visible sessions (rollback + audit-only).
///
/// Takes listings of both `~/.nono/rollbacks/` and `~/.nono/audit/`. Rollback
/// sessions are audit sessions too (they contain the same metadata), so the
/// result is the union. `rollback_root` and `audit_root` are how the roots are
/// shown in an error.
pub fn discover_audit_sessions(
    rollback_root: &str,
    rollbacks: RootListing,
    audit_root: &str,
    audits: RootListing,
) -> (r: Result<Vec<SessionInfo>, NonoError>)
    ensures
        if rollbacks is Unreadable {
            is_unreadable_root(r, rollback_root@, rollbacks)
        } else if audits is Unreadable {
            is_unreadable_root(r, audit_root@, audits)
        } else {
            r matches Ok(sessions) && sessions@ == audit_sessions(rollbacks, audits)
        },
{
    let mut sessions = match scan_session_root(rollback_root, rollbacks, SessionKind::Rollback) {
        Ok(sessions) => sessions,
        Err(e) => return Err(e),
    };
    let mut others = match scan_session_root(audit_root, audits, SessionKind::AuditOnly) {
        Ok(sessions) => sessions,
        Err(e) => return Err(e),
    };
    sessions.append(&mut others);
    Ok(sort_newest_first(sessions))
}

/// The test for a session of `kind`.
pub open spec fn has_kind(kind: SessionKind) -> spec_fn(SessionInfo) -> bool {
    |s: SessionInfo| s.kind == kind
}

proof fn entry_kinds(entries: Seq<ScannedEntry>, kind: SessionKind, other: SessionKind)
    requires
        kind != other,
    ensures
        entry_sessions(entries, kind).filter(has_kind(kind)) == entry_sessions(entries, kind),
        entry_sessions(entries, kind).filter(has_kind(other)) == Seq::<SessionInfo>::empty(),
    decreases entries.len(),
{
    reveal(Seq::filter);
    if entries.len() > 0 {
        let before = entries.drop_last();
        entry_kinds(before, kind, other);
        if let Some(info) = entry_session(entries.last(), kind) {
            let found = entry_sessions(before, kind);
            assert(entry_sessions(entries, kind) =~= found.push(info));
            found.lemma_filter_push(info, has_kind(kind));
            found.lemma_filter_push(info, has_kind(other));
        }
    } else {
        assert(entry_sessions(entries, kind) =~= Seq::<SessionInfo>::empty());
        assert(Seq::<SessionInfo>::empty().filter(has_kind(kind)) =~= Seq::<SessionInfo>::empty());
        assert(Seq::<SessionInfo>::empty().filter(has_kind(other)) =~= Seq::<SessionInfo>::empty());
    }
}

/// Discovery in the root of a kind finds sessions of that kind alone.
pub proof fn discovered_kinds(entries: Seq<ScannedEntry>, kind: SessionKind)
    ensures
        forall|s: SessionInfo| #[trigger]
            newest_first(entry_sessions(entries, kind)).contains(s) ==> s.kind == kind,
{
    broadcast use vstd::seq_lib::group_to_multiset_ensures;

    let found = entry_sessions(entries, kind);
    newest_first_orders(found);
    let other = if kind == SessionKind::Rollback {
        SessionKind::AuditOnly
    } else {
        SessionKind::Rollback
    };
    entry_kinds(entries, kind, other);
    assert forall|s: SessionInfo| #[trigger] newest_first(found).contains(s) implies s.kind
        == kind by {
        assert(newest_first(found).to_multiset().count(s) > 0);
        assert(found.to_multiset().count(s) > 0);
        assert(found.contains(s));
        assert(found.filter(has_kind(kind)).contains(s));
        let at = choose|at: int|
            0 <= at < found.filter(has_kind(kind)).len() && found.filter(has_kind(kind))[at] == s;
        found.lemma_filter_pred(has_kind(kind), at);
    }
}

/// Audit listings show every rollback session, exactly as rollback discovery
/// shows them, and beside them the audit-only sessions in their own order.
/// Rollback discovery shows no audit-only session.
pub proof fn audit_listing_is_the_union(rollbacks: RootListing, audits: RootListing)
    ensures
        audit_sessions(rollbacks, audits).filter(has_kind(SessionKind::Rollback)) == newest_first(
            entry_sessions(listed_entries(rollbacks), SessionKind::Rollback),
        ),
        audit_sessions(rollbacks, audits).filter(has_kind(SessionKind::AuditOnly)) == newest_first(
            entry_sessions(listed_entries(audits), SessionKind::AuditOnly),
        ),
        newest_first(entry_sessions(listed_entries(rollbacks), SessionKind::Rollback)).filter(
            has_kind(SessionKind::AuditOnly),
        ) == Seq::<SessionInfo>::empty(),
{
    let rollback = entry_sessions(listed_entries(rollbacks), SessionKind::Rollback);
    let audit = entry_sessions(listed_entries(audits), SessionKind::AuditOnly);
    let is_rollback = has_kind(SessionKind::Rollback);
    let is_audit = has_kind(SessionKind::AuditOnly);
    entry_kinds(listed_entries(rollbacks), SessionKind::Rollback, SessionKind::AuditOnly);
    entry_kinds(listed_entries(audits), SessionKind::AuditOnly, SessionKind::Rollback);
    Seq::filter_distributes_over_add(rollback, audit, is_rollback);
    Seq::filter_distributes_over_add(rollback, audit, is_audit);
    newest_first_filters(rollback + audit, is_rollback);
    newest_first_filters(rollback + audit, is_audit);
    newest_first_filters(rollback, is_audit);
    assert(rollback + Seq::<SessionInfo>::empty() =~= rollback);
    assert(Seq::<SessionInfo>::empty() + audit =~= audit);
}

} // verus!
