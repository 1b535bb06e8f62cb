//! What listing, locating and loading sessions comes to, field by field.

use crate::discovery::{
    audit_sessions, newest_first, newest_first_is_stable, newest_first_orders, started_before,
    starts_at,
};
use crate::errors::NonoError;
use crate::loading::{
    audit_lookup_kind, is_admission, is_load_result, is_location, loaded_as, removal_error_text,
    session_dir_path, AdmittedSession, LoadAnswers, Resolution, SessionPlace,
};
use crate::paths::{
    components, encoding_keeps_out_slash, join_adds_one_component, path_join, path_starts_with,
    FsPath,
};
use crate::session::{
    entry_session, entry_sessions, is_unreadable_root, listed_entries, root_path, session_info_of,
    FoundSession, RootListing, ScannedEntry, SessionInfo, SessionKind, SessionMetadata,
};
use crate::session_id::{acceptable_id, pid_of};
use crate::text::{bytes_before, text_before};
use vstd::prelude::*;
use vstd::utf8::*;

verus! {

// ---- describing ----
/// Whether `info` bears what was found in a session directory: the record as it
/// was read, the directory, its size, and whether the process is alive.
pub open spec fn bears(info: SessionInfo, found: FoundSession, kind: SessionKind) -> bool {
    let alive = pid_of(found.metadata.session_id@) is Some && found.running == Some(true);
    &&& info.metadata == found.metadata
    &&& info.metadata.session_id@ == found.metadata.session_id@
    &&& info.metadata.started@ == found.metadata.started@
    &&& info.metadata.ended == found.metadata.ended
    &&& info.metadata.command@ == found.metadata.command@
    &&& info.metadata.tracked_paths@ == found.metadata.tracked_paths@
    &&& info.metadata.snapshot_count == found.metadata.snapshot_count
    &&& info.metadata.exit_code == found.metadata.exit_code
    &&& info.metadata.merkle_roots@ == found.metadata.merkle_roots@
    &&& info.metadata.network_events@ == found.metadata.network_events@
    &&& info.dir == found.dir
    &&& info.disk_size == found.disk_size
    &&& info.is_alive == alive
    &&& info.is_stale == (found.metadata.ended is None && !alive)
    &&& info.kind == kind
}

/// The description of a session bears the record that was read, unchanged. The
/// session is alive if its ID names a process and that process was seen, and
/// stale if it is not alive and has not ended.
pub proof fn descriptions_bear_the_record(found: FoundSession, kind: SessionKind)
    ensures
        session_info_of(found, kind).metadata == found.metadata,
        session_info_of(found, kind).dir == found.dir,
        session_info_of(found, kind).disk_size == found.disk_size,
        session_info_of(found, kind).kind == kind,
        session_info_of(found, kind).is_alive <==> pid_of(found.metadata.session_id@) is Some
            && found.running == Some(true),
        session_info_of(found, kind).is_stale <==> found.metadata.ended is None && !(pid_of(
            found.metadata.session_id@,
        ) is Some && found.running == Some(true)),
{
}

/// A root lists one session for each entry that holds one, in the order of the
/// entries, and bearing what was found there; other entries list nothing.
pub proof fn each_record_is_listed_once(
    entries: Seq<ScannedEntry>,
    entry: ScannedEntry,
    kind: SessionKind,
)
    ensures
        entry_sessions(Seq::empty(), kind).len() == 0,
        ({
            let before = entry_sessions(entries, kind);
            let after = entry_sessions(entries.push(entry), kind);
            match entry {
                ScannedEntry::Session(found) => {
                    &&& after.len() == before.len() + 1
                    &&& after.drop_last() == before
                    &&& after.last().metadata == found.metadata
                    &&& after.last().dir == found.dir
                    &&& after.last().disk_size == found.disk_size
                    &&& after.last().kind == kind
                    &&& after.last().is_alive == (pid_of(found.metadata.session_id@) is Some
                        && found.running == Some(true))
                    &&& after.last().is_stale == (found.metadata.ended is None
                        && !after.last().is_alive)
                },
                _ => after == before,
            }
        }),
{
    let pick = |e: ScannedEntry| entry_session(e, kind);
    assert(entries.push(entry).drop_last() =~= entries);
    assert(entries.push(entry).last() == entry);
    assert(entry_sessions(entries.push(entry), kind).drop_last() =~= entry_sessions(entries, kind)
        || !(entry is Session));
}

/// Every session of a list bears what was found in the directory of some entry.
proof fn listed_sessions_were_found(
    entries: Seq<ScannedEntry>,
    kind: SessionKind,
    session: SessionInfo,
)
    requires
        entry_sessions(entries, kind).contains(session),
    ensures
        exists|i: int|
            0 <= i < entries.len() && (#[trigger] entries[i] matches ScannedEntry::Session(found)
                && bears(session, found, kind)),
    decreases entries.len(),
{
    if entries.len() == 0 {
        each_record_is_listed_once(entries, ScannedEntry::Unreadable, kind);
        assert(entries =~= Seq::<ScannedEntry>::empty());
    } else {
        let earlier = entries.drop_last();
        each_record_is_listed_once(earlier, entries.last(), kind);
        assert(entries =~= earlier.push(entries.last()));
        let all = entry_sessions(entries, kind);
        let at = choose|at: int| 0 <= at < all.len() && all[at] == session;
        if entries.last() is Session && at == all.len() - 1 {
            assert(entries[entries.len() - 1] is Session);
        } else {
            assert(entry_sessions(earlier, kind)[at] == session);
            listed_sessions_were_found(earlier, kind, session);
            let i = choose|i: int|
                0 <= i < earlier.len() && (#[trigger] earlier[i] matches ScannedEntry::Session(
                    found,
                ) && bears(session, found, kind));
            assert(entries[i] == earlier[i]);
        }
    }
}

/// What was found in the directory of an entry is listed.
proof fn found_sessions_are_listed(entries: Seq<ScannedEntry>, kind: SessionKind, i: int)
    requires
        0 <= i < entries.len(),
        entries[i] is Session,
    ensures
        exists|session: SessionInfo| #[trigger]
            entry_sessions(entries, kind).contains(session) && bears(
                session,
                entries[i]->Session_0,
                kind,
            ),
    decreases entries.len(),
{
    let earlier = entries.drop_last();
    each_record_is_listed_once(earlier, entries.last(), kind);
    assert(entries =~= earlier.push(entries.last()));
    let all = entry_sessions(entries, kind);
    if i == entries.len() - 1 {
        assert(all[all.len() - 1] == all.last());
        assert(all.contains(all.last()));
        assert(bears(all.last(), entries[i]->Session_0, kind));
    } else {
        found_sessions_are_listed(earlier, kind, i);
        let session = choose|session: SessionInfo| #[trigger]
            entry_sessions(earlier, kind).contains(session) && bears(
                session,
                earlier[i]->Session_0,
                kind,
            );
        let at = choose|at: int|
            0 <= at < entry_sessions(earlier, kind).len() && entry_sessions(earlier, kind)[at]
                == session;
        assert(all[at] == session);
        assert(all.contains(session));
    }
}

proof fn ordering_keeps_members(sessions: Seq<SessionInfo>, session: SessionInfo)
    ensures
        newest_first(sessions).contains(session) <==> sessions.contains(session),
{
    broadcast use vstd::seq_lib::group_to_multiset_ensures;

    newest_first_orders(sessions);
    assert(newest_first(sessions).contains(session) <==> newest_first(
        sessions,
    ).to_multiset().count(session) > 0);
}

/// Discovery gives the sessions of a root as they were found: each bears the
/// record, directory and size of an entry, every entry that holds a session is
/// there, and nothing else is. A root that does not exist has no sessions.
pub proof fn discovery_gives_what_was_found(listing: RootListing, kind: SessionKind)
    ensures
        ({
            let found_here = newest_first(entry_sessions(listed_entries(listing), kind));
            &&& listing is Missing ==> found_here.len() == 0
            &&& listing matches RootListing::Entries(entries) ==> {
                &&& found_here.len() == entries@.filter(|e: ScannedEntry| e is Session).len()
                &&& forall|session: SessionInfo| #[trigger]
                    found_here.contains(session) ==> exists|i: int|
                        0 <= i < entries@.len() && (
                        #[trigger] entries@[i] matches ScannedEntry::Session(found) && bears(
                            session,
                            found,
                            kind,
                        ))
                &&& forall|i: int|
                    0 <= i < entries@.len() && #[trigger] entries@[i] is Session ==> exists|
                        session: SessionInfo,
                    | #[trigger]
                        found_here.contains(session) && bears(
                            session,
                            entries@[i]->Session_0,
                            kind,
                        )
            }
        }),
{
    let entries = listed_entries(listing);
    let listed = entry_sessions(entries, kind);
    newest_first_orders(listed);
    each_record_is_listed_once(entries, ScannedEntry::Unreadable, kind);
    if let RootListing::Entries(raw) = listing {
        assert(entries == raw@);
        as_many_as_records(entries, kind);
        assert forall|session: SessionInfo| #[trigger]
            newest_first(listed).contains(session) implies exists|i: int|
            0 <= i < raw@.len() && (#[trigger] raw@[i] matches ScannedEntry::Session(found)
                && bears(session, found, kind)) by {
            ordering_keeps_members(listed, session);
            listed_sessions_were_found(entries, kind, session);
        }
        assert forall|i: int| 0 <= i < raw@.len() && #[trigger] raw@[i] is Session implies exists|
            session: SessionInfo,
        | #[trigger]
            newest_first(listed).contains(session) && bears(session, raw@[i]->Session_0, kind) by {
            found_sessions_are_listed(entries, kind, i);
            let session = choose|session: SessionInfo| #[trigger]
                listed.contains(session) && bears(session, entries[i]->Session_0, kind);
            ordering_keeps_members(listed, session);
        }
    } else {
        assert(entries =~= Seq::<ScannedEntry>::empty());
    }
}

proof fn as_many_as_records(entries: Seq<ScannedEntry>, kind: SessionKind)
    ensures
        entry_sessions(entries, kind).len() == entries.filter(
            |e: ScannedEntry| e is Session,
        ).len(),
    decreases entries.len(),
{
    reveal(Seq::filter);
    if entries.len() > 0 {
        let earlier = entries.drop_last();
        as_many_as_records(earlier, kind);
        each_record_is_listed_once(earlier, entries.last(), kind);
        assert(entries =~= earlier.push(entries.last()));
    } else {
        each_record_is_listed_once(entries, ScannedEntry::Unreadable, kind);
        assert(entries =~= Seq::<ScannedEntry>::empty());
    }
}

/// An audit listing holds the rollback sessions and the audit-only sessions,
/// each with its own kind, and nothing else, as often as they were found. Of
/// sessions with the same start the rollback sessions come first.
pub proof fn audit_listings_hold_both_kinds(
    rollbacks: RootListing,
    audits: RootListing,
    start: Seq<char>,
)
    ensures
        audit_sessions(rollbacks, audits).to_multiset() == newest_first(
            entry_sessions(listed_entries(rollbacks), SessionKind::Rollback),
        ).to_multiset().add(
            newest_first(
                entry_sessions(listed_entries(audits), SessionKind::AuditOnly),
            ).to_multiset(),
        ),
        forall|i: int, j: int|
            0 <= i < j < audit_sessions(rollbacks, audits).len() ==> !text_before(
                (#[trigger] audit_sessions(rollbacks, audits)[i]).metadata.started@,
                (#[trigger] audit_sessions(rollbacks, audits)[j]).metadata.started@,
            ),
        audit_sessions(rollbacks, audits).filter(|s: SessionInfo| s.metadata.started@ == start)
            == entry_sessions(listed_entries(rollbacks), SessionKind::Rollback).filter(
            |s: SessionInfo| s.metadata.started@ == start,
        ) + entry_sessions(listed_entries(audits), SessionKind::AuditOnly).filter(
            |s: SessionInfo| s.metadata.started@ == start,
        ),
{
    let a = entry_sessions(listed_entries(rollbacks), SessionKind::Rollback);
    let b = entry_sessions(listed_entries(audits), SessionKind::AuditOnly);
    newest_first_orders(a);
    newest_first_orders(b);
    newest_first_orders(a + b);
    vstd::seq_lib::lemma_multiset_commutative(a, b);
    sessions_come_newest_first(a + b, start);
    Seq::filter_distributes_over_add(a, b, |s: SessionInfo| s.metadata.started@ == start);
}

// ---- ordering ----
/// Sessions come newest first: where one stands ahead of another, its start is
/// the same text or a later one. None is lost, none is added, and sessions with
/// the same start stay in their order.
pub proof fn sessions_come_newest_first(sessions: Seq<SessionInfo>, start: Seq<char>)
    ensures
        newest_first(sessions).to_multiset() == sessions.to_multiset(),
        forall|i: int, j: int|
            0 <= i < j < newest_first(sessions).len() ==> !text_before(
                (#[trigger] newest_first(sessions)[i]).metadata.started@,
                (#[trigger] newest_first(sessions)[j]).metadata.started@,
            ),
        newest_first(sessions).filter(|s: SessionInfo| s.metadata.started@ == start)
            == sessions.filter(|s: SessionInfo| s.metadata.started@ == start),
{
    newest_first_orders(sessions);
    let sorted = newest_first(sessions);
    assert forall|i: int, j: int| 0 <= i < j < sorted.len() implies !text_before(
        (#[trigger] sorted[i]).metadata.started@,
        (#[trigger] sorted[j]).metadata.started@,
    ) by {
        assert(!started_before(sorted[i], sorted[j]));
    }
    newest_first_is_stable(sessions, start);
    assert(starts_at(start) =~= (|s: SessionInfo| s.metadata.started@ == start));
}

proof fn bytes_before_at(a: Seq<u8>, b: Seq<u8>) -> (k: int)
    requires
        bytes_before(a, b),
    ensures
        0 <= k <= a.len(),
        k < b.len(),
        a.take(k) == b.take(k),
        k == a.len() || a[k] < b[k],
    decreases a.len(),
{
    if a.len() == 0 || a[0] != b[0] {
        assert(a.take(0) =~= b.take(0));
        0
    } else {
        let k = bytes_before_at(a.drop_first(), b.drop_first());
        assert forall|i: int| 0 <= i < k + 1 implies a[i] == b[i] by {
            if i > 0 {
                assert(a.drop_first().take(k)[i - 1] == b.drop_first().take(k)[i - 1]);
            }
        }
        assert(a.take(k + 1) =~= b.take(k + 1));
        k + 1
    }
}

proof fn difference_decides(a: Seq<u8>, b: Seq<u8>, k: int)
    requires
        0 <= k <= a.len(),
        k < b.len(),
        a.take(k) == b.take(k),
        k == a.len() || a[k] < b[k],
    ensures
        bytes_before(a, b),
    decreases k,
{
    if k > 0 {
        assert(a[0] == a.take(k)[0] && b[0] == b.take(k)[0]);
        assert forall|i: int| 0 <= i < k - 1 implies a.drop_first()[i] == b.drop_first()[i] by {
            assert(a[i + 1] == a.take(k)[i + 1]);
            assert(b[i + 1] == b.take(k)[i + 1]);
        }
        assert(a.drop_first().take(k - 1) =~= b.drop_first().take(k - 1));
        difference_decides(a.drop_first(), b.drop_first(), k - 1);
    }
}

/// The order of texts is the lexicographic order of their encodings: the first
/// byte that differs decides, and a text comes before its continuations.
pub proof fn texts_are_ordered_by_their_first_difference(a: Seq<char>, b: Seq<char>)
    ensures
        text_before(a, b) <==> exists|k: int|
            {
                &&& 0 <= k <= encode_utf8(a).len()
                &&& k < encode_utf8(b).len()
                &&& #[trigger] encode_utf8(a).take(k) == encode_utf8(b).take(k)
                &&& k == encode_utf8(a).len() || encode_utf8(a)[k] < encode_utf8(b)[k]
            },
{
    let (x, y) = (encode_utf8(a), encode_utf8(b));
    if text_before(a, b) {
        let k = bytes_before_at(x, y);
        assert(x.take(k) == y.take(k));
    }
    if exists|k: int|
        {
            &&& 0 <= k <= x.len()
            &&& k < y.len()
            &&& #[trigger] x.take(k) == y.take(k)
            &&& k == x.len() || x[k] < y[k]
        } {
        let k = choose|k: int|
            {
                &&& 0 <= k <= x.len()
                &&& k < y.len()
                &&& #[trigger] x.take(k) == y.take(k)
                &&& k == x.len() || x[k] < y[k]
            };
        difference_decides(x, y, k);
    }
}

// ---- paths ----
/// The absolute path through some names, each behind a slash.
pub open spec fn written(names: Seq<Seq<u8>>) -> Seq<u8>
    decreases names.len(),
{
    if names.len() == 0 {
        seq![47u8]
    } else if names.len() == 1 {
        seq![47u8] + names[0]
    } else {
        written(names.drop_last()) + seq![47u8] + names.last()
    }
}

/// Whether all of some names are names: not empty, not a lone full stop, and
/// without a slash.
pub open spec fn are_names(names: Seq<Seq<u8>>) -> bool {
    forall|i: int|
        0 <= i < names.len() ==> {
            &&& (#[trigger] names[i]).len() > 0
            &&& names[i] != seq![46u8]
            &&& !names[i].contains(47u8)
        }
}

proof fn written_ends_in_a_name(names: Seq<Seq<u8>>)
    requires
        are_names(names),
        names.len() > 0,
    ensures
        written(names).len() > 1,
        written(names).last() != 47u8,
    decreases names.len(),
{
    let last = names[names.len() - 1];
    assert(last.contains(last[last.len() - 1]));
    if names.len() > 1 {
        let front = names.drop_last();
        assert forall|i: int| 0 <= i < front.len() implies (#[trigger] front[i]).len() > 0
            && front[i] != seq![46u8] && !front[i].contains(47u8) by {
            assert(front[i] == names[i]);
        }
        written_ends_in_a_name(front);
    }
}

proof fn written_components(names: Seq<Seq<u8>>)
    requires
        are_names(names),
    ensures
        components(written(names)) == seq![seq![47u8]] + names,
    decreases names.len(),
{
    if names.len() == 0 {
        reveal(Seq::filter);
        let root = seq![47u8];
        assert(root.drop_last() =~= Seq::<u8>::empty());
        let two = seq![Seq::<u8>::empty(), Seq::<u8>::empty()];
        assert(crate::paths::segments(root.drop_last()) =~= seq![Seq::<u8>::empty()]);
        assert(crate::paths::segments(root) =~= two);
        let keep = |s: Seq<u8>| crate::paths::is_name(s);
        let none = Seq::<Seq<u8>>::empty();
        assert(!keep(Seq::<u8>::empty()));
        none.lemma_filter_push(Seq::<u8>::empty(), keep);
        none.push(Seq::<u8>::empty()).lemma_filter_push(Seq::<u8>::empty(), keep);
        assert(none.filter(keep) =~= none);
        assert(none.push(Seq::<u8>::empty()).push(Seq::<u8>::empty()) =~= two);
        assert(two.filter(keep) =~= none);
        assert(components(root) =~= seq![seq![47u8]] + names);
    } else {
        let front = names.drop_last();
        let last = names[names.len() - 1];
        assert forall|i: int| 0 <= i < front.len() implies (#[trigger] front[i]).len() > 0
            && front[i] != seq![46u8] && !front[i].contains(47u8) by {
            assert(front[i] == names[i]);
        }
        written_components(front);
        assert(last.contains(last[0]));
        if front.len() > 0 {
            written_ends_in_a_name(front);
            assert(path_join(written(front), last) =~= written(names));
        } else {
            assert(path_join(written(front), last) =~= written(names));
        }
        join_adds_one_component(written(front), last);
        assert((seq![seq![47u8]] + front).push(last) =~= seq![seq![47u8]] + names);
    }
}

/// One absolute path lies within another exactly if it goes through all its
/// names, one by one, before any others. A name that merely begins like another
/// is not within it.
pub proof fn paths_lie_within_by_names(names: Seq<Seq<u8>>, base: Seq<Seq<u8>>)
    requires
        are_names(names),
        are_names(base),
    ensures
        path_starts_with(written(names), written(base)) <==> base.len() <= names.len()
            && names.take(base.len() as int) == base,
{
    written_components(names);
    written_components(base);
    let (a, b) = (components(written(names)), components(written(base)));
    if path_starts_with(written(names), written(base)) {
        assert forall|i: int| 0 <= i < base.len() implies names[i] == base[i] by {
            assert(b[i + 1] == a[i + 1]);
        }
        assert(names.take(base.len() as int) =~= base);
    }
    if base.len() <= names.len() && names.take(base.len() as int) == base {
        assert forall|i: int| 0 <= i < b.len() implies b[i] == a[i] by {
            if i > 0 {
                assert(base[i - 1] == names.take(base.len() as int)[i - 1]);
            }
        }
        assert(b =~= a.subrange(0, b.len() as int));
    }
}

/// Looking up a name below a directory puts a slash and the name behind it; an
/// absolute path stands for itself.
pub proof fn names_are_put_behind_a_slash(base: Seq<u8>, name: Seq<u8>)
    requires
        base.len() > 0,
        base.last() != 47u8,
        name.len() > 0,
        name[0] != 47u8,
    ensures
        path_join(base, name) == base + seq![47u8] + name,
        path_join(base.push(47u8), name) == base + seq![47u8] + name,
        path_join(Seq::empty(), name) == name,
        path_join(base, seq![47u8] + name) == seq![47u8] + name,
{
    assert(path_join(base, name) =~= base + seq![47u8] + name);
    assert(path_join(base.push(47u8), name) =~= base + seq![47u8] + name);
    assert(path_join(Seq::empty(), name) =~= name);
}

proof fn ascii_parts(a: Seq<char>, b: Seq<char>)
    requires
        is_ascii_chars(a),
        is_ascii_chars(b),
    ensures
        encode_utf8(a + b) == encode_utf8(a) + encode_utf8(b),
{
    assert forall|i: int| 0 <= i < (a + b).len() implies '\0' <= #[trigger] (a + b)[i]
        <= '\u{7f}' by {
        if i < a.len() {
            assert((a + b)[i] == a[i]);
        } else {
            assert((a + b)[i] == b[i - a.len()]);
        }
    }
    is_ascii_chars_encode_utf8(a);
    is_ascii_chars_encode_utf8(b);
    is_ascii_chars_encode_utf8(a + b);
    assert forall|i: int| 0 <= i < (a + b).len() implies encode_utf8(a + b)[i] == (encode_utf8(a)
        + encode_utf8(b))[i] by {
        if i < a.len() {
            assert((a + b)[i] == a[i]);
        } else {
            assert((a + b)[i] == b[i - a.len()]);
        }
    }
    assert(encode_utf8(a + b) =~= encode_utf8(a) + encode_utf8(b));
}

/// Rollback sessions live in `.nono/rollbacks` and audit-only sessions in
/// `.nono/audit` below the home directory.
pub proof fn roots_are_where_they_are_said_to_be(home: Seq<u8>)
    requires
        home.len() > 0,
        home.last() != 47u8,
    ensures
        root_path(home, SessionKind::Rollback) == home + encode_utf8("/.nono/rollbacks"@),
        root_path(home, SessionKind::AuditOnly) == home + encode_utf8("/.nono/audit"@),
{
    reveal_strlit("/.nono/rollbacks");
    reveal_strlit("/.nono/audit");
    reveal_strlit(".nono");
    reveal_strlit("rollbacks");
    reveal_strlit("audit");
    let slash = seq!['/'];
    is_ascii_chars_encode_utf8(slash);
    assert(encode_utf8(slash) =~= seq![47u8]);
    is_ascii_chars_encode_utf8(".nono"@);
    is_ascii_chars_encode_utf8("rollbacks"@);
    is_ascii_chars_encode_utf8("audit"@);
    let nono = encode_utf8(".nono"@);
    assert(nono[0] == 46u8 && nono.last() == 111u8);
    ascii_parts(slash, ".nono"@);
    ascii_parts(slash + ".nono"@, slash);
    ascii_parts(slash + ".nono"@ + slash, "rollbacks"@);
    ascii_parts(slash + ".nono"@ + slash, "audit"@);
    assert(slash + ".nono"@ + slash + "rollbacks"@ =~= "/.nono/rollbacks"@);
    assert(slash + ".nono"@ + slash + "audit"@ =~= "/.nono/audit"@);
    names_are_put_behind_a_slash(home, nono);
    let below = home + seq![47u8] + nono;
    assert(below.last() == nono.last());
    names_are_put_behind_a_slash(below, encode_utf8("rollbacks"@));
    names_are_put_behind_a_slash(below, encode_utf8("audit"@));
    assert(root_path(home, SessionKind::Rollback) =~= home + encode_utf8("/.nono/rollbacks"@));
    assert(root_path(home, SessionKind::AuditOnly) =~= home + encode_utf8("/.nono/audit"@));
}

/// The directory of a session is its root, a slash, and its ID.
pub proof fn session_directories_are_named_by_the_id(root: Seq<u8>, id: Seq<char>)
    requires
        root.len() > 0,
        root.last() != 47u8,
        acceptable_id(id, '/'),
    ensures
        session_dir_path(root, id) == root + seq![47u8] + encode_utf8(id),
{
    encoding_keeps_out_slash(id);
    encode_utf8_first_scalar(id);
    let name = encode_utf8(id);
    assert(name.len() > 0);
    assert(name.contains(name[0]));
    names_are_put_behind_a_slash(root, name);
}

// ---- locating and loading ----
/// Locating a session: an ID that is empty, or that holds a separator, a slash,
/// two full stops in a row or NUL, is refused, by its name; otherwise the home
/// directory must be known, and the place is the directory of the ID below the
/// root of the kind.
pub proof fn sessions_are_located_by_id_and_home(
    r: Result<SessionPlace, NonoError>,
    home: Option<FsPath>,
    separator: char,
    id: Seq<char>,
    kind: SessionKind,
)
    requires
        is_location(r, home, separator, id, kind),
    ensures
        ({
            let fine = id.len() > 0 && forall|i: int|
                0 <= i < id.len() ==> #[trigger] id[i] != separator && id[i] != '/' && id[i] != '\0'
                    && !(id[i] == '.' && i + 1 < id.len() && id[i + 1] == '.');
            match r {
                Ok(place) => {
                    &&& fine
                    &&& home matches Some(home) && place.root@ == root_path(home@, kind)
                    &&& place.dir@ == path_join(place.root@, encode_utf8(id))
                    &&& place.kind == kind
                },
                Err(NonoError::HomeNotFound) => fine && home is None,
                Err(NonoError::SessionNotFound(text)) => !fine && text@ == if id.len() == 0 {
                    "empty session ID"@
                } else {
                    "invalid session ID: "@ + id
                },
                Err(NonoError::Snapshot(_)) => false,
            }
        }),
{
    ids_are_acceptable_character_by_character(id, separator);
}

/// An ID is acceptable if it is not empty and no character of it is a separator,
/// a slash, NUL, or a full stop with another behind it.
pub proof fn ids_are_acceptable_character_by_character(id: Seq<char>, separator: char)
    ensures
        acceptable_id(id, separator) <==> id.len() > 0 && forall|i: int|
            0 <= i < id.len() ==> #[trigger] id[i] != separator && id[i] != '/' && id[i] != '\0'
                && !(id[i] == '.' && i + 1 < id.len() && id[i + 1] == '.'),
{
    if id.len() > 0 && forall|i: int|
        0 <= i < id.len() ==> #[trigger] id[i] != separator && id[i] != '/' && id[i] != '\0'
            && !(id[i] == '.' && i + 1 < id.len() && id[i + 1] == '.') {
    }
    if acceptable_id(id, separator) {
        assert forall|i: int| 0 <= i < id.len() implies #[trigger] id[i] != separator && id[i]
            != '/' && id[i] != '\0' && !(id[i] == '.' && i + 1 < id.len() && id[i + 1] == '.') by {
            assert(id.contains(id[i]));
        }
    }
}

/// An audit lookup asks the rollback root where it contains the ID, and else
/// the audit root.
pub proof fn audit_lookups_ask_one_root()
    ensures
        audit_lookup_kind(true) == SessionKind::Rollback,
        audit_lookup_kind(false) == SessionKind::AuditOnly,
{
}

/// Opening a session: it is admitted exactly if its root and its directory can
/// be resolved, the directory resolves to within the root, and it exists. Then
/// it is the session at the place that was looked up. If it is refused nothing
/// but its ID is told, unless the root cannot be resolved.
pub proof fn sessions_are_admitted_within_their_root(
    r: Result<AdmittedSession, NonoError>,
    place: SessionPlace,
    root: Seq<char>,
    session_id: Seq<char>,
    resolution: Resolution,
)
    requires
        is_admission(r, place, root, session_id, resolution),
    ensures
        r is Ok <==> {
            &&& resolution.canonical_root matches Ok(resolved_root)
            &&& resolution.canonical_dir matches Some(resolved_dir)
            &&& path_starts_with(resolved_dir@, resolved_root@)
            &&& resolution.exists
        },
        r matches Ok(admitted) ==> admitted.dir == place.dir && admitted.kind == place.kind,
        r matches Err(e) ==> {
            &&& e matches NonoError::SessionNotFound(text)
            &&& text@ == match resolution.canonical_root {
                Ok(_) => session_id,
                Err(reason) => "Cannot canonicalize session root "@ + root + ": "@ + reason@,
            }
        },
{
}

/// An admitted session with its record: the record as it was read, in the
/// directory and of the kind that was admitted; an error from reading it is
/// passed on.
pub proof fn admitted_sessions_keep_their_kind(
    admitted: AdmittedSession,
    record: Result<SessionMetadata, NonoError>,
    disk_size: u64,
    running: Option<bool>,
)
    ensures
        match record {
            Err(e) => loaded_as(admitted, record, disk_size, running) == Err::<
                SessionInfo,
                NonoError,
            >(e),
            Ok(metadata) => {
                &&& loaded_as(admitted, record, disk_size, running) matches Ok(info)
                &&& info.metadata == metadata
                &&& info.dir == admitted.dir
                &&& info.kind == admitted.kind
                &&& info.disk_size == disk_size
                &&& info.is_alive == (pid_of(metadata.session_id@) is Some && running == Some(true))
                &&& info.is_stale == (metadata.ended is None && !(pid_of(
                    metadata.session_id@,
                ) is Some && running == Some(true)))
            },
        },
{
}

/// A session that is loaded has the kind of the place where it was located, lies
/// in its directory, and bears the record that was read there. It is loaded
/// exactly if it was located, may be opened, and its record can be read.
pub proof fn loaded_sessions_are_those_that_were_located(
    r: Result<SessionInfo, NonoError>,
    place: Result<SessionPlace, NonoError>,
    session_id: Seq<char>,
    answers: LoadAnswers,
)
    requires
        is_load_result(r, place, session_id, answers),
    ensures
        r is Ok <==> {
            &&& place is Ok
            &&& answers.resolution.canonical_root matches Ok(root)
            &&& answers.resolution.canonical_dir matches Some(dir)
            &&& path_starts_with(dir@, root@)
            &&& answers.resolution.exists
            &&& answers.record is Ok
        },
        r matches Ok(info) ==> {
            &&& place matches Ok(place)
            &&& info.kind == place.kind
            &&& info.dir == place.dir
            &&& answers.record == Ok::<SessionMetadata, NonoError>(info.metadata)
            &&& info.disk_size == answers.disk_size
        },
        r matches Err(e) ==> match place {
            Err(located) => e == located,
            Ok(_) => {
                ||| answers.record == Err::<SessionMetadata, NonoError>(e)
                ||| e is SessionNotFound
            },
        },
{
    if let Ok(place) = place {
        let admission = choose|admission: Result<AdmittedSession, NonoError>|
            {
                &&& #[trigger] is_admission(
                    admission,
                    place,
                    answers.root,
                    session_id,
                    answers.resolution,
                )
                &&& r == match admission {
                    Err(e) => Err(e),
                    Ok(admitted) => loaded_as(
                        admitted,
                        answers.record,
                        answers.disk_size,
                        answers.running,
                    ),
                }
            };
        sessions_are_admitted_within_their_root(
            admission,
            place,
            answers.root,
            session_id,
            answers.resolution,
        );
        if let Ok(admitted) = admission {
            admitted_sessions_keep_their_kind(
                admitted,
                answers.record,
                answers.disk_size,
                answers.running,
            );
        }
    }
}

/// What is said of roots that cannot be read and of sessions that cannot be
/// removed, word by word.
pub proof fn failures_name_directory_and_reason(
    r: Result<Vec<SessionInfo>, NonoError>,
    dir: Seq<char>,
    listing: RootListing,
    reason: Seq<char>,
)
    ensures
        is_unreadable_root(r, dir, listing) ==> {
            &&& listing matches RootListing::Unreadable(why)
            &&& r matches Err(NonoError::Snapshot(text))
            &&& text@ == "Failed to read session directory "@ + dir + ": "@ + why@
        },
        removal_error_text(dir, reason) == "Failed to remove session directory "@ + dir + ": "@
            + reason,
{
}

} // verus!
