//! Replay of the event store, and its comparison with the current state.
use vstd::prelude::*;
use crate::text::{str_eq, i64_to_text, signed_decimal, saturating_sub_i64, saturating_diff};

verus! {

/// The counts of the events seen in a replay.
#[derive(Debug)]
pub struct ReplaySummary {
    pub events_processed: i64,
    pub lock_acquired: i64,
    pub lock_released: i64,
    pub changeset_visible: i64,
    pub changeset_approved: i64,
    pub changeset_promoted: i64,
}

impl Default for ReplaySummary {
    fn default() -> (r: Self)
        ensures
            r.events_processed == 0 && r.lock_acquired == 0 && r.lock_released == 0 && r.changeset_visible == 0
                && r.changeset_approved == 0 && r.changeset_promoted == 0,
    {
        ReplaySummary {
            events_processed: 0,
            lock_acquired: 0,
            lock_released: 0,
            changeset_visible: 0,
            changeset_approved: 0,
            changeset_promoted: 0,
        }
    }
}

/// The replay compared with the state.
#[derive(Debug)]
pub struct ReplayVerification {
    pub summary: ReplaySummary,
    pub current_locks: i64,
    pub current_visible_changesets: i64,
    pub consistency_ok: bool,
    pub mismatches: Vec<String>,
}

/// The number of events of `events` whose type is `a` or `b`.
pub open spec fn count_types(events: Seq<Seq<char>>, a: Seq<char>, b: Seq<char>) -> nat
    decreases events.len(),
{
    if events.len() == 0 {
        0
    } else {
        count_types(events.drop_last(), a, b) + if events.last() == a || events.last() == b {
            1nat
        } else {
            0nat
        }
    }
}

proof fn lemma_count_bound(events: Seq<Seq<char>>, a: Seq<char>, b: Seq<char>)
    ensures
        count_types(events, a, b) <= events.len(),
    decreases events.len(),
{
    if events.len() > 0 {
        lemma_count_bound(events.drop_last(), a, b);
    }
}

pub open spec fn types(s: Seq<String>) -> Seq<Seq<char>> {
    s.map_values(|x: String| x@)
}

/// The summary of a replay of events of the given types, in order: each
/// event counts once, and once more under its kind.
pub open spec fn tallies(events: Seq<Seq<char>>, r: ReplaySummary) -> bool {
    &&& r.events_processed == events.len()
    &&& r.lock_acquired == count_types(events, "LOCK_ACQUIRED"@, "LOCK_ACQUIRED"@)
    &&& r.lock_released == count_types(events, "LOCK_RELEASED"@, "LOCK_FORCE_RELEASED"@)
    &&& r.changeset_visible == count_types(events, "CHANGESET_VISIBLE"@, "ROLLBACK_VISIBLE"@)
    &&& r.changeset_approved == count_types(events, "CHANGESET_APPROVED"@, "CHANGESET_APPROVED"@)
    &&& r.changeset_promoted == count_types(events, "CHANGESET_PROMOTED"@, "CHANGESET_PROMOTED"@)
}

/// The summary of a replay of events of the given types, in order.
pub fn tally(event_types: &Vec<String>) -> (r: ReplaySummary)
    requires
        event_types@.len() <= i64::MAX,
    ensures
        tallies(types(event_types@), r),
{
    let mut r = ReplaySummary::default();
    let ghost all = types(event_types@);
    let mut i: usize = 0;
    proof {
        assert(all.take(0) =~= Seq::<Seq<char>>::empty());
    }
    while i < event_types.len()
        invariant
            all == types(event_types@),
            all.len() <= i64::MAX,
            i <= all.len(),
            tallies(all.take(i as int), r),
        decreases all.len() - i,
    {
        let ghost pre = all.take(i as int);
        proof {
            assert(all.take(i + 1).drop_last() =~= pre);
            assert(all.take(i + 1).last() == event_types@[i as int]@);
            lemma_count_bound(pre, "LOCK_ACQUIRED"@, "LOCK_ACQUIRED"@);
            lemma_count_bound(pre, "LOCK_RELEASED"@, "LOCK_FORCE_RELEASED"@);
            lemma_count_bound(pre, "CHANGESET_VISIBLE"@, "ROLLBACK_VISIBLE"@);
            lemma_count_bound(pre, "CHANGESET_APPROVED"@, "CHANGESET_APPROVED"@);
            lemma_count_bound(pre, "CHANGESET_PROMOTED"@, "CHANGESET_PROMOTED"@);
        }
        let t = event_types[i].as_str();
        r.events_processed = r.events_processed + 1;
        if str_eq(t, "LOCK_ACQUIRED") {
            r.lock_acquired = r.lock_acquired + 1;
        } else if str_eq(t, "LOCK_RELEASED") || str_eq(t, "LOCK_FORCE_RELEASED") {
            r.lock_released = r.lock_released + 1;
        } else if str_eq(t, "CHANGESET_VISIBLE") || str_eq(t, "ROLLBACK_VISIBLE") {
            r.changeset_visible = r.changeset_visible + 1;
        } else if str_eq(t, "CHANGESET_APPROVED") {
            r.changeset_approved = r.changeset_approved + 1;
        } else if str_eq(t, "CHANGESET_PROMOTED") {
            r.changeset_promoted = r.changeset_promoted + 1;
        }
        proof {
            lemma_distinct_types();
        }
        i = i + 1;
    }
    proof {
        assert(all.take(all.len() as int) =~= all);
    }
    r
}

/// The event type names differ from one another.
proof fn lemma_distinct_types()
    ensures
        "LOCK_ACQUIRED"@ != "LOCK_RELEASED"@,
        "LOCK_ACQUIRED"@ != "LOCK_FORCE_RELEASED"@,
        "LOCK_ACQUIRED"@ != "CHANGESET_VISIBLE"@,
        "LOCK_ACQUIRED"@ != "ROLLBACK_VISIBLE"@,
        "LOCK_ACQUIRED"@ != "CHANGESET_APPROVED"@,
        "LOCK_ACQUIRED"@ != "CHANGESET_PROMOTED"@,
        "LOCK_RELEASED"@ != "CHANGESET_VISIBLE"@,
        "LOCK_RELEASED"@ != "ROLLBACK_VISIBLE"@,
        "LOCK_RELEASED"@ != "CHANGESET_APPROVED"@,
        "LOCK_RELEASED"@ != "CHANGESET_PROMOTED"@,
        "LOCK_FORCE_RELEASED"@ != "CHANGESET_VISIBLE"@,
        "LOCK_FORCE_RELEASED"@ != "ROLLBACK_VISIBLE"@,
        "LOCK_FORCE_RELEASED"@ != "CHANGESET_APPROVED"@,
        "LOCK_FORCE_RELEASED"@ != "CHANGESET_PROMOTED"@,
        "CHANGESET_VISIBLE"@ != "CHANGESET_APPROVED"@,
        "CHANGESET_VISIBLE"@ != "CHANGESET_PROMOTED"@,
        "ROLLBACK_VISIBLE"@ != "CHANGESET_APPROVED"@,
        "ROLLBACK_VISIBLE"@ != "CHANGESET_PROMOTED"@,
        "CHANGESET_APPROVED"@ != "CHANGESET_PROMOTED"@,
{
    reveal_strlit("LOCK_ACQUIRED");
    reveal_strlit("LOCK_RELEASED");
    reveal_strlit("LOCK_FORCE_RELEASED");
    reveal_strlit("CHANGESET_VISIBLE");
    reveal_strlit("ROLLBACK_VISIBLE");
    reveal_strlit("CHANGESET_APPROVED");
    reveal_strlit("CHANGESET_PROMOTED");
    assert("LOCK_ACQUIRED"@[5] != "LOCK_RELEASED"@[5]);
    assert("LOCK_ACQUIRED"@.len() != "LOCK_FORCE_RELEASED"@.len());
    assert("LOCK_ACQUIRED"@[0] != "CHANGESET_VISIBLE"@[0]);
    assert("LOCK_ACQUIRED"@[0] != "ROLLBACK_VISIBLE"@[0]);
    assert("LOCK_ACQUIRED"@[0] != "CHANGESET_APPROVED"@[0]);
    assert("LOCK_ACQUIRED"@[0] != "CHANGESET_PROMOTED"@[0]);
    assert("LOCK_RELEASED"@[0] != "CHANGESET_VISIBLE"@[0]);
    assert("LOCK_RELEASED"@[0] != "ROLLBACK_VISIBLE"@[0]);
    assert("LOCK_RELEASED"@[0] != "CHANGESET_APPROVED"@[0]);
    assert("LOCK_RELEASED"@[0] != "CHANGESET_PROMOTED"@[0]);
    assert("LOCK_FORCE_RELEASED"@[0] != "CHANGESET_VISIBLE"@[0]);
    assert("LOCK_FORCE_RELEASED"@[0] != "ROLLBACK_VISIBLE"@[0]);
    assert("LOCK_FORCE_RELEASED"@[0] != "CHANGESET_APPROVED"@[0]);
    assert("LOCK_FORCE_RELEASED"@[0] != "CHANGESET_PROMOTED"@[0]);
    assert("CHANGESET_VISIBLE"@[10] != "CHANGESET_APPROVED"@[10]);
    assert("CHANGESET_VISIBLE"@[10] != "CHANGESET_PROMOTED"@[10]);
    assert("ROLLBACK_VISIBLE"@[0] != "CHANGESET_APPROVED"@[0]);
    assert("ROLLBACK_VISIBLE"@[0] != "CHANGESET_PROMOTED"@[0]);
    assert("CHANGESET_APPROVED"@[10] != "CHANGESET_PROMOTED"@[10]);
}

/// The number of locks that the replay leaves held.
pub open spec fn replay_locks(s: ReplaySummary) -> i64 {
    saturating_diff(s.lock_acquired as int, s.lock_released as int)
}

/// The reports of what the replay and the state disagree on.
pub open spec fn mismatch_reports(s: ReplaySummary, current_locks: i64, current_visible: i64) -> Seq<Seq<char>> {
    let locks: Seq<Seq<char>> = if replay_locks(s) != current_locks {
        seq![
            "locks mismatch: replay_estimated="@ + signed_decimal(replay_locks(s) as int) + ", current="@
                + signed_decimal(current_locks as int),
        ]
    } else {
        Seq::empty()
    };
    let visible: Seq<Seq<char>> = if s.changeset_visible < current_visible {
        seq![
            "visible changesets mismatch: replay_visible_events="@ + signed_decimal(s.changeset_visible as int)
                + ", current_visible_changesets="@ + signed_decimal(current_visible as int),
        ]
    } else {
        Seq::empty()
    };
    locks + visible
}

/// The replay compared with the state, which holds `current_locks` locks
/// and `current_visible_changesets` visible changesets: the locks that the
/// replay leaves must be those held, and the replay must have seen at least
/// as many changesets become visible as are visible.
pub fn verification(summary: ReplaySummary, current_locks: i64, current_visible_changesets: i64) -> (r:
    ReplayVerification)
    ensures
        r.summary == summary,
        r.current_locks == current_locks,
        r.current_visible_changesets == current_visible_changesets,
        r.mismatches@.map_values(|m: String| m@) == mismatch_reports(summary, current_locks, current_visible_changesets),
        r.consistency_ok == (r.mismatches@.len() == 0),
{
    let estimated = saturating_sub_i64(summary.lock_acquired, summary.lock_released);
    let mut mismatches: Vec<String> = Vec::new();
    if estimated != current_locks {
        let mut m = "locks mismatch: replay_estimated=".to_owned();
        m.append(i64_to_text(estimated).as_str());
        m.append(", current=");
        m.append(i64_to_text(current_locks).as_str());
        mismatches.push(m);
    }
    let ghost after_locks = mismatches@;
    if summary.changeset_visible < current_visible_changesets {
        let mut m = "visible changesets mismatch: replay_visible_events=".to_owned();
        m.append(i64_to_text(summary.changeset_visible).as_str());
        m.append(", current_visible_changesets=");
        m.append(i64_to_text(current_visible_changesets).as_str());
        mismatches.push(m);
    }
    proof {
        assert(mismatches@.map_values(|m: String| m@) =~= mismatch_reports(
            summary,
            current_locks,
            current_visible_changesets,
        ));
    }
    let ok = mismatches.len() == 0;
    ReplayVerification {
        summary,
        current_locks,
        current_visible_changesets,
        consistency_ok: ok,
        mismatches,
    }
}


/// The replay agrees with the state exactly when the locks it leaves are
/// those held and it saw at least as many changesets become visible as are
/// visible.
pub proof fn consistent_iff_balanced(s: ReplaySummary, current_locks: i64, current_visible: i64)
    ensures
        mismatch_reports(s, current_locks, current_visible).len() == 0 <==> (replay_locks(s) == current_locks
            && s.changeset_visible >= current_visible),
{
}

} // verus!
