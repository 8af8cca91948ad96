use vstd::prelude::*;
use crate::day::Day;
use crate::ledger::{backfilled, days_unique, has_day, latest_of, overwrite_day, sole_record, upsert, MoodRecord};
use crate::mood::Ambition;

verus! {

/// Setting a day's mood keeps at most one record per day, and leaves a record for that day.
pub proof fn lemma_upsert_keeps_days_unique(s: Seq<MoodRecord>, next_id: u64, d: Day, m: Ambition)
    requires
        days_unique(s),
    ensures
        days_unique(upsert(s, next_id, d, m)),
        has_day(upsert(s, next_id, d, m), d),
{
    let t = upsert(s, next_id, d, m);
    if has_day(s, d) {
        let i = choose|i: int| 0 <= i < s.len() && s[i].day == d;
        assert(t[i].day == d);
        assert forall|a: int, b: int|
            0 <= a < t.len() && 0 <= b < t.len() && t[a].day == t[b].day implies a == b by {
            assert(t[a].day == s[a].day && t[b].day == s[b].day);
        }
    } else {
        let n = s.len() as int;
        assert(t[n].day == d);
        assert forall|a: int, b: int|
            0 <= a < t.len() && 0 <= b < t.len() && t[a].day == t[b].day implies a == b by {
            if a < n && b == n {
                assert(s[a].day == d);
            } else if b < n && a == n {
                assert(s[b].day == d);
            }
        }
    }
}

/// Back-filling a day that has no record creates exactly one record, the only one
/// for that day, holding the default mood.
pub proof fn lemma_backfill_creates_one(s: Seq<MoodRecord>, next_id: u64, d: Day)
    requires
        !has_day(s, d),
    ensures
        backfilled(s, next_id, d, Ambition::Unmotivated).len() == s.len() + 1,
        sole_record(backfilled(s, next_id, d, Ambition::Unmotivated), d, Ambition::Unmotivated),
{
    crate::ledger::lemma_new_day_sole(s, next_id, d, Ambition::Unmotivated);
}

/// Back-filling a day that already has a record changes nothing, whatever the mood.
pub proof fn lemma_backfill_existing_is_noop(s: Seq<MoodRecord>, next_id: u64, d: Day, m: Ambition)
    requires
        has_day(s, d),
    ensures
        backfilled(s, next_id, d, m) == s,
{
}

/// Setting a day's mood twice in a row leaves exactly one record for the day, with
/// the second mood.
pub proof fn lemma_set_mood_twice(
    s: Seq<MoodRecord>,
    first_id: u64,
    second_id: u64,
    d: Day,
    m1: Ambition,
    m2: Ambition,
)
    requires
        days_unique(s),
    ensures
        sole_record(upsert(upsert(s, first_id, d, m1), second_id, d, m2), d, m2),
{
    let t = upsert(s, first_id, d, m1);
    lemma_upsert_keeps_days_unique(s, first_id, d, m1);
    let u = upsert(t, second_id, d, m2);
    assert(u == overwrite_day(t, d, m2));
    let i = choose|i: int| 0 <= i < t.len() && t[i].day == d;
    assert(u[i].day == d && u[i].mood == m2);
    assert forall|j: int| 0 <= j < u.len() && u[j].day == d implies j == i by {
        assert(t[j].day == d);
    }
}

/// The latest mood of an empty store is unmotivated; after setting a day's mood to
/// motivated it is motivated, where that day had no record or had the latest one.
pub proof fn lemma_latest_after_set_motivated(s: Seq<MoodRecord>, next_id: u64, d: Day)
    requires
        !has_day(s, d) || (s.len() > 0 && s.last().day == d),
    ensures
        latest_of(Seq::<MoodRecord>::empty()) == Ambition::Unmotivated,
        latest_of(upsert(s, next_id, d, Ambition::Motivated)) == Ambition::Motivated,
{
    if has_day(s, d) {
        let t = upsert(s, next_id, d, Ambition::Motivated);
        assert(t[t.len() - 1].mood == Ambition::Motivated);
    }
}

/// Back-filling the same day twice gives what back-filling it once gives.
pub proof fn lemma_backfill_twice(
    s: Seq<MoodRecord>,
    first_id: u64,
    second_id: u64,
    d: Day,
    m1: Ambition,
    m2: Ambition,
)
    ensures
        backfilled(backfilled(s, first_id, d, m1), second_id, d, m2) == backfilled(s, first_id, d, m1),
{
    let t = backfilled(s, first_id, d, m1);
    if !has_day(s, d) {
        assert(t[s.len() as int].day == d);
    }
}

} // verus!
