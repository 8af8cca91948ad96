use vstd::prelude::*;
use crate::day::Day;
use crate::mood::Ambition;

verus! {

/// One stored mood: the storage-assigned id, the mood, and the day it is for.
#[derive(Debug, Clone, Copy, PartialEq, Eq, Structural)]
pub struct MoodRecord {
    pub id: u64,
    pub mood: Ambition,
    pub day: Day,
}

/// Why a write to the ledger failed.
#[derive(Debug, Clone, Copy, PartialEq, Eq, Structural)]
pub enum StorageError {
    /// Every record id has been handed out, so no record can be added.
    IdsExhausted,
}

/// The write that a storage backend performs for one day.
#[derive(Debug, Clone, Copy, PartialEq, Eq, Structural)]
pub enum StoreWrite {
    /// Add a new record for the day with this mood.
    Insert(Ambition),
    /// Overwrite the mood of the day's existing record.
    Update(Ambition),
}

/// Whether some record is for day `d`.
pub open spec fn has_day(s: Seq<MoodRecord>, d: Day) -> bool {
    exists|i: int| 0 <= i < s.len() && s[i].day == d
}

/// No two records are for the same day.
pub open spec fn days_unique(s: Seq<MoodRecord>) -> bool {
    forall|i: int, j: int|
        0 <= i < s.len() && 0 <= j < s.len() && s[i].day == s[j].day ==> i == j
}

/// Record ids grow strictly with insertion order and stay below `next_id`.
pub open spec fn ids_ordered(s: Seq<MoodRecord>, next_id: u64) -> bool {
    &&& forall|i: int, j: int| 0 <= i < j < s.len() ==> s[i].id < s[j].id
    &&& forall|i: int| 0 <= i < s.len() ==> s[i].id < next_id
}

/// A consistent store: at most one record per day, ids in insertion order.
pub open spec fn ledger_wf(s: Seq<MoodRecord>, next_id: u64) -> bool {
    days_unique(s) && ids_ordered(s, next_id)
}

/// Exactly one record is for day `d`, and it holds mood `m`.
pub open spec fn sole_record(s: Seq<MoodRecord>, d: Day, m: Ambition) -> bool {
    exists|i: int|
        0 <= i < s.len() && s[i].day == d && s[i].mood == m && (forall|j: int|
            0 <= j < s.len() && s[j].day == d ==> j == i)
}

/// The records with the mood of every record for day `d` replaced by `m`.
pub open spec fn overwrite_day(s: Seq<MoodRecord>, d: Day, m: Ambition) -> Seq<MoodRecord> {
    s.map_values(
        |r: MoodRecord|
            if r.day == d {
                MoodRecord { id: r.id, mood: m, day: r.day }
            } else {
                r
            },
    )
}

/// The records after setting the mood of day `d` to `m`: the day's record is
/// overwritten in place, or a new record with id `next_id` is appended.
pub open spec fn upsert(s: Seq<MoodRecord>, next_id: u64, d: Day, m: Ambition) -> Seq<MoodRecord> {
    if has_day(s, d) {
        overwrite_day(s, d, m)
    } else {
        s.push(MoodRecord { id: next_id, mood: m, day: d })
    }
}

/// The records after back-filling day `d` with mood `m`: unchanged where the day
/// has a record, else with a new record of id `next_id` appended.
pub open spec fn backfilled(s: Seq<MoodRecord>, next_id: u64, d: Day, m: Ambition) -> Seq<MoodRecord> {
    if has_day(s, d) {
        s
    } else {
        s.push(MoodRecord { id: next_id, mood: m, day: d })
    }
}

/// The mood of the most recently inserted record, or unmotivated when there is none.
pub open spec fn latest_of(s: Seq<MoodRecord>) -> Ambition {
    if s.len() == 0 {
        Ambition::Unmotivated
    } else {
        s.last().mood
    }
}

/// The mood recorded for day `d`, if any.
pub open spec fn mood_on(s: Seq<MoodRecord>, d: Day) -> Option<Ambition> {
    if has_day(s, d) {
        Some(s[choose|i: int| 0 <= i < s.len() && s[i].day == d].mood)
    } else {
        None
    }
}

/// Appending a record for a day that had none leaves exactly that one record for it.
pub proof fn lemma_new_day_sole(s: Seq<MoodRecord>, next_id: u64, d: Day, m: Ambition)
    requires
        !has_day(s, d),
    ensures
        sole_record(s.push(MoodRecord { id: next_id, mood: m, day: d }), d, m),
{
    let t = s.push(MoodRecord { id: next_id, mood: m, day: d });
    let n = s.len() as int;
    assert(t[n].day == d);
    assert forall|j: int| 0 <= j < t.len() && t[j].day == d implies j == n by {
        if j < n {
            assert(s[j].day == d);
        }
    }
}

/// The write that sets a day's mood: an update where the day has a record, else an insert.
pub fn plan_set_mood(entry_exists: bool, mood: Ambition) -> (r: StoreWrite)
    ensures
        r == (if entry_exists {
            StoreWrite::Update(mood)
        } else {
            StoreWrite::Insert(mood)
        }),
{
    if entry_exists {
        StoreWrite::Update(mood)
    } else {
        StoreWrite::Insert(mood)
    }
}

/// The write that back-fills a day: an insert of the default mood where the day has
/// no record, and nothing where it has one.
pub fn plan_backfill(entry_exists: bool, default_mood: Ambition) -> (r: Option<StoreWrite>)
    ensures
        r == (if entry_exists {
            None
        } else {
            Some(StoreWrite::Insert(default_mood))
        }),
{
    if entry_exists {
        None
    } else {
        Some(StoreWrite::Insert(default_mood))
    }
}

/// An in-memory mood store holding at most one record per day.
pub struct Ledger {
    records: Vec<MoodRecord>,
    next_id: u64,
}

impl View for Ledger {
    type V = Seq<MoodRecord>;

    /// The records in insertion order.
    closed spec fn view(&self) -> Seq<MoodRecord> {
        self.records@
    }
}

impl Ledger {
    /// The id that the next inserted record receives.
    pub closed spec fn spec_next_id(&self) -> u64 {
        self.next_id
    }

    pub open spec fn wf(&self) -> bool {
        ledger_wf(self@, self.spec_next_id())
    }

    /// An empty ledger; the first record gets id 1.
    pub fn new() -> (r: Ledger)
        ensures
            r.wf(),
            r@ == Seq::<MoodRecord>::empty(),
            r.spec_next_id() == 1,
    {
        Ledger { records: Vec::new(), next_id: 1 }
    }

    /// An empty ledger whose first record gets id `first_id`, as for a store whose
    /// earlier ids were already handed out.
    pub fn starting_at(first_id: u64) -> (r: Ledger)
        ensures
            r.wf(),
            r@ == Seq::<MoodRecord>::empty(),
            r.spec_next_id() == first_id,
    {
        Ledger { records: Vec::new(), next_id: first_id }
    }

    /// The number of records.
    pub fn len(&self) -> (r: usize)
        ensures
            r == self@.len(),
    {
        self.records.len()
    }

    /// The position of the record for `day`, if there is one.
    fn find_day(&self, day: Day) -> (r: Option<usize>)
        ensures
            r is None <==> !has_day(self@, day),
            r matches Some(i) ==> i < self@.len() && self@[i as int].day == day,
    {
        let mut i: usize = 0;
        while i < self.records.len()
            invariant
                i <= self.records@.len(),
                forall|j: int| 0 <= j < i ==> self.records@[j].day != day,
            decreases self.records@.len() - i,
        {
            if self.records[i].day == day {
                return Some(i);
            }
            i = i + 1;
        }
        None
    }

    /// Whether some record is for `day`.
    pub fn has_record_for_day(&self, day: Day) -> (r: bool)
        ensures
            r == has_day(self@, day),
    {
        self.find_day(day).is_some()
    }

    /// The mood recorded for `day`, if any.
    pub fn mood_for_day(&self, day: Day) -> (r: Option<Ambition>)
        requires
            self.wf(),
        ensures
            r == mood_on(self@, day),
    {
        match self.find_day(day) {
            Some(i) => {
                let ghost k = choose|k: int| 0 <= k < self@.len() && self@[k].day == day;
                assert(k == i);
                Some(self.records[i].mood)
            },
            None => None,
        }
    }

    /// The records after back-filling day `d` with mood `m`: unchanged where the day
/// has a record, else with a new record of id `next_id` appended.
pub open spec fn backfilled(s: Seq<MoodRecord>, next_id: u64, d: Day, m: Ambition) -> Seq<MoodRecord> {
    if has_day(s, d) {
        s
    } else {
        s.push(MoodRecord { id: next_id, mood: m, day: d })
    }
}

/// The mood of the most recently inserted record (the highest id), or
    /// unmotivated on an empty ledger.
    pub fn latest_mood(&self) -> (r: Ambition)
        ensures
            r == latest_of(self@),
    {
        let n = self.records.len();
        if n == 0 {
            Ambition::Unmotivated
        } else {
            self.records[n - 1].mood
        }
    }

    /// Sets the mood of `day`: overwrites the day's record, or inserts one.
    pub fn set_mood(&mut self, day: Day, mood: Ambition) -> (r: Result<(), StorageError>)
        requires
            old(self).wf(),
        ensures
            final(self).wf(),
            r is Err <==> !has_day(old(self)@, day) && old(self).spec_next_id() == u64::MAX,
            r is Ok ==> final(self)@ == upsert(old(self)@, old(self).spec_next_id(), day, mood),
            r is Ok ==> final(self).spec_next_id() == if has_day(old(self)@, day) {
                old(self).spec_next_id() as int
            } else {
                old(self).spec_next_id() + 1
            },
            r is Err ==> *final(self) == *old(self),
    {
        let found = self.find_day(day);
        match plan_set_mood(found.is_some(), mood) {
            StoreWrite::Update(m) => {
                let i = found.unwrap();
                let ghost before = self@;
                let rec = self.records[i];
                self.records[i] = MoodRecord { id: rec.id, mood: m, day: rec.day };
                proof {
                    assert forall|j: int| 0 <= j < before.len() && j != i implies before[j].day
                        != day by {
                        assert(before[i as int].day == day);
                    }
                    assert(self@ =~= overwrite_day(before, day, mood));
                }
                Ok(())
            },
            StoreWrite::Insert(m) => {
                if self.next_id == u64::MAX {
                    return Err(StorageError::IdsExhausted);
                }
                let ghost before = self@;
                self.records.push(MoodRecord { id: self.next_id, mood: m, day });
                self.next_id = self.next_id + 1;
                proof {
                    assert(self@ =~= before.push(MoodRecord { id: (self.next_id - 1) as u64, mood, day }));
                }
                Ok(())
            },
        }
    }

    /// Back-fills `day` with `default_mood` where it has no record; leaves the
    /// ledger as it is where it has one.
    pub fn backfill_day(&mut self, day: Day, default_mood: Ambition) -> (r: Result<(), StorageError>)
        requires
            old(self).wf(),
        ensures
            final(self).wf(),
            r is Err <==> !has_day(old(self)@, day) && old(self).spec_next_id() == u64::MAX,
            has_day(old(self)@, day) ==> *final(self) == *old(self),
            r is Ok ==> final(self)@ == backfilled(old(self)@, old(self).spec_next_id(), day, default_mood),
            !has_day(old(self)@, day) && r is Ok ==> final(self).spec_next_id() == old(self).spec_next_id() + 1
                && sole_record(final(self)@, day, default_mood),
            r is Err ==> *final(self) == *old(self),
    {
        let exists = self.has_record_for_day(day);
        let write = plan_backfill(exists, default_mood);
        if write.is_none() {
            return Ok(());
        }
        let ghost before = self@;
        let ghost next_id = self.next_id;
        let r = self.set_mood(day, default_mood);
        proof {
            if r is Ok {
                assert(self@ == before.push(MoodRecord { id: next_id, mood: default_mood, day }));
                lemma_new_day_sole(before, next_id, day, default_mood);
            }
        }
        r
    }
}

} // verus!
