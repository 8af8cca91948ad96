use vstd::prelude::*;
use crate::day::{day_before, Day};
use crate::ledger::{backfilled, has_day, Ledger, StorageError};
use crate::mood::Ambition;

verus! {

/// One run of the daily back-fill job on day `today`: the day before gets an
/// unmotivated record where it has none. Running it again on the same day changes
/// nothing more.
pub fn run_backfill_job(ledger: &mut Ledger, today: Day) -> (r: Result<(), StorageError>)
    requires
        old(ledger).wf(),
        today.wf(),
    ensures
        final(ledger).wf(),
        match day_before(today) {
            Some(y) => {
                &&& r is Err <==> !has_day(old(ledger)@, y) && old(ledger).spec_next_id() == u64::MAX
                &&& r is Ok ==> final(ledger)@ == backfilled(
                    old(ledger)@,
                    old(ledger).spec_next_id(),
                    y,
                    Ambition::Unmotivated,
                )
                &&& r is Err ==> *final(ledger) == *old(ledger)
            },
            None => r is Ok && *final(ledger) == *old(ledger),
        },
{
    match today.prev() {
        Some(yesterday) => ledger.backfill_day(yesterday, Ambition::Unmotivated),
        None => Ok(()),
    }
}

} // verus!
