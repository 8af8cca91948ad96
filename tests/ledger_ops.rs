use ambition::day::Day;
use ambition::job::run_backfill_job;
use ambition::ledger::{plan_backfill, plan_set_mood, Ledger, StorageError, StoreWrite};
use ambition::mood::Ambition;

fn day(y: i32, m: u32, d: u32) -> Day {
    Day::from_ymd(y, m, d).unwrap()
}

#[test]
fn empty_ledger_latest_is_unmotivated() {
    let l = Ledger::new();
    assert_eq!(l.len(), 0);
    assert_eq!(l.latest_mood(), Ambition::Unmotivated);
}

#[test]
fn latest_after_setting_today_motivated() {
    let mut l = Ledger::new();
    let today = day(2025, 6, 1);
    assert_eq!(l.set_mood(today, Ambition::Motivated), Ok(()));
    assert_eq!(l.latest_mood(), Ambition::Motivated);
}

#[test]
fn set_mood_twice_keeps_one_record_with_second_mood() {
    let mut l = Ledger::new();
    let d = day(2025, 6, 1);
    assert_eq!(l.set_mood(d, Ambition::Motivated), Ok(()));
    assert_eq!(l.set_mood(d, Ambition::Unmotivated), Ok(()));
    assert_eq!(l.len(), 1);
    assert_eq!(l.mood_for_day(d), Some(Ambition::Unmotivated));
}

#[test]
fn backfill_missing_day_creates_one_unmotivated_record() {
    let mut l = Ledger::new();
    let d = day(2025, 6, 1);
    l.set_mood(day(2025, 6, 2), Ambition::Motivated).unwrap();
    assert!(!l.has_record_for_day(d));
    assert_eq!(l.backfill_day(d, Ambition::Unmotivated), Ok(()));
    assert_eq!(l.len(), 2);
    assert!(l.has_record_for_day(d));
    assert_eq!(l.mood_for_day(d), Some(Ambition::Unmotivated));
}

#[test]
fn backfill_existing_day_is_noop() {
    let mut l = Ledger::new();
    let d = day(2025, 6, 1);
    l.set_mood(d, Ambition::Motivated).unwrap();
    assert_eq!(l.backfill_day(d, Ambition::Unmotivated), Ok(()));
    assert_eq!(l.backfill_day(d, Ambition::Motivated), Ok(()));
    assert_eq!(l.len(), 1);
    assert_eq!(l.mood_for_day(d), Some(Ambition::Motivated));
}

#[test]
fn latest_follows_insertion_not_calendar() {
    let mut l = Ledger::new();
    l.set_mood(day(2025, 6, 2), Ambition::Motivated).unwrap();
    l.backfill_day(day(2025, 5, 20), Ambition::Unmotivated).unwrap();
    assert_eq!(l.latest_mood(), Ambition::Unmotivated);
    l.set_mood(day(2025, 6, 2), Ambition::Motivated).unwrap();
    assert_eq!(l.latest_mood(), Ambition::Unmotivated);
    assert_eq!(l.mood_for_day(day(2025, 6, 2)), Some(Ambition::Motivated));
}

#[test]
fn mood_for_unknown_day_is_none() {
    let mut l = Ledger::new();
    l.set_mood(day(2025, 6, 2), Ambition::Motivated).unwrap();
    assert_eq!(l.mood_for_day(day(2025, 6, 3)), None);
}

#[test]
fn exhausted_ids_refuse_inserts_but_allow_updates() {
    let mut l = Ledger::starting_at(u64::MAX - 1);
    let d = day(2025, 6, 1);
    assert_eq!(l.set_mood(d, Ambition::Motivated), Ok(()));
    assert_eq!(l.set_mood(day(2025, 6, 2), Ambition::Motivated), Err(StorageError::IdsExhausted));
    assert_eq!(l.backfill_day(day(2025, 6, 3), Ambition::Unmotivated), Err(StorageError::IdsExhausted));
    assert_eq!(l.len(), 1);
    assert_eq!(l.set_mood(d, Ambition::Unmotivated), Ok(()));
    assert_eq!(l.mood_for_day(d), Some(Ambition::Unmotivated));
}

#[test]
fn plans_for_writes() {
    assert_eq!(plan_set_mood(true, Ambition::Motivated), StoreWrite::Update(Ambition::Motivated));
    assert_eq!(plan_set_mood(false, Ambition::Unmotivated), StoreWrite::Insert(Ambition::Unmotivated));
    assert_eq!(plan_backfill(true, Ambition::Unmotivated), None);
    assert_eq!(plan_backfill(false, Ambition::Unmotivated), Some(StoreWrite::Insert(Ambition::Unmotivated)));
}

#[test]
fn backfill_job_twice_on_same_day_yields_one_record() {
    let mut l = Ledger::new();
    let today = day(2025, 3, 1);
    assert_eq!(run_backfill_job(&mut l, today), Ok(()));
    assert_eq!(run_backfill_job(&mut l, today), Ok(()));
    assert_eq!(l.len(), 1);
    assert_eq!(l.mood_for_day(day(2025, 2, 28)), Some(Ambition::Unmotivated));
    assert!(!l.has_record_for_day(today));
}

#[test]
fn backfill_job_keeps_existing_yesterday() {
    let mut l = Ledger::new();
    l.set_mood(day(2024, 12, 31), Ambition::Motivated).unwrap();
    assert_eq!(run_backfill_job(&mut l, day(2025, 1, 1)), Ok(()));
    assert_eq!(l.len(), 1);
    assert_eq!(l.mood_for_day(day(2024, 12, 31)), Some(Ambition::Motivated));
}

#[test]
fn backfill_job_on_first_supported_day_does_nothing() {
    let mut l = Ledger::new();
    assert_eq!(run_backfill_job(&mut l, day(-262143, 1, 1)), Ok(()));
    assert_eq!(l.len(), 0);
}
