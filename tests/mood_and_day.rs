use ambition::day::Day;
use ambition::mood::Ambition;

fn day(y: i32, m: u32, d: u32) -> Day {
    Day::from_ymd(y, m, d).unwrap()
}

#[test]
fn from_u8_decodes_valid_codes() {
    assert_eq!(Ambition::from_u8(0), Some(Ambition::Unmotivated));
    assert_eq!(Ambition::from_u8(1), Some(Ambition::Motivated));
}

#[test]
fn from_u8_rejects_other_codes() {
    assert_eq!(Ambition::from_u8(2), None);
    assert_eq!(Ambition::from_u8(7), None);
    assert_eq!(Ambition::from_u8(255), None);
}

#[test]
fn to_u8_round_trips() {
    assert_eq!(Ambition::Unmotivated.to_u8(), 0);
    assert_eq!(Ambition::Motivated.to_u8(), 1);
    for a in [Ambition::Unmotivated, Ambition::Motivated] {
        assert_eq!(Ambition::from_u8(a.to_u8()), Some(a));
    }
}

#[test]
fn mood_names() {
    assert_eq!(Ambition::Motivated.name(), "Motivated");
    assert_eq!(Ambition::Unmotivated.name(), "Unmotivated");
}

#[test]
fn from_ymd_accepts_existing_days() {
    assert_eq!(Day::from_ymd(2024, 2, 29), Some(Day { year: 2024, month: 2, day: 29 }));
    assert!(Day::from_ymd(2000, 2, 29).is_some());
    assert!(Day::from_ymd(2023, 12, 31).is_some());
    assert!(Day::from_ymd(-262143, 1, 1).is_some());
    assert!(Day::from_ymd(262142, 12, 31).is_some());
}

#[test]
fn from_ymd_rejects_missing_days() {
    assert_eq!(Day::from_ymd(2023, 2, 29), None);
    assert_eq!(Day::from_ymd(1900, 2, 29), None);
    assert_eq!(Day::from_ymd(2024, 4, 31), None);
    assert_eq!(Day::from_ymd(2024, 13, 1), None);
    assert_eq!(Day::from_ymd(2024, 0, 1), None);
    assert_eq!(Day::from_ymd(2024, 1, 0), None);
    assert_eq!(Day::from_ymd(262143, 1, 1), None);
    assert_eq!(Day::from_ymd(-262144, 12, 31), None);
}

#[test]
fn prev_within_month() {
    assert_eq!(day(2024, 5, 10).prev(), Some(day(2024, 5, 9)));
}

#[test]
fn prev_across_months_and_leap_days() {
    assert_eq!(day(2024, 3, 1).prev(), Some(day(2024, 2, 29)));
    assert_eq!(day(2023, 3, 1).prev(), Some(day(2023, 2, 28)));
    assert_eq!(day(1900, 3, 1).prev(), Some(day(1900, 2, 28)));
    assert_eq!(day(2000, 3, 1).prev(), Some(day(2000, 2, 29)));
    assert_eq!(day(2024, 5, 1).prev(), Some(day(2024, 4, 30)));
}

#[test]
fn prev_across_years() {
    assert_eq!(day(2024, 1, 1).prev(), Some(day(2023, 12, 31)));
    assert_eq!(day(1, 1, 1).prev(), Some(day(0, 12, 31)));
}

#[test]
fn prev_of_first_supported_day_is_none() {
    assert_eq!(day(-262143, 1, 1).prev(), None);
    assert_eq!(day(-262143, 1, 2).prev(), Some(day(-262143, 1, 1)));
}
