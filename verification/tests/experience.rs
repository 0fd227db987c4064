use shared_service::experience::{
    years_of_experience, years_of_experience_until, years_since, CalendarDate, Timestamp,
};

fn date(year: i32, month: u32, day: u32) -> CalendarDate {
    CalendarDate { year, month, day }
}

#[test]
fn whole_years_between_dates() {
    assert_eq!(years_since(date(2030, 1, 1), date(2025, 1, 1)), Some(5));
    assert_eq!(years_since(date(2030, 6, 14), date(2025, 6, 15)), Some(4));
    assert_eq!(years_since(date(2030, 6, 15), date(2025, 6, 15)), Some(5));
    assert_eq!(years_since(date(2025, 6, 15), date(2025, 6, 15)), Some(0));
    assert_eq!(years_since(date(2025, 6, 14), date(2025, 6, 15)), None);
    assert_eq!(years_since(date(2024, 12, 31), date(2025, 1, 1)), None);
}

#[test]
fn experience_between_timestamps() {
    // 2020-03-01T00:00:00Z and 2024-02-29T12:00:00Z
    let start = Timestamp { seconds: 1_583_020_800, nanos: 0 };
    let end = Timestamp { seconds: 1_709_208_000, nanos: 0 };
    assert_eq!(years_of_experience_until(start, end), Some(3));
    // 2024-03-01T00:00:00Z
    let later = Timestamp { seconds: 1_709_251_200, nanos: 0 };
    assert_eq!(years_of_experience_until(start, later), Some(4));
    assert_eq!(years_of_experience(start, Some(later)), Some(4));
    assert_eq!(years_of_experience_until(later, start), None);
}

#[test]
fn experience_until_today() {
    let start = Timestamp { seconds: 0, nanos: 0 };
    let years = years_of_experience(start, None).unwrap();
    assert!(years >= 55);
    let future = Timestamp { seconds: 32_503_680_000, nanos: 0 }; // year 3000
    assert_eq!(years_of_experience(future, None), None);
}

#[test]
fn unrepresentable_moments_give_nothing() {
    let start = Timestamp { seconds: 0, nanos: 0 };
    let bad = Timestamp { seconds: i64::MAX, nanos: 0 };
    assert_eq!(years_of_experience_until(start, bad), None);
}
