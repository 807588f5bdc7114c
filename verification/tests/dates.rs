use chrono::{Datelike, NaiveDate};
use totui::date::{leap_year, month_length, Date};

#[test]
fn only_days_of_the_calendar_are_dates() {
    assert!(Date::new(2024, 2, 29).is_some());
    assert!(Date::new(2023, 2, 29).is_none());
    assert!(Date::new(1900, 2, 29).is_none());
    assert!(Date::new(2000, 2, 29).is_some());
    assert!(Date::new(2024, 4, 31).is_none());
    assert!(Date::new(2024, 0, 1).is_none());
    assert!(Date::new(2024, 13, 1).is_none());
    assert!(Date::new(2024, 1, 0).is_none());
    assert!(Date::new(-4, 2, 29).is_some());
    assert!(Date::new(262142, 12, 31).is_some());
    assert!(Date::new(262143, 1, 1).is_none());
    assert!(Date::new(-262143, 1, 1).is_some());
    assert!(Date::new(-262144, 12, 31).is_none());
    let d = Date::new(2024, 2, 29).unwrap();
    assert_eq!((d.year(), d.month(), d.day()), (2024, 2, 29));
}

#[test]
fn leap_years_and_month_lengths() {
    assert!(leap_year(2024));
    assert!(!leap_year(2023));
    assert!(!leap_year(1900));
    assert!(leap_year(2000));
    assert!(leap_year(0));
    assert!(leap_year(-4));
    assert!(!leap_year(-1));
    assert!(!leap_year(i32::MIN + 1));
    assert_eq!(month_length(2024, 2), 29);
    assert_eq!(month_length(2023, 2), 28);
    assert_eq!(month_length(2023, 4), 30);
    assert_eq!(month_length(2023, 12), 31);
}

#[test]
fn reads_dates_of_the_right_form_only() {
    assert_eq!(Date::parse("2024-01-05"), Date::new(2024, 1, 5));
    assert_eq!(Date::parse("0000-01-01"), Date::new(0, 1, 1));
    assert_eq!(Date::parse("9999-12-31"), Date::new(9999, 12, 31));
    assert_eq!(Date::parse("2024-02-30"), None);
    assert_eq!(Date::parse("2024-00-10"), None);
    assert_eq!(Date::parse("2024-1-5"), None);
    assert_eq!(Date::parse("2024-01-05 "), None);
    assert_eq!(Date::parse("+2024-01-05"), None);
    assert_eq!(Date::parse("20240-1-05"), None);
    assert_eq!(Date::parse(""), None);
}

#[test]
fn writes_dates_with_dashes() {
    assert_eq!(Date::new(2024, 1, 5).unwrap().to_string(), "2024-01-05");
    assert_eq!(Date::new(7, 11, 30).unwrap().to_string(), "0007-11-30");
    assert_eq!(Date::new(0, 1, 1).unwrap().to_string(), "0000-01-01");
    assert_eq!(Date::new(10000, 1, 1).unwrap().to_string(), "+10000-01-01");
    assert_eq!(Date::new(262142, 12, 31).unwrap().to_string(), "+262142-12-31");
    assert_eq!(Date::new(-1, 12, 31).unwrap().to_string(), "-0001-12-31");
    assert_eq!(Date::new(-12345, 6, 7).unwrap().to_string(), "-12345-06-07");
}

#[test]
fn earlier_dates_are_before_later_ones() {
    let a = Date::new(2024, 1, 31).unwrap();
    let b = Date::new(2024, 2, 1).unwrap();
    let c = Date::new(2025, 1, 1).unwrap();
    assert!(a.is_before(&b));
    assert!(b.is_before(&c));
    assert!(a.is_before(&c));
    assert!(!b.is_before(&a));
    assert!(!a.is_before(&a));
}

#[test]
fn day_numbers_count_from_the_first_day_of_year_one() {
    assert_eq!(Date::new(1, 1, 1).unwrap().day_number(), 1);
    assert_eq!(Date::new(1, 12, 31).unwrap().day_number(), 365);
    assert_eq!(Date::new(0, 12, 31).unwrap().day_number(), 0);
    assert_eq!(Date::new(0, 1, 1).unwrap().day_number(), -365);
    assert_eq!(Date::new(1970, 1, 1).unwrap().day_number(), 719_163);
    assert_eq!(Date::new(2024, 2, 29).unwrap().day_number(), 738_945);
    assert_eq!(Date::new(2024, 3, 1).unwrap().day_number(), 738_946);
}

#[test]
fn day_numbers_agree_with_chrono() {
    let samples = [
        (-262143, 1, 1),
        (-100000, 6, 15),
        (-401, 12, 31),
        (-400, 1, 1),
        (-1, 3, 1),
        (0, 2, 29),
        (1, 1, 1),
        (4, 2, 29),
        (100, 3, 1),
        (400, 12, 31),
        (1582, 10, 15),
        (1900, 2, 28),
        (1999, 12, 31),
        (2000, 2, 29),
        (2023, 7, 4),
        (2024, 12, 31),
        (9999, 12, 31),
        (262142, 12, 31),
    ];
    for (y, m, d) in samples {
        let ours = Date::new(y, m, d).unwrap();
        let theirs = NaiveDate::from_ymd_opt(y, m, d).unwrap();
        assert_eq!(ours.day_number(), i64::from(theirs.num_days_from_ce()));
        assert_eq!(
            (ours.day_number() + 6).rem_euclid(7),
            i64::from(theirs.weekday().num_days_from_monday())
        );
    }
}

#[test]
fn each_day_has_the_number_after_that_of_the_day_before() {
    let mut day = NaiveDate::from_ymd_opt(1899, 12, 25).unwrap();
    let mut number = Date::new(1899, 12, 25).unwrap().day_number();
    for _ in 0..1500 {
        day = day.succ_opt().unwrap();
        let next = Date::new(day.year(), day.month(), day.day()).unwrap().day_number();
        assert_eq!(next, number + 1);
        number = next;
    }
}

#[test]
fn the_same_triples_are_dates_as_in_chrono() {
    let years = [
        i32::MIN, -262145, -262144, -262143, -401, -400, -100, -4, -1, 0, 1, 4, 100, 400, 1900,
        2000, 2023, 2024, 9999, 10000, 262142, 262143, i32::MAX,
    ];
    for y in years {
        for m in 0..15 {
            for d in 0..34 {
                assert_eq!(
                    Date::new(y, m, d).is_some(),
                    NaiveDate::from_ymd_opt(y, m, d).is_some(),
                    "{y}-{m}-{d}"
                );
            }
        }
    }
    assert!(Date::new(2024, u32::MAX, 1).is_none());
    assert!(Date::new(2024, 1, u32::MAX).is_none());
}
