use totui::date::Date;
use totui::todo::{Recurring, RecurringUnit, TodoItem};

fn date(y: i32, m: u32, d: u32) -> Date {
    Date::new(y, m, d).unwrap()
}

fn rule(relative: bool, amount: u32, unit: RecurringUnit) -> Recurring {
    Recurring::new(relative, amount, unit).unwrap()
}

#[test]
fn a_rule_needs_a_positive_amount() {
    assert!(Recurring::new(false, 0, RecurringUnit::Days).is_none());
    let r = rule(true, 3, RecurringUnit::Weeks);
    assert!(r.relative());
    assert_eq!(r.amount(), 3);
    assert_eq!(r.unit(), RecurringUnit::Weeks);
    assert_eq!(r.to_string(), "+3w");
    assert_eq!(rule(false, 12, RecurringUnit::Years).to_string(), "12y");
    assert_eq!(RecurringUnit::from_letter('m'), Some(RecurringUnit::Months));
    assert_eq!(RecurringUnit::from_letter('x'), None);
    assert_eq!(RecurringUnit::Days.letter(), 'd');
}

#[test]
fn days_and_weeks_are_added_to_the_date() {
    let today = date(2024, 6, 1);
    assert_eq!(rule(false, 1, RecurringUnit::Days).apply(date(2024, 2, 28), today), date(2024, 2, 29));
    assert_eq!(rule(false, 2, RecurringUnit::Days).apply(date(2023, 2, 28), today), date(2023, 3, 2));
    assert_eq!(rule(false, 366, RecurringUnit::Days).apply(date(2024, 1, 1), today), date(2025, 1, 1));
    assert_eq!(rule(false, 1, RecurringUnit::Weeks).apply(date(2024, 12, 28), today), date(2025, 1, 4));
    assert_eq!(rule(false, 52, RecurringUnit::Weeks).apply(date(2024, 1, 1), today), date(2024, 12, 30));
}

#[test]
fn months_keep_the_day_or_take_the_last_one() {
    let today = date(2024, 6, 1);
    assert_eq!(rule(false, 1, RecurringUnit::Months).apply(date(2024, 1, 31), today), date(2024, 2, 29));
    assert_eq!(rule(false, 1, RecurringUnit::Months).apply(date(2023, 1, 31), today), date(2023, 2, 28));
    assert_eq!(rule(false, 2, RecurringUnit::Months).apply(date(2024, 7, 31), today), date(2024, 9, 30));
    assert_eq!(rule(false, 6, RecurringUnit::Months).apply(date(2022, 2, 20), today), date(2022, 8, 20));
    assert_eq!(rule(false, 11, RecurringUnit::Months).apply(date(2024, 2, 15), today), date(2025, 1, 15));
    assert_eq!(rule(false, 1, RecurringUnit::Years).apply(date(2024, 2, 29), today), date(2025, 2, 28));
    assert_eq!(rule(false, 4, RecurringUnit::Years).apply(date(2024, 2, 29), today), date(2028, 2, 29));
}

#[test]
fn a_relative_rule_counts_from_today() {
    let today = date(2024, 1, 10);
    assert_eq!(rule(true, 1, RecurringUnit::Weeks).apply(date(2024, 1, 1), today), date(2024, 1, 17));
    assert_eq!(rule(true, 1, RecurringUnit::Months).apply(date(2020, 5, 5), today), date(2024, 2, 10));
    assert_eq!(rule(true, 3, RecurringUnit::Days).apply(date(2030, 1, 1), today), date(2024, 1, 13));
}

#[test]
fn dates_past_the_last_one_are_not_given() {
    let today = date(2024, 1, 10);
    let last = date(262142, 12, 31);
    assert_eq!(rule(false, 1, RecurringUnit::Days).checked_apply(last, today), None);
    assert_eq!(rule(false, 1, RecurringUnit::Weeks).checked_apply(last, today), None);
    assert_eq!(rule(false, 1, RecurringUnit::Months).checked_apply(last, today), None);
    assert_eq!(rule(false, 1, RecurringUnit::Years).checked_apply(last, today), None);
    assert_eq!(rule(false, u32::MAX, RecurringUnit::Years).checked_apply(today, today), None);
    assert_eq!(rule(false, u32::MAX, RecurringUnit::Months).checked_apply(today, today), None);
    assert_eq!(rule(false, u32::MAX, RecurringUnit::Weeks).checked_apply(today, today), None);
    assert_eq!(rule(false, u32::MAX, RecurringUnit::Days).checked_apply(today, today), None);
    assert_eq!(
        rule(false, 1, RecurringUnit::Days).checked_apply(date(262142, 12, 30), today),
        Some(last)
    );
    assert_eq!(
        rule(true, 1, RecurringUnit::Years).checked_apply(last, today),
        Some(date(2025, 1, 10))
    );
}

#[test]
fn completing_sets_the_completion_date() {
    let mut item = TodoItem::parse("(A) 2024-01-01 task").unwrap();
    let next = item.toggle_completion(date(2024, 2, 10));
    assert!(next.is_none());
    assert!(item.completed);
    assert_eq!(item.completion_date, Some(date(2024, 2, 10)));
    assert_eq!(item.to_string(), "x 2024-02-10 2024-01-01 task pri:A");
    let back = item.toggle_completion(date(2024, 2, 11));
    assert!(back.is_none());
    assert!(!item.completed);
    assert_eq!(item.completion_date, None);
    assert_eq!(item.to_string(), "(A) 2024-01-01 task");
}

#[test]
fn completing_without_creation_date_sets_no_completion_date() {
    let mut item = TodoItem::new(date(2024, 1, 1));
    item.creation_date = None;
    item.content = "loose".to_string();
    item.toggle_completion(date(2024, 2, 10));
    assert!(item.completed);
    assert_eq!(item.completion_date, None);
}

#[test]
fn non_relative_rule_moves_the_due_date_from_itself() {
    let mut item = TodoItem::parse("2024-01-01 rent due:2024-01-31 rec:1m").unwrap();
    let today = date(2024, 2, 10);
    assert!(item.can_toggle(today));
    let next = item.toggle_completion(today).unwrap();
    assert_eq!(next.due, Some(date(2024, 2, 29)));
    assert!(!next.completed);
    assert_eq!(next.completion_date, None);
    assert_eq!(next.creation_date, Some(today));
    assert_eq!(next.content, "rent");
    assert_eq!(next.rec, item.rec);
    assert!(item.completed);
    assert_eq!(item.due, Some(date(2024, 1, 31)));
}

#[test]
fn relative_rule_moves_the_threshold_date_from_today() {
    let mut item = TodoItem::parse("(C) 2023-12-01 bins t:2024-01-01 rec:+1w").unwrap();
    let next = item.toggle_completion(date(2024, 1, 10)).unwrap();
    assert_eq!(next.t, Some(date(2024, 1, 17)));
    assert_ne!(next.t, Some(date(2024, 1, 8)));
    assert_eq!(next.due, None);
    assert_eq!(next.priority, Some('C'));
    assert_eq!(next.to_string(), "(C) 2024-01-10 bins t:2024-01-17 rec:+1w");
}

#[test]
fn reopening_a_task_with_a_rule_brings_no_new_task() {
    let mut item = TodoItem::parse("x 2024-01-05 2024-01-01 bins due:2024-01-04 rec:1d").unwrap();
    assert!(item.toggle_completion(date(2024, 1, 6)).is_none());
    assert!(!item.completed);
}

#[test]
fn a_task_whose_dates_would_run_out_cannot_be_completed() {
    let mut item = TodoItem::parse("2024-01-01 far rec:4000000000d due:2024-01-01").unwrap();
    assert!(!item.can_toggle(date(2024, 1, 2)));
    item.rec = Recurring::new(false, 4, RecurringUnit::Days);
    assert!(item.can_toggle(date(2024, 1, 2)));
    item.due = Some(date(262142, 12, 30));
    assert!(!item.can_toggle(date(2024, 1, 2)));
    item.completed = true;
    assert!(item.can_toggle(date(2024, 1, 2)));
}
