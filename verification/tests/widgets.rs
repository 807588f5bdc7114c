use totui::config::{widest, Config};
use totui::date::Date;
use totui::todo::{Recurring, RecurringUnit};
use totui::widgets::{
    calendar_size, digit_count, CalendarPicerState, DayKind, RecurrencePickerState, ScrollBar,
};

fn date(y: i32, m: u32, d: u32) -> Date {
    Date::new(y, m, d).unwrap()
}

#[test]
fn the_recurrence_picker_starts_at_the_rule() {
    let empty = RecurrencePickerState::new(None);
    assert_eq!(empty.get_recurrence(), None);
    assert_eq!(empty.size(), (7, 3));
    assert_eq!(empty.selected(), 0);
    let rule = Recurring::new(true, 1234, RecurringUnit::Months).unwrap();
    let state = RecurrencePickerState::new(Some(rule));
    assert_eq!(state.get_recurrence(), Some(rule));
    assert_eq!(state.size(), (10, 3));
    assert!(state.relative());
    assert_eq!(state.amount(), 1234);
    assert_eq!(state.unit(), RecurringUnit::Months);
}

#[test]
fn the_recurrence_picker_walks_round_its_parts() {
    let mut state = RecurrencePickerState::new(None);
    state.select_next();
    assert_eq!(state.selected(), 1);
    state.select_next();
    assert_eq!(state.selected(), 2);
    state.select_next();
    assert_eq!(state.selected(), 0);
    state.select_previous();
    assert_eq!(state.selected(), 2);
    state.select_previous();
    assert_eq!(state.selected(), 1);
}

#[test]
fn the_recurrence_picker_raises_and_lowers() {
    let mut state = RecurrencePickerState::new(None);
    state.increase();
    assert!(state.relative());
    state.decrease();
    assert!(!state.relative());
    state.select_next();
    state.decrease();
    assert_eq!(state.amount(), 0);
    state.increase();
    state.increase();
    state.decrease();
    assert_eq!(state.amount(), 1);
    state.select_next();
    state.decrease();
    assert_eq!(state.unit(), RecurringUnit::Days);
    state.increase();
    assert_eq!(state.unit(), RecurringUnit::Weeks);
    state.increase();
    state.increase();
    state.increase();
    assert_eq!(state.unit(), RecurringUnit::Years);
    state.decrease();
    assert_eq!(state.unit(), RecurringUnit::Months);
    assert_eq!(state.get_recurrence(), Recurring::new(false, 1, RecurringUnit::Months));
    state.reset();
    assert_eq!(state.get_recurrence(), None);
    assert_eq!(state.selected(), 2);
    assert_eq!(state.unit(), RecurringUnit::Days);
}

#[test]
fn digits_are_counted() {
    assert_eq!(digit_count(0), 1);
    assert_eq!(digit_count(9), 1);
    assert_eq!(digit_count(10), 2);
    assert_eq!(digit_count(99999), 5);
    assert_eq!(digit_count(u32::MAX), 10);
}

#[test]
fn the_calendar_picker_moves_by_days_and_weeks() {
    let today = date(2024, 2, 27);
    let mut state = CalendarPicerState::new(None, today);
    assert_eq!(state.selected(), today);
    assert_eq!(state.locked(), None);
    state.select_next();
    state.select_next();
    assert_eq!(state.selected(), date(2024, 2, 29));
    state.select_next();
    assert_eq!(state.selected(), date(2024, 3, 1));
    state.select_previous();
    assert_eq!(state.selected(), date(2024, 2, 29));
    state.select_next_week();
    assert_eq!(state.selected(), date(2024, 3, 7));
    state.select_previous_week();
    state.select_previous_week();
    assert_eq!(state.selected(), date(2024, 2, 22));
    state.lock_selected();
    assert_eq!(state.locked(), Some(date(2024, 2, 22)));
    state.select_today();
    assert_eq!(state.selected(), today);
    state.select_locked();
    assert_eq!(state.selected(), date(2024, 2, 22));
    state.clear_locked();
    assert_eq!(state.locked(), None);
    state.select_today();
    state.select_locked();
    assert_eq!(state.selected(), today);
}

#[test]
fn the_calendar_picker_knows_the_ends_of_the_calendar() {
    let last = CalendarPicerState::new(Some(date(262142, 12, 31)), date(2024, 1, 1));
    assert!(!last.can_move(1));
    assert!(!last.can_move(7));
    assert!(last.can_move(-7));
    assert!(last.can_move(0));
    let first = CalendarPicerState::new(Some(date(-262143, 1, 3)), date(2024, 1, 1));
    assert!(first.can_move(-2));
    assert!(!first.can_move(-3));
    assert!(first.can_move(i32::MAX / 32));
    assert!(!first.can_move(i32::MAX));
    assert!(!first.can_move(i32::MIN));
}

#[test]
fn the_calendar_picker_lays_out_the_month() {
    let state = CalendarPicerState::new(Some(date(2024, 2, 14)), date(2024, 2, 27));
    let cells = state.cells();
    assert_eq!(cells.len(), 29);
    // 1 February 2024 is a Thursday.
    assert_eq!((cells[0].x, cells[0].y, cells[0].day), (10, 0, 1));
    assert_eq!((cells[3].x, cells[3].y, cells[3].day), (19, 0, 4));
    assert_eq!((cells[4].x, cells[4].y, cells[4].day), (1, 1, 5));
    assert_eq!((cells[28].x, cells[28].y, cells[28].day), (10, 4, 29));
    assert_eq!(cells[13].kind, DayKind::Locked);
    assert!(cells[13].selected);
    assert_eq!(cells[26].kind, DayKind::Today);
    assert!(!cells[26].selected);
    assert_eq!(cells[0].kind, DayKind::Normal);
    let other = CalendarPicerState::new(None, date(2023, 10, 1));
    let cells = other.cells();
    assert_eq!(cells.len(), 31);
    // 1 October 2023 is a Sunday.
    assert_eq!((cells[0].x, cells[0].y), (19, 0));
    assert_eq!((cells[30].x, cells[30].y), (4, 5));
    assert_eq!(cells[0].kind, DayKind::Today);
    assert_eq!(other.day_kind(2), DayKind::Normal);
    assert_eq!(calendar_size(), (22, 9));
}

#[test]
fn the_scroll_bar_shrinks_with_the_list() {
    let bar = ScrollBar { pos: 0, total: 10, view: 20 };
    assert!(!bar.is_shown());
    let bar = ScrollBar { pos: 3, total: 30, view: 20 };
    assert!(bar.is_shown());
    assert_eq!(bar.possible_scroll(), 10);
    assert_eq!(bar.bar_height(18), 8);
    assert_eq!(bar.bar_height(10), 1);
    assert_eq!(bar.bar_height(5), 1);
    let long = ScrollBar { pos: 0, total: 100_000, view: 20 };
    assert_eq!(long.bar_height(18), 1);
}

#[test]
fn the_marks_decide_the_widths() {
    let config = Config::default();
    assert_eq!(config.item_priority_mark('A'), "(A)");
    assert_eq!(config.completion_width(), 3);
    assert_eq!(config.priority_width(), 3);
    assert_eq!(config.t_width(), 1);
    let wide = Config {
        item_complete_mark: "完了".to_string(),
        item_incomplete_mark: "".to_string(),
        filter_completion_disabled: "*".to_string(),
        item_priority_mark_format: "prio {p}{p} {q}".to_string(),
        filter_t_enabled: "t!".to_string(),
        ..Config::default()
    };
    assert_eq!(wide.completion_width(), 4);
    assert_eq!(wide.item_priority_mark('Z'), "prio Z{p} {q}");
    assert_eq!(wide.priority_width(), 13);
    assert_eq!(wide.t_width(), 2);
    let plain = Config { item_priority_mark_format: "{p".to_string(), ..Config::default() };
    assert_eq!(plain.item_priority_mark('A'), "{p");
    assert_eq!(widest(1, 5, 3), 5);
    assert_eq!(widest(7, 5, 3), 7);
    assert_eq!(widest(1, 2, 3), 3);
}

#[test]
fn the_marks_are_handed_out() {
    let config = Config::default();
    assert_eq!(config.item_selection_mark(), "> ");
    assert_eq!(config.item_complete_mark(), "[x]");
    assert_eq!(config.item_incomplete_mark(), "[ ]");
    assert_eq!(config.item_no_priority_mark(), "");
    assert_eq!(config.filter_completion_disabled(), "[*]");
    assert_eq!(config.filter_priority_disabled(), "(*)");
    assert_eq!(config.filter_t_enabled(), "t");
    assert_eq!(config.filter_t_disabled(), "t");
    assert_eq!(config.item_due_date(date(2024, 12, 24)), "24.12.2024");
    assert_eq!(config.item_t_date(date(2024, 1, 2)), "02.01.2024");
}
