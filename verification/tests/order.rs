use std::cmp::Ordering;
use totui::date::Date;
use totui::order::{compare_texts, insert_sorted, sort_items};
use totui::todo::TodoItem;

fn item(line: &str) -> TodoItem {
    TodoItem::parse(line).unwrap()
}

fn texts(items: &[TodoItem]) -> Vec<String> {
    items.iter().map(|i| i.to_string()).collect()
}

#[test]
fn open_tasks_come_before_completed_ones() {
    let open = item("2024-01-01 zzz");
    let done = item("x 2024-01-02 (A) 2024-01-01 aaa");
    assert_eq!(open.cmp(&done), Ordering::Less);
    assert_eq!(done.cmp(&open), Ordering::Greater);
}

#[test]
fn priorities_go_by_letter_and_none_goes_last() {
    let a = item("(A) 2024-01-01 task");
    let b = item("(B) 2024-01-01 task");
    let none = item("2024-01-01 task");
    assert_eq!(a.cmp(&b), Ordering::Less);
    assert_eq!(b.cmp(&none), Ordering::Less);
    assert_eq!(none.cmp(&a), Ordering::Greater);
}

#[test]
fn due_dates_rise_and_none_goes_last() {
    let early = item("2024-01-01 task due:2024-02-01");
    let late = item("2024-01-01 task due:2024-02-02");
    let none = item("2024-01-01 task");
    assert_eq!(early.cmp(&late), Ordering::Less);
    assert_eq!(late.cmp(&none), Ordering::Less);
    assert_eq!(none.cmp(&early), Ordering::Greater);
}

#[test]
fn threshold_dates_rise_and_none_goes_first() {
    let none = item("2024-01-01 task");
    let early = item("2024-01-01 task t:2023-12-31");
    let late = item("2024-01-01 task t:2024-01-01");
    assert_eq!(none.cmp(&early), Ordering::Less);
    assert_eq!(early.cmp(&late), Ordering::Less);
    assert_eq!(late.cmp(&none), Ordering::Greater);
}

#[test]
fn completion_and_creation_dates_rise() {
    let first = item("x 2024-01-05 2024-01-02 task");
    let second = item("x 2024-01-06 2024-01-01 task");
    assert_eq!(first.cmp(&second), Ordering::Less);
    let older = item("2023-12-31 task");
    let newer = item("2024-01-01 task");
    assert_eq!(older.cmp(&newer), Ordering::Less);
    let mut undated = TodoItem::new(Date::new(2024, 1, 1).unwrap());
    undated.creation_date = None;
    undated.content = "task".to_string();
    assert_eq!(undated.cmp(&older), Ordering::Less);
}

#[test]
fn a_rule_goes_before_none_and_texts_go_by_letters() {
    let ruled = item("2024-01-01 zebra rec:1d");
    let plain = item("2024-01-01 apple");
    assert_eq!(ruled.cmp(&plain), Ordering::Less);
    let other_rule = item("2024-01-01 zebra rec:+9y");
    assert_eq!(ruled.cmp(&other_rule), Ordering::Equal);
    assert_ne!(ruled, other_rule);
    let apple = item("2024-01-01 apple");
    let apples = item("2024-01-01 apples");
    let banana = item("2024-01-01 banana");
    assert_eq!(apple.cmp(&apples), Ordering::Less);
    assert_eq!(apples.cmp(&banana), Ordering::Less);
    assert_eq!(apple.cmp(&plain), Ordering::Equal);
}

#[test]
fn texts_compare_like_strings() {
    let pairs = [("", ""), ("", "a"), ("a", ""), ("abc", "abd"), ("abc", "ab"), ("Zoo", "ant"), ("é", "z"), ("same", "same")];
    for (a, b) in pairs {
        assert_eq!(compare_texts(a, b), a.cmp(b));
    }
}

#[test]
fn the_order_turns_round_and_carries_over() {
    let lines = [
        "2024-01-01 b",
        "(A) 2024-01-01 b",
        "x 2024-01-02 2024-01-01 b",
        "2024-01-01 b due:2024-01-03",
        "2024-01-01 b t:2024-01-03",
        "2024-01-01 b rec:1d",
        "2024-01-01 a",
        "2023-01-01 b",
        "(B) 2024-01-01 b",
    ];
    let items: Vec<TodoItem> = lines.iter().map(|l| item(l)).collect();
    for a in &items {
        for b in &items {
            assert_eq!(b.cmp(a), a.cmp(b).reverse());
            for c in &items {
                if a.cmp(b) != Ordering::Greater && b.cmp(c) != Ordering::Greater {
                    assert_ne!(a.cmp(c), Ordering::Greater);
                }
                if a.cmp(b) == Ordering::Less && b.cmp(c) != Ordering::Greater {
                    assert_eq!(a.cmp(c), Ordering::Less);
                }
            }
        }
    }
}

#[test]
fn sorting_puts_tasks_in_order() {
    let sorted = sort_items(vec![
        item("x 2024-01-02 2024-01-01 done"),
        item("2024-01-01 plain"),
        item("(B) 2024-01-01 second"),
        item("(A) 2024-01-01 first due:2024-03-01"),
        item("(A) 2024-01-01 first due:2024-02-01"),
    ]);
    assert_eq!(
        texts(&sorted),
        vec![
            "(A) 2024-01-01 first due:2024-02-01",
            "(A) 2024-01-01 first due:2024-03-01",
            "(B) 2024-01-01 second",
            "2024-01-01 plain",
            "x 2024-01-02 2024-01-01 done",
        ]
    );
}

#[test]
fn sorting_again_changes_nothing() {
    let once = sort_items(vec![
        item("2024-01-01 c"),
        item("(C) 2024-01-01 a"),
        item("2024-01-01 a rec:1d"),
        item("x 2024-01-02 2024-01-01 b"),
        item("2024-01-01 a rec:2d"),
    ]);
    let before = texts(&once);
    let twice = sort_items(once);
    assert_eq!(texts(&twice), before);
    assert_eq!(sort_items(vec![]).len(), 0);
}

#[test]
fn level_tasks_keep_the_order_they_came_in() {
    let sorted = sort_items(vec![
        item("2024-01-01 same rec:3d"),
        item("2024-01-01 same rec:1d"),
        item("2024-01-01 same rec:2d"),
    ]);
    assert_eq!(
        texts(&sorted),
        vec!["2024-01-01 same rec:3d", "2024-01-01 same rec:1d", "2024-01-01 same rec:2d"]
    );
    let mut list = sorted;
    insert_sorted(&mut list, item("2024-01-01 same rec:9w"));
    insert_sorted(&mut list, item("(A) 2024-01-01 top"));
    assert_eq!(list[0].content, "top");
    assert_eq!(list[4].to_string(), "2024-01-01 same rec:9w");
}
