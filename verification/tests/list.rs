use totui::app::{SortedFilteredTodoList, TodoListFilter};
use totui::date::Date;
use totui::todo::{TodoItem, TodoList};

fn date(y: i32, m: u32, d: u32) -> Date {
    Date::new(y, m, d).unwrap()
}

fn item(line: &str) -> TodoItem {
    TodoItem::parse(line).unwrap()
}

fn sample() -> SortedFilteredTodoList {
    let list = TodoList::parse(
        "2024-01-01 Call mom @phone +family\nx 2024-01-02 2024-01-01 Mow lawn @garden\n(A) 2024-01-01 Pay rent +flat @phone\n2024-01-01 Plan trip t:2024-03-01 +family\n",
    )
    .unwrap();
    SortedFilteredTodoList::new(list, date(2024, 1, 10))
}

fn shown(list: &SortedFilteredTodoList) -> Vec<String> {
    list.items().iter().map(|i| i.to_string()).collect()
}

#[test]
fn a_new_list_is_sorted_and_filtered() {
    let list = sample();
    assert_eq!(list.len(), 4);
    assert_eq!(
        list.to_string(),
        "(A) 2024-01-01 Pay rent +flat @phone\n2024-01-01 Call mom @phone +family\n2024-01-01 Plan trip +family t:2024-03-01\nx 2024-01-02 2024-01-01 Mow lawn @garden\n"
    );
    assert_eq!(list.filtered_count(), 3);
    assert_eq!(
        shown(&list),
        vec![
            "(A) 2024-01-01 Pay rent +flat @phone",
            "2024-01-01 Call mom @phone +family",
            "x 2024-01-02 2024-01-01 Mow lawn @garden",
        ]
    );
    assert_eq!(list.filter().hide_threshold_beyond_days, Some(0));
}

#[test]
fn shown_tasks_come_with_their_place_in_the_list() {
    let list = sample();
    let (place, task) = list.filtered_item(2);
    assert_eq!(place, 3);
    assert_eq!(task.content, "Mow lawn @garden");
    assert_eq!(list.all_items()[place].content, "Mow lawn @garden");
    let (first, _) = list.filtered_item(0);
    assert_eq!(first, 0);
}

#[test]
fn the_vocabulary_holds_each_name_once() {
    let list = sample();
    assert_eq!(list.contexts(), &vec!["phone".to_string(), "garden".to_string()]);
    assert_eq!(list.projects(), &vec!["flat".to_string(), "family".to_string()]);
}

#[test]
fn changing_the_filter_picks_the_tasks_anew() {
    let mut list = sample();
    list.mutate_filter(
        |_| TodoListFilter {
            completion: Some(false),
            priority: None,
            words: vec!["FAMILY".to_string()],
            ignore_case: true,
            hide_threshold_beyond_days: None,
        },
        date(2024, 1, 10),
    );
    assert_eq!(
        shown(&list),
        vec!["2024-01-01 Call mom @phone +family", "2024-01-01 Plan trip +family t:2024-03-01"]
    );
    assert_eq!(list.filter().completion, Some(false));
    assert_eq!(list.len(), 4);
}

#[test]
fn a_later_day_shows_tasks_whose_threshold_has_come() {
    let mut list = sample();
    assert_eq!(list.filtered_count(), 3);
    list.mutate_filter(|f| f, date(2024, 3, 1));
    assert_eq!(list.filtered_count(), 4);
}

#[test]
fn changing_the_tasks_sorts_and_gathers_anew() {
    let mut list = sample();
    let today = date(2024, 1, 10);
    list.mutate_items(
        |mut items| {
            items.remove(0);
            items.push(item("(A) 2024-01-01 Buy milk @shop"));
            items.push(item("2023-12-24 Wrap gifts +xmas"));
            items
        },
        today,
    );
    assert_eq!(
        list.to_string(),
        "(A) 2024-01-01 Buy milk @shop\n2023-12-24 Wrap gifts +xmas\n2024-01-01 Call mom @phone +family\n2024-01-01 Plan trip +family t:2024-03-01\nx 2024-01-02 2024-01-01 Mow lawn @garden\n"
    );
    assert_eq!(list.filtered_count(), 4);
    assert_eq!(
        list.contexts(),
        &vec!["shop".to_string(), "phone".to_string(), "garden".to_string()]
    );
    assert_eq!(list.projects(), &vec!["xmas".to_string(), "family".to_string()]);
}

#[test]
fn a_removed_name_leaves_the_vocabulary() {
    let mut list = sample();
    list.mutate_items(
        |items| items.into_iter().filter(|i| !i.content.contains("@garden")).collect(),
        date(2024, 1, 10),
    );
    assert_eq!(list.contexts(), &vec!["phone".to_string()]);
    assert_eq!(list.len(), 3);
    list.mutate_items(|_| vec![], date(2024, 1, 10));
    assert!(list.contexts().is_empty());
    assert!(list.projects().is_empty());
    assert_eq!(list.filtered_count(), 0);
    assert_eq!(list.to_string(), "");
}

#[test]
fn completing_a_recurring_task_through_the_list() {
    let list = TodoList::parse("2024-01-01 rent due:2024-01-31 rec:1m\n").unwrap();
    let today = date(2024, 2, 10);
    let mut list = SortedFilteredTodoList::new(list, today);
    let (place, _) = list.filtered_item(0);
    list.mutate_items(
        |mut items| {
            assert!(items[place].can_toggle(today));
            let next = items[place].toggle_completion(today);
            if let Some(next) = next {
                if !items.iter().any(|i| i.same_as(&next)) {
                    items.push(next);
                }
            }
            items
        },
        today,
    );
    assert_eq!(
        list.to_string(),
        "2024-02-10 rent due:2024-02-29 rec:1m\nx 2024-02-10 2024-01-01 rent due:2024-01-31 rec:1m\n"
    );
}

#[test]
fn shown_tasks_are_handed_out_with_their_places() {
    let list = sample();
    let pairs = list.filtered_items();
    assert_eq!(pairs.len(), 3);
    assert_eq!(pairs[0].0, 0);
    assert_eq!(pairs[1].0, 1);
    assert_eq!(pairs[2].0, 3);
    assert_eq!(pairs[2].1.content, "Mow lawn @garden");
}
