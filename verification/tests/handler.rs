use totui::app::{split_by, split_words, App, FocusState};
use totui::config::Config;
use totui::date::Date;
use totui::handler::{handle_key_event, handle_state, select_again, KeyMatch};
use totui::todo::{TodoItem, TodoList};

fn date(y: i32, m: u32, d: u32) -> Date {
    Date::new(y, m, d).unwrap()
}

fn no_key() -> KeyMatch {
    KeyMatch {
        interrupt: false,
        cancel: false,
        confirm: false,
        quit: false,
        focus_filter: false,
        priority: false,
        completion: false,
        t: false,
        up: false,
        down: false,
    }
}

fn app() -> App {
    let list = TodoList::parse(
        "(A) 2024-01-01 first\n(B) 2024-01-01 second\n(C) 2024-01-01 third t:2024-06-01\nx 2024-01-02 2024-01-01 done\n",
    )
    .unwrap();
    App::new(list, Config::default(), date(2024, 1, 10))
}

fn today() -> Date {
    date(2024, 1, 10)
}

#[test]
fn a_new_app_runs_with_the_attention_on_the_list() {
    let a = app();
    assert!(a.running);
    assert!(matches!(a.state, FocusState::ListFocus));
    assert_eq!(a.todo_list.selected(), Some(0));
    assert_eq!(a.todo_list.filtered_count(), 3);
    a.tick();
    assert!(matches!(FocusState::default(), FocusState::ListFocus));
}

#[test]
fn up_and_down_walk_round_the_shown_tasks() {
    let mut a = app();
    let down = KeyMatch { down: true, ..no_key() };
    let up = KeyMatch { up: true, ..no_key() };
    assert!(!handle_key_event(Some(down), None, &mut a, today()));
    assert_eq!(a.todo_list.selected(), Some(1));
    handle_key_event(Some(down), None, &mut a, today());
    assert_eq!(a.todo_list.selected(), Some(2));
    handle_key_event(Some(down), None, &mut a, today());
    assert_eq!(a.todo_list.selected(), Some(0));
    handle_key_event(Some(up), None, &mut a, today());
    assert_eq!(a.todo_list.selected(), Some(2));
    handle_key_event(Some(up), None, &mut a, today());
    assert_eq!(a.todo_list.selected(), Some(1));
    a.todo_list.select(Some(usize::MAX));
    handle_key_event(Some(down), None, &mut a, today());
    assert_eq!(a.todo_list.selected(), Some((usize::MAX % 3 + 1) % 3));
    a.todo_list.select(Some(usize::MAX));
    handle_key_event(Some(up), None, &mut a, today());
    assert_eq!(a.todo_list.selected(), Some((usize::MAX % 3 + 2) % 3));
    a.todo_list.select(None);
    handle_key_event(Some(up), None, &mut a, today());
    assert_eq!(a.todo_list.selected(), None);
}

#[test]
fn up_wins_over_down_and_quit_over_all() {
    let mut a = app();
    handle_key_event(Some(KeyMatch { up: true, down: true, ..no_key() }), None, &mut a, today());
    assert_eq!(a.todo_list.selected(), Some(2));
    handle_key_event(
        Some(KeyMatch { quit: true, up: true, focus_filter: true, ..no_key() }),
        None,
        &mut a,
        today(),
    );
    assert!(!a.running);
    assert_eq!(a.todo_list.selected(), Some(2));
    assert!(matches!(a.state, FocusState::ListFocus));
}

#[test]
fn the_interrupt_key_ends_the_app_from_everywhere() {
    let mut a = app();
    handle_key_event(Some(KeyMatch { focus_filter: true, ..no_key() }), None, &mut a, today());
    assert!(matches!(a.state, FocusState::FilterFocus { .. }));
    let used = handle_key_event(
        Some(KeyMatch { interrupt: true, completion: true, ..no_key() }),
        Some("text".to_string()),
        &mut a,
        today(),
    );
    assert!(!used);
    assert!(!a.running);
    assert!(matches!(a.state, FocusState::FilterFocus { .. }));
    assert_eq!(a.todo_list.filter().completion, None);
}

#[test]
fn no_key_changes_nothing() {
    let mut a = app();
    assert!(!handle_key_event(None, Some("text".to_string()), &mut a, date(2030, 1, 1)));
    assert!(a.running);
    assert_eq!(a.todo_list.filtered_count(), 3);
    assert!(a.todo_list.filter().words.is_empty());
}

#[test]
fn turning_to_the_filter_remembers_the_selected_task() {
    let mut a = app();
    a.todo_list.select(Some(1));
    handle_key_event(Some(KeyMatch { focus_filter: true, ..no_key() }), None, &mut a, today());
    match &a.state {
        FocusState::FilterFocus { previous_selection_index, previous_selection_item } => {
            assert_eq!(*previous_selection_index, 1);
            assert_eq!(previous_selection_item.content, "second");
        }
        FocusState::ListFocus => panic!("the attention stayed on the list"),
    }
}

#[test]
fn the_completion_key_walks_through_its_three_states() {
    let mut a = app();
    a.todo_list.select(Some(1));
    handle_key_event(Some(KeyMatch { focus_filter: true, ..no_key() }), None, &mut a, today());
    let key = KeyMatch { completion: true, t: true, ..no_key() };
    assert!(!handle_key_event(Some(key), Some("ignored".to_string()), &mut a, today()));
    assert_eq!(a.todo_list.filter().completion, Some(true));
    assert_eq!(a.todo_list.filtered_count(), 1);
    assert_eq!(a.todo_list.selected(), Some(0));
    handle_key_event(Some(key), None, &mut a, today());
    assert_eq!(a.todo_list.filter().completion, Some(false));
    assert_eq!(a.todo_list.filtered_count(), 2);
    assert_eq!(a.todo_list.selected(), Some(1));
    handle_key_event(Some(key), None, &mut a, today());
    assert_eq!(a.todo_list.filter().completion, None);
    assert_eq!(a.todo_list.selected(), Some(1));
    assert!(a.todo_list.filter().words.is_empty());
    assert_eq!(a.todo_list.filter().hide_threshold_beyond_days, Some(0));
}

#[test]
fn the_threshold_key_switches_the_hiding() {
    let mut a = app();
    handle_key_event(Some(KeyMatch { focus_filter: true, ..no_key() }), None, &mut a, today());
    let key = KeyMatch { t: true, ..no_key() };
    handle_key_event(Some(key), None, &mut a, today());
    assert_eq!(a.todo_list.filter().hide_threshold_beyond_days, None);
    assert_eq!(a.todo_list.filtered_count(), 4);
    handle_key_event(Some(key), None, &mut a, today());
    assert_eq!(a.todo_list.filter().hide_threshold_beyond_days, Some(0));
    assert_eq!(a.todo_list.filtered_count(), 3);
}

#[test]
fn other_keys_go_to_the_input_field() {
    let mut a = app();
    a.todo_list.select(Some(2));
    handle_key_event(Some(KeyMatch { focus_filter: true, ..no_key() }), None, &mut a, today());
    let used = handle_key_event(Some(no_key()), Some("  ON  ir\t".to_string()), &mut a, today());
    assert!(used);
    assert_eq!(a.todo_list.filter().words, vec!["ON".to_string(), "ir".to_string()]);
    assert_eq!(a.todo_list.filtered_count(), 0);
    assert_eq!(a.todo_list.selected(), Some(0));
    let used = handle_key_event(Some(no_key()), Some("d".to_string()), &mut a, today());
    assert!(used);
    assert_eq!(a.todo_list.filtered_count(), 2);
    assert_eq!(a.todo_list.selected(), Some(1));
    assert!(!handle_key_event(Some(no_key()), None, &mut a, today()));
    assert!(!handle_key_event(
        Some(KeyMatch { priority: true, completion: true, ..no_key() }),
        Some("x".to_string()),
        &mut a,
        today()
    ));
    assert_eq!(a.todo_list.filter().completion, None);
    assert_eq!(a.todo_list.filter().words, vec!["d".to_string()]);
}

#[test]
fn cancel_and_confirm_turn_back_to_the_list() {
    for key in [KeyMatch { cancel: true, ..no_key() }, KeyMatch { confirm: true, completion: true, ..no_key() }] {
        let mut a = app();
        handle_key_event(Some(KeyMatch { focus_filter: true, ..no_key() }), None, &mut a, today());
        assert!(!handle_key_event(Some(key), Some("x".to_string()), &mut a, today()));
        assert!(matches!(a.state, FocusState::ListFocus));
        assert_eq!(a.todo_list.filter().completion, None);
        assert!(a.todo_list.filter().words.is_empty());
    }
}

#[test]
fn handle_state_gives_the_next_state() {
    let mut a = app();
    let state = a.take_state();
    assert!(matches!(a.state, FocusState::ListFocus));
    let (next, used) = handle_state(None, KeyMatch { down: true, ..no_key() }, &mut a, state, today());
    assert!(matches!(next, FocusState::ListFocus));
    assert!(!used);
    assert_eq!(a.todo_list.selected(), Some(1));
    a.quit();
    assert!(!a.running);
}

#[test]
fn a_task_that_is_no_longer_shown_gives_way_to_the_first() {
    let mut a = app();
    let gone = TodoItem::parse("2024-01-01 elsewhere").unwrap();
    a.todo_list.select(Some(2));
    select_again(&mut a.todo_list, &gone);
    assert_eq!(a.todo_list.selected(), Some(0));
    let third = TodoItem::parse("(C) 2024-01-01 third t:2024-06-01").unwrap();
    select_again(&mut a.todo_list, &third);
    assert_eq!(a.todo_list.selected(), Some(0));
    a.todo_list.mutate_filter(
        |mut f| {
            f.hide_threshold_beyond_days = None;
            f
        },
        today(),
    );
    select_again(&mut a.todo_list, &third);
    assert_eq!(a.todo_list.selected(), Some(2));
}

#[test]
fn words_are_split_at_white_space() {
    assert_eq!(split_words(""), Vec::<String>::new());
    assert_eq!(split_words(" \t\n"), Vec::<String>::new());
    assert_eq!(split_words("one"), vec!["one".to_string()]);
    assert_eq!(
        split_words("  one\ttwo\u{2003}three  "),
        vec!["one".to_string(), "two".to_string(), "three".to_string()]
    );
}

#[test]
fn pieces_lie_between_the_flagged_characters() {
    let chars: Vec<char> = "a-bc--d".chars().collect();
    let flags = vec![false, true, false, false, true, true, false];
    assert_eq!(split_by(&chars, &flags), vec!["a".to_string(), "bc".to_string(), "d".to_string()]);
    let none = vec![false; 7];
    assert_eq!(split_by(&chars, &none), vec!["a-bc--d".to_string()]);
    let all = vec![true; 7];
    assert_eq!(split_by(&chars, &all), Vec::<String>::new());
    assert_eq!(split_by(&vec![], &vec![]), Vec::<String>::new());
}
