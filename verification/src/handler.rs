//! What a key does to the application.
//!
//! Which keys the user has bound to what is not known here: whoever reads
//! the keys says, for each key pressed, which of the bindings it is, and
//! what the text of the filter's input field would be if the key went
//! there.

use vstd::prelude::*;

use crate::app::{
    next_completion, split_words, words_from, App, FilterView, FocusState,
    SortedFilteredTodoList,
};
use crate::date::Date;
use crate::todo::{ItemView, TodoItem};

verus! {

/// Which bindings a key is. A key can be bound more than once; then the
/// binding that is asked first decides.
#[derive(Debug, Clone, Copy, PartialEq, Eq, Structural)]
pub struct KeyMatch {
    /// The key that ends the application from everywhere.
    pub interrupt: bool,
    pub cancel: bool,
    pub confirm: bool,
    pub quit: bool,
    pub focus_filter: bool,
    pub priority: bool,
    pub completion: bool,
    pub t: bool,
    pub up: bool,
    pub down: bool,
}

/// The selection one step up among `len` shown tasks, the last one above
/// the first.
pub open spec fn step_up(i: usize, len: usize) -> usize {
    ((i + len - 1) % (len as int)) as usize
}

/// The selection one step down among `len` shown tasks, the first one
/// below the last.
pub open spec fn step_down(i: usize, len: usize) -> usize {
    ((i + 1) % (len as int)) as usize
}

/// The first place from `k` on among the shown tasks at which a task equal
/// to `item` in every field stands; the number of shown tasks where there
/// is none.
pub open spec fn place_from(
    tasks: Seq<ItemView>,
    shown: Seq<int>,
    item: ItemView,
    k: int,
) -> int
    decreases shown.len() - k,
{
    if k < 0 || k >= shown.len() {
        shown.len() as int
    } else if tasks[shown[k]] == item {
        k
    } else {
        place_from(tasks, shown, item, k + 1)
    }
}

/// Which shown task is selected after the filter changed: the one equal to
/// the task that was selected before, or the first one where no such task
/// is shown.
pub open spec fn found_again(tasks: Seq<ItemView>, shown: Seq<int>, item: ItemView) -> usize {
    if place_from(tasks, shown, item, 0) < shown.len() {
        place_from(tasks, shown, item, 0) as usize
    } else {
        0
    }
}

/// The filter with the hiding by threshold date switched: off where it was
/// on, and on, for all tasks whose threshold lies after today, where it
/// was off.
pub open spec fn switched_threshold(limit: Option<u32>) -> Option<u32> {
    match limit {
        Some(_) => None,
        None => Some(0u32),
    }
}

/// Selects the shown task that is equal to `item`, or the first one.
pub fn select_again(list: &mut SortedFilteredTodoList, item: &TodoItem)
    requires
        old(list).wf(),
    ensures
        final(list).wf(),
        final(list).held() == old(list).held(),
        final(list).current_filter() == old(list).current_filter(),
        final(list).as_of() == old(list).as_of(),
        final(list).selection() == Some(found_again(old(list).tasks(), old(list).shown(), item@)),
{
    let count = list.filtered_count();
    let mut k: usize = 0;
    while k < count
        invariant
            list.wf(),
            *list == *old(list),
            count == list.shown().len(),
            k <= count,
            place_from(list.tasks(), list.shown(), item@, 0) == place_from(
                list.tasks(),
                list.shown(),
                item@,
                k as int,
            ),
        decreases count - k,
    {
        let (_, shown_item) = list.filtered_item(k);
        if shown_item.same_as(item) {
            list.select(Some(k));
            return ;
        }
        k += 1;
    }
    list.select(Some(0));
}

/// One step up or down among a number of places, round the ends.
proof fn lemma_steps(i: int, len: int)
    requires
        0 <= i,
        0 < len,
    ensures
        (i + len - 1) % len == if i % len == 0 {
            len - 1
        } else {
            i % len - 1
        },
        (i + 1) % len == if i % len + 1 == len {
            0
        } else {
            i % len + 1
        },
{
    let r = i % len;
    vstd::arithmetic::div_mod::lemma_add_mod_noop_right(len - 1, i, len);
    vstd::arithmetic::div_mod::lemma_add_mod_noop_right(1, i, len);
    assert((i + len - 1) % len == (len - 1 + r) % len);
    assert((i + 1) % len == (1 + r) % len);
    if r == 0 {
        vstd::arithmetic::div_mod::lemma_small_mod((len - 1) as nat, len as nat);
    } else {
        vstd::arithmetic::div_mod::lemma_mod_add_multiples_vanish(r - 1, len);
        vstd::arithmetic::div_mod::lemma_small_mod((r - 1) as nat, len as nat);
    }
    if r + 1 == len {
        vstd::arithmetic::div_mod::lemma_mod_add_multiples_vanish(0, len);
        vstd::arithmetic::div_mod::lemma_small_mod(0, len as nat);
    } else {
        vstd::arithmetic::div_mod::lemma_small_mod((r + 1) as nat, len as nat);
    }
}

/// What a key does while the attention is on the filter.
fn handle_filter_focus(input: Option<String>, key: KeyMatch, app: &mut App, item: &TodoItem, today: Date) -> (r: (bool, bool))
    requires
        old(app).todo_list.wf(),
    ensures
        final(app).todo_list.wf(),
        final(app).running == old(app).running,
        final(app).config == old(app).config,
        final(app).state == old(app).state,
        final(app).todo_list.held() == old(app).todo_list.held(),
        r.0 == (key.cancel || key.confirm),
        r.1 == (!key.cancel && !key.confirm && !key.priority && !key.completion && !key.t
            && input is Some),
        key.cancel || key.confirm || key.priority || (!key.completion && !key.t && input is None)
            ==> final(app).todo_list == old(app).todo_list,
        !key.cancel && !key.confirm && !key.priority && (key.completion || key.t || input is Some)
            ==> {
            &&& final(app).todo_list.as_of() == today
            &&& final(app).todo_list.current_filter()@ == filter_after(
                old(app).todo_list.current_filter()@,
                key,
                input,
            )
            &&& final(app).todo_list.selection() == Some(
                found_again(final(app).todo_list.tasks(), final(app).todo_list.shown(), item@),
            )
        },
{
    if key.cancel || key.confirm {
        return (true, false);
    }
    if key.priority {
        return (false, false);
    }
    let mut filter = app.todo_list.filter().clone();
    let mut used = false;
    if key.completion {
        filter.completion = match filter.completion {
            None => Some(true),
            Some(true) => Some(false),
            Some(false) => None,
        };
    } else if key.t {
        filter.hide_threshold_beyond_days = match filter.hide_threshold_beyond_days {
            Some(_) => None,
            None => Some(0),
        };
    } else {
        match input {
            Some(text) => {
                filter.words = split_words(text.as_str());
                used = true;
            },
            None => {
                return (false, false);
            },
        }
    }
    app.todo_list.set_filter(filter, today);
    select_again(&mut app.todo_list, item);
    (false, used)
}

/// The filter after a key went to it: the completion part takes its next
/// state, or the hiding by threshold date is switched, or the words become
/// those of the text of the input field.
pub open spec fn filter_after(
    filter: FilterView,
    key: KeyMatch,
    input: Option<String>,
) -> FilterView {
    if key.completion {
        FilterView {
            completion: next_completion(filter.completion),
            priority: filter.priority,
            words: filter.words,
            ignore_case: filter.ignore_case,
            hide_threshold_beyond_days: filter.hide_threshold_beyond_days,
        }
    } else if key.t {
        FilterView {
            completion: filter.completion,
            priority: filter.priority,
            words: filter.words,
            ignore_case: filter.ignore_case,
            hide_threshold_beyond_days: switched_threshold(filter.hide_threshold_beyond_days),
        }
    } else {
        match input {
            Some(text) => FilterView {
                completion: filter.completion,
                priority: filter.priority,
                words: words_from(text@, 0),
                ignore_case: filter.ignore_case,
                hide_threshold_beyond_days: filter.hide_threshold_beyond_days,
            },
            None => filter,
        }
    }
}

/// The key turns the attention to the filter, and a shown task is selected
/// that the state can remember.
pub open spec fn can_focus_filter(list: SortedFilteredTodoList) -> bool {
    list.selection() matches Some(i) && i < list.shown().len()
}

/// The state is that of the attention on the filter, and it remembers the
/// task that is selected in the list.
pub open spec fn remembers(state: FocusState, list: SortedFilteredTodoList) -> bool {
    match state {
        FocusState::FilterFocus { previous_selection_index, previous_selection_item } => {
            &&& list.selection() == Some(previous_selection_index)
            &&& previous_selection_index < list.shown().len()
            &&& previous_selection_item@ == list.tasks()[list.shown()[previous_selection_index as int]]
        },
        FocusState::ListFocus => false,
    }
}

/// What a key does while the attention is on the list.
fn handle_list_focus(key: KeyMatch, app: &mut App) -> (r: FocusState)
    requires
        old(app).todo_list.wf(),
        !key.quit && key.focus_filter ==> can_focus_filter(old(app).todo_list),
    ensures
        final(app).todo_list.wf(),
        final(app).config == old(app).config,
        final(app).state == old(app).state,
        final(app).running == (old(app).running && !key.quit),
        final(app).todo_list.held() == old(app).todo_list.held(),
        final(app).todo_list.current_filter() == old(app).todo_list.current_filter(),
        final(app).todo_list.as_of() == old(app).todo_list.as_of(),
        final(app).todo_list.selection() == selection_after(old(app).todo_list, key),
        !key.quit && key.focus_filter ==> remembers(r, old(app).todo_list),
        key.quit || !key.focus_filter ==> r is ListFocus,
{
    if key.quit {
        app.running = false;
        return FocusState::ListFocus;
    }
    if key.focus_filter {
        let index = match app.todo_list.selected() {
            Some(i) => i,
            None => unreached(),
        };
        let (_, item) = app.todo_list.filtered_item(index);
        return FocusState::FilterFocus {
            previous_selection_index: index,
            previous_selection_item: item.clone(),
        };
    }
    let len = app.todo_list.filtered_count();
    if len > 0 {
        if key.up {
            let moved = match app.todo_list.selected() {
                Some(i) => {
                    let r = i % len;
                    proof {
                        lemma_steps(i as int, len as int);
                    }
                    Some(
                        if r == 0 {
                            len - 1
                        } else {
                            r - 1
                        },
                    )
                },
                None => None,
            };
            app.todo_list.select(moved);
        } else if key.down {
            let moved = match app.todo_list.selected() {
                Some(i) => {
                    let r = i % len;
                    proof {
                        lemma_steps(i as int, len as int);
                    }
                    Some(
                        if r + 1 == len {
                            0
                        } else {
                            r + 1
                        },
                    )
                },
                None => None,
            };
            app.todo_list.select(moved);
        }
    }
    FocusState::ListFocus
}

/// Which shown task is selected after a key went to the list: the one
/// above for the key that moves up, the one below for the key that moves
/// down, as far as tasks are shown and one is selected.
pub open spec fn selection_after(list: SortedFilteredTodoList, key: KeyMatch) -> Option<usize> {
    let len = list.shown().len() as usize;
    if key.quit || key.focus_filter || len == 0 {
        list.selection()
    } else if key.up {
        match list.selection() {
            Some(i) => Some(step_up(i, len)),
            None => None,
        }
    } else if key.down {
        match list.selection() {
            Some(i) => Some(step_down(i, len)),
            None => None,
        }
    } else {
        list.selection()
    }
}

/// The state can take the key: where the key turns the attention from the
/// list to the filter, a shown task is selected.
pub open spec fn can_handle(state: FocusState, key: KeyMatch, list: SortedFilteredTodoList) -> bool {
    state is ListFocus && !key.quit && key.focus_filter ==> can_focus_filter(list)
}

/// What a key does to the list while the attention is on the list: the key
/// to quit ends the application; the key for the filter turns the
/// attention there, the state remembering the selected task; the keys for
/// up and down move the selection.
pub open spec fn handles_on_list(
    before: App,
    key: KeyMatch,
    after: App,
    next: FocusState,
    used: bool,
) -> bool {
    &&& !used
    &&& after.running == (before.running && !key.quit)
    &&& after.todo_list.current_filter() == before.todo_list.current_filter()
    &&& after.todo_list.as_of() == before.todo_list.as_of()
    &&& after.todo_list.selection() == selection_after(before.todo_list, key)
    &&& (key.quit || !key.focus_filter ==> next is ListFocus)
    &&& (!key.quit && key.focus_filter ==> remembers(next, before.todo_list))
}

/// What a key does while the attention is on the filter. The bindings are
/// asked in this order: the keys to cancel and to confirm turn the
/// attention to the list; the key for the priority does nothing; the key
/// for the completion and the key for the threshold change the filter;
/// every other key goes to the input field, whose text gives the words of
/// the filter. After each change of the filter the task `item`, which was
/// selected when the user turned to the filter, is selected again.
pub open spec fn handles_on_filter(
    before: App,
    state: FocusState,
    item: ItemView,
    key: KeyMatch,
    input: Option<String>,
    today: Date,
    after: App,
    next: FocusState,
    used: bool,
) -> bool {
    &&& after.running == before.running
    &&& (key.cancel || key.confirm ==> next is ListFocus)
    &&& (!key.cancel && !key.confirm ==> next == state)
    &&& used == (!key.cancel && !key.confirm && !key.priority && !key.completion && !key.t
        && input is Some)
    &&& (key.cancel || key.confirm || key.priority || (!key.completion && !key.t && input is None)
        ==> after.todo_list == before.todo_list)
    &&& (!key.cancel && !key.confirm && !key.priority && (key.completion || key.t || input
        is Some) ==> {
        &&& after.todo_list.as_of() == today
        &&& after.todo_list.current_filter()@ == filter_after(
            before.todo_list.current_filter()@,
            key,
            input,
        )
        &&& after.todo_list.selection() == Some(
            found_again(after.todo_list.tasks(), after.todo_list.shown(), item),
        )
    })
}

/// What a key does in the state `state`, whatever the application holds as
/// its state meanwhile.
pub open spec fn handles(
    before: App,
    state: FocusState,
    key: KeyMatch,
    input: Option<String>,
    today: Date,
    after: App,
    next: FocusState,
    used: bool,
) -> bool {
    &&& after.todo_list.wf()
    &&& after.config == before.config
    &&& after.todo_list.held() == before.todo_list.held()
    &&& match state {
        FocusState::ListFocus => handles_on_list(before, key, after, next, used),
        FocusState::FilterFocus { previous_selection_index, previous_selection_item } => {
            handles_on_filter(
                before,
                state,
                previous_selection_item@,
                key,
                input,
                today,
                after,
                next,
                used,
            )
        },
    }
}

/// What a key does in the given state. Gives the next state, and whether
/// the text of the input field was taken into the filter.
pub fn handle_state(
    input: Option<String>,
    key: KeyMatch,
    app: &mut App,
    state: FocusState,
    today: Date,
) -> (r: (FocusState, bool))
    requires
        old(app).todo_list.wf(),
        can_handle(state, key, old(app).todo_list),
    ensures
        handles(*old(app), state, key, input, today, *final(app), r.0, r.1),
        final(app).state == old(app).state,
{
    match state {
        FocusState::FilterFocus { previous_selection_index, previous_selection_item } => {
            let (leave, used) = handle_filter_focus(
                input,
                key,
                app,
                &previous_selection_item,
                today,
            );
            if leave {
                (FocusState::ListFocus, used)
            } else {
                (FocusState::FilterFocus { previous_selection_index, previous_selection_item }, used)
            }
        },
        FocusState::ListFocus => {
            let next = handle_list_focus(key, app);
            (next, false)
        },
    }
}

/// What a key does to the application. No key at all does nothing. The key
/// that interrupts ends the application, whatever the state. Every other
/// key does what it does in the state of the application, which then is the
/// next state. Tells whether the text of the input field was taken into the
/// filter.
pub fn handle_key_event(
    key: Option<KeyMatch>,
    input: Option<String>,
    app: &mut App,
    today: Date,
) -> (input_used: bool)
    requires
        old(app).todo_list.wf(),
        key matches Some(k) ==> k.interrupt || can_handle(old(app).state, k, old(app).todo_list),
    ensures
        match key {
            None => *final(app) == *old(app) && !input_used,
            Some(k) => if k.interrupt {
                &&& !final(app).running
                &&& final(app).config == old(app).config
                &&& final(app).state == old(app).state
                &&& final(app).todo_list == old(app).todo_list
                &&& !input_used
            } else {
                handles(
                    *old(app),
                    old(app).state,
                    k,
                    input,
                    today,
                    *final(app),
                    final(app).state,
                    input_used,
                )
            },
        },
{
    match key {
        None => false,
        Some(k) => {
            if k.interrupt {
                app.quit();
                return false;
            }
            let state = app.take_state();
            let (next, used) = handle_state(input, k, app, state, today);
            app.state = next;
            used
        },
    }
}

} // verus!
