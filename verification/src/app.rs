//! The filter on tasks, and the list that keeps its tasks sorted, with the
//! tasks that pass its filter picked out and the names of all contexts and
//! projects at hand.

use vstd::prelude::*;
use vstd::string::StringExecFns;

use crate::config::Config;
use crate::date::{chrono_days_between, Date};
use crate::order::{is_sorted, law_sort_sorted, sort_items, sort_seq};
use crate::text::{contains, occurs_in, string_of_range, to_chars};
use crate::todo::parsing::{content_parts, names_in, string_views};
use crate::todo::{item_views, list_text, same_char, ItemView, TodoItem, TodoList};

verus! {

/// What `str::to_lowercase` makes of a text: the text in lower case, as the
/// Unicode tables of the standard library have it.
pub uninterp spec fn lowercase(s: Seq<char>) -> Seq<char>;

/// Calls `str::to_lowercase`. Its result depends on the text alone.
#[verifier::external_body]
fn to_lowercase(s: &str) -> (r: String)
    ensures
        r@ == lowercase(s@),
{
    s.to_lowercase()
}

/// Which tasks to show. A part that is `None` lets every task pass.
#[derive(Debug)]
pub struct TodoListFilter {
    /// `Some(true)` lets only completed tasks pass, `Some(false)` only open
    /// ones.
    pub completion: Option<bool>,
    /// `Some(None)` lets only tasks without priority pass, `Some(Some(p))`
    /// only those of priority `p`.
    pub priority: Option<Option<char>>,
    /// Words that must all stand in the text of a task, each anywhere in
    /// it.
    pub words: Vec<String>,
    /// Whether the words are looked for without regard to case.
    pub ignore_case: bool,
    /// `Some(n)` hides the tasks whose threshold date lies more than `n`
    /// days after today.
    pub hide_threshold_beyond_days: Option<u32>,
}

/// What a [`TodoListFilter`] holds, its words as sequences of characters.
pub struct FilterView {
    pub completion: Option<bool>,
    pub priority: Option<Option<char>>,
    pub words: Seq<Seq<char>>,
    pub ignore_case: bool,
    pub hide_threshold_beyond_days: Option<u32>,
}

impl View for TodoListFilter {
    type V = FilterView;

    open spec fn view(&self) -> FilterView {
        FilterView {
            completion: self.completion,
            priority: self.priority,
            words: string_views(self.words@),
            ignore_case: self.ignore_case,
            hide_threshold_beyond_days: self.hide_threshold_beyond_days,
        }
    }
}

/// The word stands somewhere in the text; without regard to case, where
/// `ignore_case` is set: then both are taken in lower case.
pub open spec fn word_occurs(word: Seq<char>, content: Seq<char>, ignore_case: bool) -> bool {
    if ignore_case {
        occurs_in(lowercase(content), lowercase(word))
    } else {
        occurs_in(content, word)
    }
}

/// The threshold date lies more than `limit` days after `today`.
pub open spec fn is_beyond(threshold: Date, today: Date, limit: u32) -> bool {
    threshold.number() - today.number() > limit
}

impl FilterView {
    /// The task passes the filter on the day `today`: it has the asked
    /// priority and the asked completion, each word of the filter stands in
    /// its text, and its threshold date, if it has one, does not lie more
    /// days after `today` than the filter allows.
    pub open spec fn passes(self, item: ItemView, today: Date) -> bool {
        &&& self.priority matches Some(p) ==> item.priority == p
        &&& self.completion matches Some(c) ==> item.completed == c
        &&& forall|k: int|
            0 <= k < self.words.len() ==> word_occurs(
                #[trigger] self.words[k],
                item.content,
                self.ignore_case,
            )
        &&& !(self.hide_threshold_beyond_days matches Some(limit) && item.t matches Some(
            threshold,
        ) && is_beyond(threshold, today, limit))
    }
}

/// The positions below `n` of the tasks that pass the filter, in rising
/// order.
pub open spec fn passing(items: Seq<ItemView>, filter: FilterView, today: Date, n: int) -> Seq<
    int,
>
    decreases n,
{
    if n <= 0 {
        Seq::empty()
    } else {
        let before = passing(items, filter, today, n - 1);
        if filter.passes(items[n - 1], today) {
            before.push(n - 1)
        } else {
            before
        }
    }
}

/// The positions of the tasks that pass the filter, in rising order.
pub open spec fn filtered(items: Seq<ItemView>, filter: FilterView, today: Date) -> Seq<int> {
    passing(items, filter, today, items.len() as int)
}

/// Below every position, a filter that lets pass only what another filter
/// lets pass shows no more tasks than the other.
proof fn lemma_passing_monotone(
    items: Seq<ItemView>,
    a: FilterView,
    b: FilterView,
    today: Date,
    n: int,
)
    requires
        forall|item: ItemView| #[trigger] b.passes(item, today) ==> a.passes(item, today),
    ensures
        passing(items, b, today, n).len() <= passing(items, a, today, n).len(),
    decreases n,
{
    if n > 0 {
        lemma_passing_monotone(items, a, b, today, n - 1);
    }
}

/// A filter that lets pass only what another filter lets pass shows no more
/// tasks of a list than the other.
pub proof fn law_filter_monotone(items: Seq<ItemView>, a: FilterView, b: FilterView, today: Date)
    requires
        forall|item: ItemView| #[trigger] b.passes(item, today) ==> a.passes(item, today),
    ensures
        filtered(items, b, today).len() <= filtered(items, a, today).len(),
{
    lemma_passing_monotone(items, a, b, today, items.len() as int);
}

/// The positions that pass are positions of the list, in rising order.
pub proof fn lemma_passing_bounds(items: Seq<ItemView>, filter: FilterView, today: Date, n: int)
    requires
        n <= items.len(),
    ensures
        passing(items, filter, today, n).len() <= if n > 0 {
            n
        } else {
            0
        },
        forall|k: int|
            0 <= k < passing(items, filter, today, n).len() ==> 0 <= #[trigger] passing(
                items,
                filter,
                today,
                n,
            )[k] < n && filter.passes(items[passing(items, filter, today, n)[k]], today),
        forall|j: int, k: int|
            0 <= j < k < passing(items, filter, today, n).len() ==> passing(
                items,
                filter,
                today,
                n,
            )[j] < passing(items, filter, today, n)[k],
    decreases n,
{
    if n > 0 {
        lemma_passing_bounds(items, filter, today, n - 1);
    }
}

/// The filter that a new list has: it hides the tasks whose threshold date
/// lies after today, and no others; it has no words, and would look for
/// words without regard to case.
pub open spec fn default_filter() -> FilterView {
    FilterView {
        completion: None,
        priority: None,
        words: Seq::empty(),
        ignore_case: true,
        hide_threshold_beyond_days: Some(0u32),
    }
}

impl Default for TodoListFilter {
    fn default() -> (r: TodoListFilter)
        ensures
            r@ == default_filter(),
    {
        let r = TodoListFilter {
            completion: None,
            priority: None,
            words: Vec::new(),
            ignore_case: true,
            hide_threshold_beyond_days: Some(0),
        };
        assert(string_views(r.words@) =~= Seq::<Seq<char>>::empty());
        r
    }
}

/// What `char::is_whitespace` says of a character: whether it is white
/// space, as the Unicode tables of the standard library have it.
pub uninterp spec fn is_whitespace(c: char) -> bool;

/// Calls `char::is_whitespace`. Its result depends on the character alone.
#[verifier::external_body]
fn char_is_whitespace(c: char) -> (r: bool)
    ensures
        r == is_whitespace(c),
{
    c.is_whitespace()
}

/// Which characters of a text are white space.
pub open spec fn whitespace_flags(s: Seq<char>) -> Seq<bool> {
    Seq::new(s.len(), |k: int| is_whitespace(s[k]))
}

/// The first position from `i` on whose flag is not `value`.
pub open spec fn run_end(flags: Seq<bool>, i: int, value: bool) -> int
    decreases flags.len() - i,
{
    if 0 <= i < flags.len() && flags[i] == value {
        run_end(flags, i + 1, value)
    } else {
        i
    }
}

/// The pieces of a text from position `i` on that lie between the flagged
/// characters: the longest runs of characters without a flag.
pub open spec fn pieces_from(s: Seq<char>, flags: Seq<bool>, i: int) -> Seq<Seq<char>>
    decreases s.len() - i,
{
    let a = run_end(flags, i, true);
    let b = run_end(flags, a, false);
    if 0 <= i <= a && a < b <= s.len() {
        seq![s.subrange(a, b)] + pieces_from(s, flags, b)
    } else {
        Seq::empty()
    }
}

/// The words of the text from position `i` on: the longest runs of
/// characters that are no white space.
pub open spec fn words_from(s: Seq<char>, i: int) -> Seq<Seq<char>> {
    pieces_from(s, whitespace_flags(s), i)
}

/// The pieces of a text that lie between its flagged characters.
pub fn split_by(chars: &Vec<char>, flags: &Vec<bool>) -> (r: Vec<String>)
    requires
        flags.len() == chars.len(),
    ensures
        string_views(r@) == pieces_from(chars@, flags@, 0),
{
    let mut out: Vec<String> = Vec::new();
    let mut i: usize = 0;
    assert(string_views(out@) + pieces_from(chars@, flags@, 0) =~= pieces_from(
        chars@,
        flags@,
        0,
    ));
    loop
        invariant
            i <= chars.len(),
            flags.len() == chars.len(),
            pieces_from(chars@, flags@, 0) == string_views(out@) + pieces_from(
                chars@,
                flags@,
                i as int,
            ),
        decreases chars.len() - i,
    {
        let mut a: usize = i;
        while a < chars.len() && flags[a]
            invariant
                i <= a <= chars.len(),
                flags.len() == chars.len(),
                run_end(flags@, i as int, true) == run_end(flags@, a as int, true),
            decreases chars.len() - a,
        {
            a += 1;
        }
        if a >= chars.len() {
            proof {
                assert(pieces_from(chars@, flags@, i as int) =~= Seq::<Seq<char>>::empty());
                assert(string_views(out@) + Seq::<Seq<char>>::empty() =~= string_views(out@));
            }
            return out;
        }
        let mut b: usize = a + 1;
        assert(run_end(flags@, a as int, false) == run_end(flags@, a + 1, false));
        while b < chars.len() && !flags[b]
            invariant
                a < b <= chars.len(),
                flags.len() == chars.len(),
                run_end(flags@, a as int, false) == run_end(flags@, b as int, false),
            decreases chars.len() - b,
        {
            b += 1;
        }
        let word = string_of_range(chars, a, b);
        proof {
            let rest = pieces_from(chars@, flags@, b as int);
            assert(pieces_from(chars@, flags@, i as int) == seq![word@] + rest);
            assert(string_views(out@.push(word)) =~= string_views(out@) + seq![word@]);
            assert(string_views(out@) + (seq![word@] + rest) =~= (string_views(out@) + seq![
                word@,
            ]) + rest);
        }
        out.push(word);
        i = b;
    }
}

/// The words of a text: what stands between its white space.
pub fn split_words(text: &str) -> (r: Vec<String>)
    ensures
        string_views(r@) == words_from(text@, 0),
{
    let chars = to_chars(text);
    let mut flags: Vec<bool> = Vec::new();
    let mut i: usize = 0;
    while i < chars.len()
        invariant
            i <= chars.len(),
            flags.len() == i,
            forall|k: int| 0 <= k < i ==> flags@[k] == is_whitespace(chars@[k]),
        decreases chars.len() - i,
    {
        flags.push(char_is_whitespace(chars[i]));
        i += 1;
    }
    assert(flags@ =~= whitespace_flags(chars@));
    split_by(&chars, &flags)
}

/// The next state of the completion part of a filter: from letting all
/// tasks pass to completed ones only, to open ones only, and round again.
pub open spec fn next_completion(c: Option<bool>) -> Option<bool> {
    match c {
        None => Some(true),
        Some(true) => Some(false),
        Some(false) => None,
    }
}

impl Clone for TodoListFilter {
    fn clone(&self) -> (r: TodoListFilter)
        ensures
            r@ == self@,
    {
        let mut words: Vec<String> = Vec::new();
        let mut i: usize = 0;
        while i < self.words.len()
            invariant
                i <= self.words.len(),
                words@.len() == i,
                forall|k: int| 0 <= k < i ==> words@[k]@ == self.words@[k]@,
            decreases self.words.len() - i,
        {
            words.push(self.words[i].clone());
            i += 1;
        }
        assert(string_views(words@) =~= string_views(self.words@));
        TodoListFilter {
            completion: self.completion,
            priority: self.priority,
            words,
            ignore_case: self.ignore_case,
            hide_threshold_beyond_days: self.hide_threshold_beyond_days,
        }
    }
}

impl TodoListFilter {
    /// Whether the task passes the filter on the day `today`.
    pub fn applies(&self, item: &TodoItem, today: Date) -> (r: bool)
        ensures
            r == self@.passes(item@, today),
    {
        if let Some(p) = self.priority {
            if !same_char(&p, &item.priority) {
                return false;
            }
        }
        if let Some(c) = self.completion {
            if c != item.completed {
                return false;
            }
        }
        if !self.has_words(item) {
            return false;
        }
        if let Some(limit) = self.hide_threshold_beyond_days {
            if let Some(threshold) = item.t {
                proof {
                    use_type_invariant(&threshold);
                    use_type_invariant(&today);
                }
                if chrono_days_between(today, threshold) > limit as i64 {
                    return false;
                }
            }
        }
        true
    }

    /// Whether each word of the filter stands in the text of the task.
    fn has_words(&self, item: &TodoItem) -> (r: bool)
        ensures
            r == forall|k: int|
                0 <= k < self@.words.len() ==> word_occurs(
                    #[trigger] self@.words[k],
                    item@.content,
                    self@.ignore_case,
                ),
    {
        if self.words.len() == 0 {
            return true;
        }
        let hay = if self.ignore_case {
            to_chars(to_lowercase(item.content.as_str()).as_str())
        } else {
            to_chars(item.content.as_str())
        };
        let mut k: usize = 0;
        while k < self.words.len()
            invariant
                k <= self.words.len(),
                hay@ == if self.ignore_case {
                    lowercase(item@.content)
                } else {
                    item@.content
                },
                forall|j: int|
                    0 <= j < k ==> word_occurs(
                        #[trigger] self@.words[j],
                        item@.content,
                        self@.ignore_case,
                    ),
            decreases self.words.len() - k,
        {
            let needle = if self.ignore_case {
                to_chars(to_lowercase(self.words[k].as_str()).as_str())
            } else {
                to_chars(self.words[k].as_str())
            };
            assert(self@.words[k as int] == self.words@[k as int]@);
            if !contains(&hay, &needle) {
                return false;
            }
            k += 1;
        }
        true
    }
}

/// The names `known` and, behind them, those of `names` that are not yet
/// among them, each once.
pub open spec fn merge_names(known: Seq<Seq<char>>, names: Seq<Seq<char>>) -> Seq<Seq<char>>
    decreases names.len(),
{
    if names.len() == 0 {
        known
    } else {
        let merged = merge_names(known, names.drop_last());
        if merged.contains(names.last()) {
            merged
        } else {
            merged.push(names.last())
        }
    }
}

/// The names of the contexts that stand in the texts of the tasks, or of
/// the projects: each name once, in the order in which the names first
/// occur.
pub open spec fn vocabulary(items: Seq<ItemView>, projects: bool) -> Seq<Seq<char>>
    decreases items.len(),
{
    if items.len() == 0 {
        Seq::empty()
    } else {
        merge_names(
            vocabulary(items.drop_last(), projects),
            names_in(content_parts(items.last().content), projects),
        )
    }
}

/// The task names the context, or the project, in its text.
pub open spec fn mentions(item: ItemView, name: Seq<char>, projects: bool) -> bool {
    names_in(content_parts(item.content), projects).contains(name)
}

/// Merging keeps each name once, and the merged names are those that were
/// known and those that were added.
proof fn lemma_merge_names(known: Seq<Seq<char>>, names: Seq<Seq<char>>)
    requires
        known.no_duplicates(),
    ensures
        merge_names(known, names).no_duplicates(),
        forall|name: Seq<char>|
            #[trigger] merge_names(known, names).contains(name) <==> known.contains(name)
                || names.contains(name),
    decreases names.len(),
{
    if names.len() > 0 {
        let rest = names.drop_last();
        let last = names.last();
        lemma_merge_names(known, rest);
        let merged = merge_names(known, rest);
        let result = merge_names(known, names);
        assert forall|name: Seq<char>| #[trigger]
            result.contains(name) <==> known.contains(name) || names.contains(name) by {
            if names.contains(name) {
                let i = choose|i: int| 0 <= i < names.len() && names[i] == name;
                if i < rest.len() {
                    assert(rest[i] == name);
                }
            }
            if rest.contains(name) {
                let i = choose|i: int| 0 <= i < rest.len() && rest[i] == name;
                assert(names[i] == name);
            }
            assert(names[names.len() - 1] == last);
            if !merged.contains(last) {
                assert(result == merged.push(last));
                assert(result[merged.len() as int] == last);
                if merged.contains(name) {
                    let i = choose|i: int| 0 <= i < merged.len() && merged[i] == name;
                    assert(result[i] == name);
                }
                if result.contains(name) {
                    let i = choose|i: int| 0 <= i < result.len() && result[i] == name;
                    if i < merged.len() {
                        assert(merged[i] == name);
                    }
                }
            }
        }
    }
}

/// The vocabulary holds each name once, and it holds exactly the names
/// that the tasks mention: none is missing and none is stale.
pub proof fn law_vocabulary_exact(items: Seq<ItemView>, projects: bool)
    ensures
        vocabulary(items, projects).no_duplicates(),
        forall|name: Seq<char>|
            #[trigger] vocabulary(items, projects).contains(name) <==> exists|i: int|
                0 <= i < items.len() && mentions(#[trigger] items[i], name, projects),
    decreases items.len(),
{
    if items.len() > 0 {
        let rest = items.drop_last();
        law_vocabulary_exact(rest, projects);
        let names = names_in(content_parts(items.last().content), projects);
        lemma_merge_names(vocabulary(rest, projects), names);
        assert forall|name: Seq<char>| #[trigger]
            vocabulary(items, projects).contains(name) <==> exists|i: int|
                0 <= i < items.len() && mentions(#[trigger] items[i], name, projects) by {
            if vocabulary(rest, projects).contains(name) {
                let i = choose|i: int|
                    0 <= i < rest.len() && mentions(#[trigger] rest[i], name, projects);
                assert(items[i] == rest[i]);
            }
            if names.contains(name) {
                assert(mentions(items[items.len() - 1], name, projects));
            }
            if exists|i: int| 0 <= i < items.len() && mentions(#[trigger] items[i], name, projects) {
                let i = choose|i: int|
                    0 <= i < items.len() && mentions(#[trigger] items[i], name, projects);
                if i < rest.len() {
                    assert(rest[i] == items[i]);
                }
            }
        }
    }
}

/// The positions as mathematical integers.
pub open spec fn index_views(indices: Seq<usize>) -> Seq<int> {
    Seq::new(indices.len(), |i: int| indices[i] as int)
}

/// Whether `name` is among `names`.
fn holds_name(names: &Vec<String>, name: &String) -> (r: bool)
    ensures
        r == string_views(names@).contains(name@),
{
    let mut i: usize = 0;
    while i < names.len()
        invariant
            i <= names.len(),
            forall|j: int| 0 <= j < i ==> string_views(names@)[j] != name@,
        decreases names.len() - i,
    {
        if names[i] == *name {
            assert(string_views(names@)[i as int] == name@);
            return true;
        }
        i += 1;
    }
    false
}

/// Puts those of `names` that are not yet among `known` behind them.
fn add_names(known: &mut Vec<String>, names: &Vec<String>)
    ensures
        string_views(final(known)@) == merge_names(
            string_views(old(known)@),
            string_views(names@),
        ),
{
    let ghost all = string_views(names@);
    let ghost first = string_views(known@);
    let mut i: usize = 0;
    assert(all.take(0) =~= Seq::<Seq<char>>::empty());
    while i < names.len()
        invariant
            i <= names.len(),
            all == string_views(names@),
            string_views(known@) == merge_names(first, all.take(i as int)),
        decreases names.len() - i,
    {
        proof {
            let upto = all.take(i + 1);
            assert(upto.drop_last() =~= all.take(i as int));
            assert(upto.last() == names@[i as int]@);
        }
        if !holds_name(known, &names[i]) {
            let ghost before = known@;
            known.push(names[i].clone());
            assert(string_views(known@) =~= string_views(before).push(names@[i as int]@));
        }
        i += 1;
    }
    assert(all.take(i as int) =~= all);
}

/// The names of the contexts in the texts of the tasks, or of the
/// projects.
fn collect_names(items: &Vec<TodoItem>, projects: bool) -> (r: Vec<String>)
    ensures
        string_views(r@) == vocabulary(item_views(items@), projects),
{
    let mut out: Vec<String> = Vec::new();
    let ghost all = item_views(items@);
    let mut i: usize = 0;
    assert(all.take(0) =~= Seq::<ItemView>::empty());
    assert(string_views(out@) =~= Seq::<Seq<char>>::empty());
    while i < items.len()
        invariant
            i <= items.len(),
            all == item_views(items@),
            string_views(out@) == vocabulary(all.take(i as int), projects),
        decreases items.len() - i,
    {
        proof {
            let upto = all.take(i + 1);
            assert(upto.drop_last() =~= all.take(i as int));
            assert(upto.last() == items@[i as int]@);
        }
        let names = if projects {
            items[i].projects()
        } else {
            items[i].contexts()
        };
        add_names(&mut out, &names);
        i += 1;
    }
    assert(all.take(i as int) =~= all);
    out
}

/// The positions of the tasks that pass the filter.
fn collect_passing(items: &Vec<TodoItem>, filter: &TodoListFilter, today: Date) -> (r: Vec<usize>)
    ensures
        index_views(r@) == filtered(item_views(items@), filter@, today),
{
    let mut out: Vec<usize> = Vec::new();
    let ghost all = item_views(items@);
    let mut i: usize = 0;
    assert(index_views(out@) =~= passing(all, filter@, today, 0));
    while i < items.len()
        invariant
            i <= items.len(),
            all == item_views(items@),
            index_views(out@) == passing(all, filter@, today, i as int),
        decreases items.len() - i,
    {
        if filter.applies(&items[i], today) {
            let ghost before = out@;
            out.push(i);
            assert(index_views(out@) =~= index_views(before).push(i as int));
        }
        i += 1;
    }
    out
}

/// A list of tasks that is always sorted, with a filter on it. What it
/// shows is the tasks that pass the filter, in the order of the list.
#[derive(Debug)]
pub struct SortedFilteredTodoList {
    pub(crate) items: Vec<TodoItem>,
    pub(crate) filter: TodoListFilter,
    pub(crate) view_indices: Vec<usize>,
    pub(crate) contexts: Vec<String>,
    pub(crate) projects: Vec<String>,
    pub(crate) today: Date,
    pub(crate) selected: Option<usize>,
}

impl SortedFilteredTodoList {
    /// The tasks of the list, in order.
    pub open(crate) spec fn tasks(&self) -> Seq<ItemView> {
        item_views(self.items@)
    }

    /// The tasks of the list as the list holds them.
    pub open(crate) spec fn held(&self) -> Vec<TodoItem> {
        self.items
    }

    /// The filter of the list.
    pub open(crate) spec fn current_filter(&self) -> TodoListFilter {
        self.filter
    }

    /// The day as of which the list is filtered.
    pub open(crate) spec fn as_of(&self) -> Date {
        self.today
    }

    /// Which of the shown tasks is selected, counted from 0.
    pub open(crate) spec fn selection(&self) -> Option<usize> {
        self.selected
    }

    /// The positions of the tasks that the list shows.
    pub open(crate) spec fn shown(&self) -> Seq<int> {
        index_views(self.view_indices@)
    }

    /// The names of the contexts that the list offers.
    pub open(crate) spec fn context_names(&self) -> Seq<Seq<char>> {
        string_views(self.contexts@)
    }

    /// The names of the projects that the list offers.
    pub open(crate) spec fn project_names(&self) -> Seq<Seq<char>> {
        string_views(self.projects@)
    }

    /// What holds of the list between any two calls: its tasks are sorted;
    /// it shows exactly the tasks that pass its filter, in the order of the
    /// list; and it offers exactly the names of the contexts and of the
    /// projects that its tasks mention.
    pub open spec fn wf(&self) -> bool {
        &&& is_sorted(self.tasks())
        &&& self.shown() == filtered(self.tasks(), self.current_filter()@, self.as_of())
        &&& self.context_names() == vocabulary(self.tasks(), false)
        &&& self.project_names() == vocabulary(self.tasks(), true)
    }

    /// The sorted list of the given tasks, with the filter that every new
    /// list has, as of the day `today`. The first shown task is selected.
    pub fn new(list: TodoList, today: Date) -> (r: SortedFilteredTodoList)
        ensures
            r.wf(),
            r.tasks() == sort_seq(list@),
            r.current_filter()@ == default_filter(),
            r.as_of() == today,
            r.selection() == Some(0usize),
    {
        let filter = TodoListFilter::default();
        let items = sort_items(list.items);
        proof {
            law_sort_sorted(list@);
        }
        let view_indices = collect_passing(&items, &filter, today);
        let contexts = collect_names(&items, false);
        let projects = collect_names(&items, true);
        SortedFilteredTodoList {
            items,
            filter,
            view_indices,
            contexts,
            projects,
            today,
            selected: Some(0),
        }
    }

    /// The filter of the list.
    pub fn filter(&self) -> (r: &TodoListFilter)
        ensures
            *r == self.current_filter(),
    {
        &self.filter
    }

    /// Which of the shown tasks is selected, counted from 0.
    pub fn selected(&self) -> (r: Option<usize>)
        ensures
            r == self.selection(),
    {
        self.selected
    }

    /// Selects one of the shown tasks, or none.
    pub fn select(&mut self, index: Option<usize>)
        ensures
            final(self).selection() == index,
            final(self).held() == old(self).held(),
            final(self).current_filter() == old(self).current_filter(),
            final(self).as_of() == old(self).as_of(),
            final(self).shown() == old(self).shown(),
            final(self).context_names() == old(self).context_names(),
            final(self).project_names() == old(self).project_names(),
            old(self).wf() ==> final(self).wf(),
    {
        self.selected = index;
    }

    /// The number of tasks that the list shows.
    pub fn filtered_count(&self) -> (r: usize)
        ensures
            r == self.shown().len(),
    {
        self.view_indices.len()
    }

    /// The number of all tasks of the list.
    pub fn len(&self) -> (r: usize)
        ensures
            r == self.tasks().len(),
    {
        self.items.len()
    }

    /// The task that the list shows at position `k`, and its position among
    /// all tasks of the list.
    pub fn filtered_item(&self, k: usize) -> (r: (usize, &TodoItem))
        requires
            self.wf(),
            k < self.shown().len(),
        ensures
            r.0 == self.shown()[k as int],
            r.0 < self.tasks().len(),
            r.1@ == self.tasks()[r.0 as int],
            self.current_filter()@.passes(r.1@, self.as_of()),
    {
        proof {
            lemma_passing_bounds(
                self.tasks(),
                self.filter@,
                self.today,
                self.tasks().len() as int,
            );
            assert(self.shown()[k as int] == self.view_indices@[k as int]);
        }
        let i = self.view_indices[k];
        (i, &self.items[i])
    }

    /// The tasks that the list shows, in order.
    pub fn items(&self) -> (r: Vec<&TodoItem>)
        requires
            self.wf(),
        ensures
            r@.len() == self.shown().len(),
            forall|k: int| 0 <= k < r@.len() ==> (#[trigger] r@[k])@ == self.tasks()[self.shown()[k]],
    {
        let mut out: Vec<&TodoItem> = Vec::new();
        let mut k: usize = 0;
        while k < self.view_indices.len()
            invariant
                self.wf(),
                k <= self.view_indices.len(),
                out@.len() == k,
                forall|j: int| 0 <= j < k ==> (#[trigger] out@[j])@ == self.tasks()[self.shown()[j]],
            decreases self.view_indices.len() - k,
        {
            let (_, item) = self.filtered_item(k);
            out.push(item);
            k += 1;
        }
        out
    }

    /// The tasks that the list shows, in order, each with its position
    /// among all tasks of the list.
    pub fn filtered_items(&self) -> (r: Vec<(usize, &TodoItem)>)
        requires
            self.wf(),
        ensures
            r@.len() == self.shown().len(),
            forall|k: int|
                0 <= k < r@.len() ==> (#[trigger] r@[k]).0 == self.shown()[k] && r@[k].1@
                    == self.tasks()[self.shown()[k]],
    {
        let mut out: Vec<(usize, &TodoItem)> = Vec::new();
        let mut k: usize = 0;
        while k < self.view_indices.len()
            invariant
                self.wf(),
                k <= self.view_indices.len(),
                out@.len() == k,
                forall|j: int|
                    0 <= j < k ==> (#[trigger] out@[j]).0 == self.shown()[j] && out@[j].1@
                        == self.tasks()[self.shown()[j]],
            decreases self.view_indices.len() - k,
        {
            let pair = self.filtered_item(k);
            out.push(pair);
            k += 1;
        }
        out
    }

    /// All tasks of the list, in order.
    pub fn all_items(&self) -> (r: &Vec<TodoItem>)
        ensures
            item_views(r@) == self.tasks(),
    {
        &self.items
    }

    /// The names of the contexts that the tasks mention, each once.
    pub fn contexts(&self) -> (r: &Vec<String>)
        ensures
            string_views(r@) == self.context_names(),
    {
        &self.contexts
    }

    /// The names of the projects that the tasks mention, each once.
    pub fn projects(&self) -> (r: &Vec<String>)
        ensures
            string_views(r@) == self.project_names(),
    {
        &self.projects
    }

    /// All tasks of the list as the text of a file.
    pub fn to_string(&self) -> (r: String)
        ensures
            r@ == list_text(self.tasks()),
    {
        let mut out = String::new();
        let mut i: usize = 0;
        let ghost all = self.tasks();
        assert(all.take(0) =~= Seq::<ItemView>::empty());
        while i < self.items.len()
            invariant
                i <= self.items.len(),
                all == self.tasks(),
                out@ == list_text(all.take(i as int)),
            decreases self.items.len() - i,
        {
            let line = self.items[i].to_string();
            out.append(line.as_str());
            out.push('\n');
            proof {
                let upto = all.take(i + 1);
                assert(upto.drop_last() =~= all.take(i as int));
                assert(upto.last() == self.items@[i as int]@);
            }
            i += 1;
        }
        assert(all.take(i as int) =~= all);
        out
    }

    /// What holds of the tasks of the list whatever its filter is.
    pub open spec fn tasks_wf(&self) -> bool {
        &&& is_sorted(self.tasks())
        &&& self.context_names() == vocabulary(self.tasks(), false)
        &&& self.project_names() == vocabulary(self.tasks(), true)
    }

    /// Puts a filter in and picks out the tasks that pass it.
    fn refilter(&mut self, filter: TodoListFilter, today: Date)
        requires
            old(self).tasks_wf(),
        ensures
            final(self).wf(),
            final(self).current_filter() == filter,
            final(self).held() == old(self).held(),
            final(self).as_of() == today,
            final(self).selection() == old(self).selection(),
    {
        self.filter = filter;
        self.today = today;
        self.view_indices = collect_passing(&self.items, &self.filter, today);
    }

    /// Takes a new filter and picks out anew, as of the day `today`, the
    /// tasks that pass it.
    pub fn set_filter(&mut self, filter: TodoListFilter, today: Date)
        requires
            old(self).wf(),
        ensures
            final(self).wf(),
            final(self).current_filter() == filter,
            final(self).held() == old(self).held(),
            final(self).as_of() == today,
            final(self).selection() == old(self).selection(),
    {
        self.refilter(filter, today);
    }

    /// Changes the filter by `f` and picks out anew, as of the day `today`,
    /// the tasks that pass it.
    pub fn mutate_filter<F: FnOnce(TodoListFilter) -> TodoListFilter>(&mut self, f: F, today: Date)
        requires
            old(self).wf(),
            f.requires((old(self).current_filter(),)),
        ensures
            final(self).wf(),
            f.ensures((old(self).current_filter(),), final(self).current_filter()),
            final(self).held() == old(self).held(),
            final(self).as_of() == today,
            final(self).selection() == old(self).selection(),
    {
        let mut filter = TodoListFilter::default();
        std::mem::swap(&mut self.filter, &mut filter);
        let changed = f(filter);
        self.refilter(changed, today);
    }

    /// Changes the tasks by `f`, sorts them, gathers the names of their
    /// contexts and projects anew, and picks out anew, as of the day
    /// `today`, the tasks that pass the filter.
    pub fn mutate_items<F: FnOnce(Vec<TodoItem>) -> Vec<TodoItem>>(&mut self, f: F, today: Date)
        requires
            old(self).wf(),
            f.requires((old(self).held(),)),
        ensures
            final(self).wf(),
            exists|changed: Vec<TodoItem>|
                f.ensures((old(self).held(),), changed) && final(self).tasks() == sort_seq(
                    item_views(changed@),
                ),
            final(self).current_filter() == old(self).current_filter(),
            final(self).as_of() == today,
            final(self).selection() == old(self).selection(),
    {
        let mut items: Vec<TodoItem> = Vec::new();
        std::mem::swap(&mut self.items, &mut items);
        let changed = f(items);
        proof {
            law_sort_sorted(item_views(changed@));
        }
        self.items = sort_items(changed);
        self.today = today;
        self.contexts = collect_names(&self.items, false);
        self.projects = collect_names(&self.items, true);
        self.view_indices = collect_passing(&self.items, &self.filter, today);
    }
}

/// Where the attention of the user is.
#[derive(Debug)]
pub enum FocusState {
    /// On the filter. The state remembers which task was selected when the
    /// user turned to the filter.
    FilterFocus { previous_selection_index: usize, previous_selection_item: TodoItem },
    /// On the list.
    ListFocus,
}

impl Default for FocusState {
    fn default() -> (r: FocusState)
        ensures
            r is ListFocus,
    {
        FocusState::ListFocus
    }
}

/// The application: its marks, whether it still runs, its list, and where
/// the attention of the user is.
#[derive(Debug)]
pub struct App {
    /// The marks of the user interface.
    pub config: Config,
    /// Whether the application still runs.
    pub running: bool,
    /// The list of tasks.
    pub todo_list: SortedFilteredTodoList,
    /// Where the attention of the user is.
    pub state: FocusState,
}

impl App {
    /// The running application with the given tasks, as of the day
    /// `today`, the attention on the list.
    pub fn new(todo_list: TodoList, config: Config, today: Date) -> (r: App)
        ensures
            r.running,
            r.config == config,
            r.state is ListFocus,
            r.todo_list.wf(),
            r.todo_list.tasks() == sort_seq(todo_list@),
            r.todo_list.current_filter()@ == default_filter(),
            r.todo_list.as_of() == today,
            r.todo_list.selection() == Some(0usize),
    {
        App {
            config,
            running: true,
            todo_list: SortedFilteredTodoList::new(todo_list, today),
            state: FocusState::default(),
        }
    }

    /// Hands out the state and leaves the attention on the list.
    pub fn take_state(&mut self) -> (r: FocusState)
        ensures
            r == old(self).state,
            final(self).state is ListFocus,
            final(self).config == old(self).config,
            final(self).running == old(self).running,
            final(self).todo_list == old(self).todo_list,
    {
        let mut state = FocusState::ListFocus;
        std::mem::swap(&mut self.state, &mut state);
        state
    }

    /// What happens when time passes and no key is pressed: nothing.
    pub fn tick(&self) {
    }

    /// Ends the application at the next turn.
    pub fn quit(&mut self)
        ensures
            !final(self).running,
            final(self).config == old(self).config,
            final(self).state == old(self).state,
            final(self).todo_list == old(self).todo_list,
    {
        self.running = false;
    }
}

} // verus!
