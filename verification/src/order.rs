//! The order in which tasks stand in a list, and sorting by it.
//!
//! Tasks are ordered by these keys, each deciding only where the ones before
//! it are equal: open tasks before completed ones; by priority, tasks
//! without priority last; by due date, tasks without due date last; by
//! threshold date, tasks without one first; by completion date, tasks
//! without one first; by creation date, tasks without one first; tasks with
//! a recurrence rule before those without; by text.

use std::cmp::Ordering;
use vstd::prelude::*;

use crate::date::Date;
use crate::text::{index, position, to_chars};
use crate::todo::{item_views, ItemView, TodoItem};

verus! {

/// The order the other way round.
pub open spec fn reversed(o: Ordering) -> Ordering {
    match o {
        Ordering::Less => Ordering::Greater,
        Ordering::Equal => Ordering::Equal,
        Ordering::Greater => Ordering::Less,
    }
}

/// The first order, and the second where the first sees no difference.
pub open spec fn or_else(first: Ordering, second: Ordering) -> Ordering {
    match first {
        Ordering::Equal => second,
        _ => first,
    }
}

/// The order of two truth values: false before true.
pub open spec fn bool_order(a: bool, b: bool) -> Ordering {
    if a == b {
        Ordering::Equal
    } else if b {
        Ordering::Less
    } else {
        Ordering::Greater
    }
}

/// The order of two characters, by code point.
pub open spec fn char_order(a: char, b: char) -> Ordering {
    if a < b {
        Ordering::Less
    } else if a == b {
        Ordering::Equal
    } else {
        Ordering::Greater
    }
}

/// The order of two dates: the earlier one first.
pub open spec fn date_order(a: Date, b: Date) -> Ordering {
    if a.before(b) {
        Ordering::Less
    } else if a == b {
        Ordering::Equal
    } else {
        Ordering::Greater
    }
}

/// The order of two priorities: by letter, and none after any letter.
pub open spec fn priority_order(a: Option<char>, b: Option<char>) -> Ordering {
    match (a, b) {
        (None, None) => Ordering::Equal,
        (None, Some(_)) => Ordering::Greater,
        (Some(_), None) => Ordering::Less,
        (Some(p), Some(q)) => char_order(p, q),
    }
}

/// The order of two dates that may be missing, a missing one last.
pub open spec fn date_order_none_last(a: Option<Date>, b: Option<Date>) -> Ordering {
    match (a, b) {
        (None, None) => Ordering::Equal,
        (None, Some(_)) => Ordering::Greater,
        (Some(_), None) => Ordering::Less,
        (Some(x), Some(y)) => date_order(x, y),
    }
}

/// The order of two dates that may be missing, a missing one first.
pub open spec fn date_order_none_first(a: Option<Date>, b: Option<Date>) -> Ordering {
    match (a, b) {
        (None, None) => Ordering::Equal,
        (None, Some(_)) => Ordering::Less,
        (Some(_), None) => Ordering::Greater,
        (Some(x), Some(y)) => date_order(x, y),
    }
}

/// The order of two texts from position `i` on, where they are equal up to
/// there: by the first character in which they differ, and a text before
/// every longer text that begins with it.
pub open spec fn text_order_from(a: Seq<char>, b: Seq<char>, i: int) -> Ordering
    decreases a.len() - i,
{
    if i < 0 || i >= a.len() {
        if i >= b.len() {
            Ordering::Equal
        } else {
            Ordering::Less
        }
    } else if i >= b.len() {
        Ordering::Greater
    } else if a[i] == b[i] {
        text_order_from(a, b, i + 1)
    } else {
        char_order(a[i], b[i])
    }
}

/// The order of two texts, as in a dictionary that goes by code points.
pub open spec fn text_order(a: Seq<char>, b: Seq<char>) -> Ordering {
    text_order_from(a, b, 0)
}

/// The order of two tasks by rule and text: a task with a recurrence rule
/// before one without, then by text.
pub open spec fn order_by_rule(a: ItemView, b: ItemView) -> Ordering {
    or_else(bool_order(a.rec is None, b.rec is None), text_order(a.content, b.content))
}

/// The order of two tasks by creation date and what follows it.
pub open spec fn order_by_creation(a: ItemView, b: ItemView) -> Ordering {
    or_else(date_order_none_first(a.creation_date, b.creation_date), order_by_rule(a, b))
}

/// The order of two tasks by completion date and what follows it.
pub open spec fn order_by_completion(a: ItemView, b: ItemView) -> Ordering {
    or_else(date_order_none_first(a.completion_date, b.completion_date), order_by_creation(a, b))
}

/// The order of two tasks by threshold date and what follows it.
pub open spec fn order_by_threshold(a: ItemView, b: ItemView) -> Ordering {
    or_else(date_order_none_first(a.t, b.t), order_by_completion(a, b))
}

/// The order of two tasks by due date and what follows it.
pub open spec fn order_by_due(a: ItemView, b: ItemView) -> Ordering {
    or_else(date_order_none_last(a.due, b.due), order_by_threshold(a, b))
}

/// The order of two tasks by priority and what follows it.
pub open spec fn order_by_priority(a: ItemView, b: ItemView) -> Ordering {
    or_else(priority_order(a.priority, b.priority), order_by_due(a, b))
}

/// The order of two tasks: open ones before completed ones, then by
/// priority, due date, threshold date, completion date, creation date,
/// rule and text.
pub open spec fn item_order(a: ItemView, b: ItemView) -> Ordering {
    or_else(bool_order(a.completed, b.completed), order_by_priority(a, b))
}

/// Three results of comparing `a` with `b`, `b` with `c` and `a` with `c`
/// that fit together: what is before or level with something that is
/// before a third thing is before that third thing, and so on.
pub open spec fn fits(ab: Ordering, bc: Ordering, ac: Ordering) -> bool {
    &&& ab == Ordering::Less && bc != Ordering::Greater ==> ac == Ordering::Less
    &&& ab != Ordering::Greater && bc == Ordering::Less ==> ac == Ordering::Less
    &&& ab == Ordering::Equal && bc == Ordering::Equal ==> ac == Ordering::Equal
    &&& ab == Ordering::Greater && bc != Ordering::Less ==> ac == Ordering::Greater
    &&& ab != Ordering::Less && bc == Ordering::Greater ==> ac == Ordering::Greater
}

/// Orders that fit together still do when each decides only where another
/// sees no difference.
proof fn lemma_or_else_fits(
    ab1: Ordering,
    bc1: Ordering,
    ac1: Ordering,
    ab2: Ordering,
    bc2: Ordering,
    ac2: Ordering,
)
    requires
        fits(ab1, bc1, ac1),
        fits(ab2, bc2, ac2),
    ensures
        fits(or_else(ab1, ab2), or_else(bc1, bc2), or_else(ac1, ac2)),
{
}

/// Comparing two texts the other way round gives the reversed result.
proof fn lemma_text_order_reversed(a: Seq<char>, b: Seq<char>, i: int)
    requires
        0 <= i,
    ensures
        text_order_from(b, a, i) == reversed(text_order_from(a, b, i)),
    decreases a.len() - i,
{
    if i < a.len() && i < b.len() && a[i] == b[i] {
        lemma_text_order_reversed(a, b, i + 1);
    }
}

/// The order of three texts fits together.
proof fn lemma_text_order_fits(a: Seq<char>, b: Seq<char>, c: Seq<char>, i: int)
    requires
        0 <= i,
    ensures
        fits(text_order_from(a, b, i), text_order_from(b, c, i), text_order_from(a, c, i)),
    decreases a.len() - i,
{
    if i < a.len() && i < b.len() && i < c.len() && a[i] == b[i] && b[i] == c[i] {
        lemma_text_order_fits(a, b, c, i + 1);
    }
}

/// Two texts that the order sees no difference between are equal.
proof fn lemma_text_order_equal(a: Seq<char>, b: Seq<char>, i: int)
    requires
        0 <= i <= a.len(),
        i <= b.len(),
        text_order_from(a, b, i) == Ordering::Equal,
    ensures
        a.len() == b.len(),
        forall|k: int| i <= k < a.len() ==> a[k] == b[k],
    decreases a.len() - i,
{
    if i < a.len() {
        lemma_text_order_equal(a, b, i + 1);
    }
}

/// Comparing two tasks the other way round gives the reversed result: of
/// "before", "level" and "after" exactly one holds of any two tasks, and
/// where one task is before another, the other is after it.
pub proof fn law_order_antisymmetric(a: ItemView, b: ItemView)
    ensures
        item_order(b, a) == reversed(item_order(a, b)),
{
    lemma_text_order_reversed(a.content, b.content, 0);
}

/// The order of three dates fits together.
proof fn lemma_date_fits(a: Date, b: Date, c: Date)
    ensures
        fits(date_order(a, b), date_order(b, c), date_order(a, c)),
{
}

/// The order of three dates that may be missing fits together, a missing
/// one first.
proof fn lemma_none_first_fits(a: Option<Date>, b: Option<Date>, c: Option<Date>)
    ensures
        fits(
            date_order_none_first(a, b),
            date_order_none_first(b, c),
            date_order_none_first(a, c),
        ),
{
    if a is Some && b is Some && c is Some {
        lemma_date_fits(a->0, b->0, c->0);
    }
}

/// The order of three dates that may be missing fits together, a missing
/// one last.
proof fn lemma_none_last_fits(a: Option<Date>, b: Option<Date>, c: Option<Date>)
    ensures
        fits(date_order_none_last(a, b), date_order_none_last(b, c), date_order_none_last(a, c)),
{
    if a is Some && b is Some && c is Some {
        lemma_date_fits(a->0, b->0, c->0);
    }
}

/// The order by rule and text fits together.
proof fn lemma_by_rule_fits(a: ItemView, b: ItemView, c: ItemView)
    ensures
        fits(order_by_rule(a, b), order_by_rule(b, c), order_by_rule(a, c)),
{
    lemma_text_order_fits(a.content, b.content, c.content, 0);
    lemma_or_else_fits(
        bool_order(a.rec is None, b.rec is None),
        bool_order(b.rec is None, c.rec is None),
        bool_order(a.rec is None, c.rec is None),
        text_order(a.content, b.content),
        text_order(b.content, c.content),
        text_order(a.content, c.content),
    );
}

/// The order by creation date and what follows it fits together.
proof fn lemma_by_creation_fits(a: ItemView, b: ItemView, c: ItemView)
    ensures
        fits(order_by_creation(a, b), order_by_creation(b, c), order_by_creation(a, c)),
{
    lemma_by_rule_fits(a, b, c);
    lemma_none_first_fits(a.creation_date, b.creation_date, c.creation_date);
    lemma_or_else_fits(
        date_order_none_first(a.creation_date, b.creation_date),
        date_order_none_first(b.creation_date, c.creation_date),
        date_order_none_first(a.creation_date, c.creation_date),
        order_by_rule(a, b),
        order_by_rule(b, c),
        order_by_rule(a, c),
    );
}

/// The order by completion date and what follows it fits together.
proof fn lemma_by_completion_fits(a: ItemView, b: ItemView, c: ItemView)
    ensures
        fits(order_by_completion(a, b), order_by_completion(b, c), order_by_completion(a, c)),
{
    lemma_by_creation_fits(a, b, c);
    lemma_none_first_fits(a.completion_date, b.completion_date, c.completion_date);
    lemma_or_else_fits(
        date_order_none_first(a.completion_date, b.completion_date),
        date_order_none_first(b.completion_date, c.completion_date),
        date_order_none_first(a.completion_date, c.completion_date),
        order_by_creation(a, b),
        order_by_creation(b, c),
        order_by_creation(a, c),
    );
}

/// The order by threshold date and what follows it fits together.
proof fn lemma_by_threshold_fits(a: ItemView, b: ItemView, c: ItemView)
    ensures
        fits(order_by_threshold(a, b), order_by_threshold(b, c), order_by_threshold(a, c)),
{
    lemma_by_completion_fits(a, b, c);
    lemma_none_first_fits(a.t, b.t, c.t);
    lemma_or_else_fits(
        date_order_none_first(a.t, b.t),
        date_order_none_first(b.t, c.t),
        date_order_none_first(a.t, c.t),
        order_by_completion(a, b),
        order_by_completion(b, c),
        order_by_completion(a, c),
    );
}

/// The order by due date and what follows it fits together.
proof fn lemma_by_due_fits(a: ItemView, b: ItemView, c: ItemView)
    ensures
        fits(order_by_due(a, b), order_by_due(b, c), order_by_due(a, c)),
{
    lemma_by_threshold_fits(a, b, c);
    lemma_none_last_fits(a.due, b.due, c.due);
    lemma_or_else_fits(
        date_order_none_last(a.due, b.due),
        date_order_none_last(b.due, c.due),
        date_order_none_last(a.due, c.due),
        order_by_threshold(a, b),
        order_by_threshold(b, c),
        order_by_threshold(a, c),
    );
}

/// The order by priority and what follows it fits together.
proof fn lemma_by_priority_fits(a: ItemView, b: ItemView, c: ItemView)
    ensures
        fits(order_by_priority(a, b), order_by_priority(b, c), order_by_priority(a, c)),
{
    lemma_by_due_fits(a, b, c);
    lemma_or_else_fits(
        priority_order(a.priority, b.priority),
        priority_order(b.priority, c.priority),
        priority_order(a.priority, c.priority),
        order_by_due(a, b),
        order_by_due(b, c),
        order_by_due(a, c),
    );
}

/// The order of three tasks fits together. In particular it is transitive:
/// if `a` is not after `b` and `b` is not after `c`, then `a` is not after
/// `c`, and `a` is before `c` if one of the two is before the other.
pub proof fn law_order_transitive(a: ItemView, b: ItemView, c: ItemView)
    ensures
        fits(item_order(a, b), item_order(b, c), item_order(a, c)),
        item_order(a, b) != Ordering::Greater && item_order(b, c) != Ordering::Greater
            ==> item_order(a, c) != Ordering::Greater,
{
    lemma_by_priority_fits(a, b, c);
    lemma_or_else_fits(
        bool_order(a.completed, b.completed),
        bool_order(b.completed, c.completed),
        bool_order(a.completed, c.completed),
        order_by_priority(a, b),
        order_by_priority(b, c),
        order_by_priority(a, c),
    );
}

/// Two tasks are level in the order exactly if they are equal in every
/// field but the recurrence rule, and both have a rule or neither has.
pub proof fn law_order_level(a: ItemView, b: ItemView)
    ensures
        item_order(a, b) == Ordering::Equal <==> {
            &&& a.completed == b.completed
            &&& a.priority == b.priority
            &&& a.due == b.due
            &&& a.t == b.t
            &&& a.completion_date == b.completion_date
            &&& a.creation_date == b.creation_date
            &&& (a.rec is None) == (b.rec is None)
            &&& a.content == b.content
        },
{
    if text_order(a.content, b.content) == Ordering::Equal {
        lemma_text_order_equal(a.content, b.content, 0);
        assert(a.content =~= b.content);
    }
    if a.content == b.content {
        lemma_text_order_same(a.content, 0);
    }
    assert(order_by_rule(a, b) == Ordering::Equal <==> (a.rec is None) == (b.rec is None)
        && a.content == b.content);
    assert(order_by_creation(a, b) == Ordering::Equal <==> a.creation_date == b.creation_date
        && order_by_rule(a, b) == Ordering::Equal);
    assert(order_by_completion(a, b) == Ordering::Equal <==> a.completion_date
        == b.completion_date && order_by_creation(a, b) == Ordering::Equal);
    assert(order_by_threshold(a, b) == Ordering::Equal <==> a.t == b.t && order_by_completion(a, b)
        == Ordering::Equal);
    assert(order_by_due(a, b) == Ordering::Equal <==> a.due == b.due && order_by_threshold(a, b)
        == Ordering::Equal);
    assert(order_by_priority(a, b) == Ordering::Equal <==> a.priority == b.priority
        && order_by_due(a, b) == Ordering::Equal);
}

/// The order sees no difference between a text and itself.
proof fn lemma_text_order_same(a: Seq<char>, i: int)
    requires
        0 <= i,
    ensures
        text_order_from(a, a, i) == Ordering::Equal,
    decreases a.len() - i,
{
    if i < a.len() {
        lemma_text_order_same(a, i + 1);
    }
}

/// The order of two characters.
pub fn compare_chars(a: char, b: char) -> (r: Ordering)
    ensures
        r == char_order(a, b),
{
    if a < b {
        Ordering::Less
    } else if a == b {
        Ordering::Equal
    } else {
        Ordering::Greater
    }
}

/// The order of two truth values.
pub fn compare_bools(a: bool, b: bool) -> (r: Ordering)
    ensures
        r == bool_order(a, b),
{
    if a == b {
        Ordering::Equal
    } else if b {
        Ordering::Less
    } else {
        Ordering::Greater
    }
}

/// The order of two dates.
pub fn compare_dates(a: &Date, b: &Date) -> (r: Ordering)
    ensures
        r == date_order(*a, *b),
{
    if a.is_before(b) {
        Ordering::Less
    } else if b.is_before(a) {
        Ordering::Greater
    } else {
        proof {
            use_type_invariant(a);
            use_type_invariant(b);
        }
        Ordering::Equal
    }
}

/// The order of two priorities.
pub fn compare_priorities(a: Option<char>, b: Option<char>) -> (r: Ordering)
    ensures
        r == priority_order(a, b),
{
    match (a, b) {
        (None, None) => Ordering::Equal,
        (None, Some(_)) => Ordering::Greater,
        (Some(_), None) => Ordering::Less,
        (Some(p), Some(q)) => compare_chars(p, q),
    }
}

/// The order of two dates that may be missing, a missing one last or
/// first.
pub fn compare_optional_dates(a: &Option<Date>, b: &Option<Date>, none_last: bool) -> (r: Ordering)
    ensures
        r == if none_last {
            date_order_none_last(*a, *b)
        } else {
            date_order_none_first(*a, *b)
        },
{
    match (a, b) {
        (None, None) => Ordering::Equal,
        (None, Some(_)) => if none_last {
            Ordering::Greater
        } else {
            Ordering::Less
        },
        (Some(_), None) => if none_last {
            Ordering::Less
        } else {
            Ordering::Greater
        },
        (Some(x), Some(y)) => compare_dates(x, y),
    }
}

/// The order of two texts.
pub fn compare_texts(a: &str, b: &str) -> (r: Ordering)
    ensures
        r == text_order(a@, b@),
{
    let x = to_chars(a);
    let y = to_chars(b);
    let mut i: usize = 0;
    while i < x.len() && i < y.len()
        invariant
            i <= x.len(),
            i <= y.len(),
            x@ == a@,
            y@ == b@,
            text_order(x@, y@) == text_order_from(x@, y@, position(i)),
        decreases x.len() - i,
    {
        if x[i] != y[i] {
            assert(text_order_from(x@, y@, position(i)) == char_order(x@[position(i)], y@[position(i)]));
            return compare_chars(x[i], y[i]);
        }
        assert(text_order_from(x@, y@, position(i)) == text_order_from(x@, y@, position(i) + 1));
        i += 1;
    }
    if i < y.len() {
        Ordering::Less
    } else if i < x.len() {
        Ordering::Greater
    } else {
        Ordering::Equal
    }
}

/// Whether the order sees a difference.
pub fn differs(o: Ordering) -> (r: bool)
    ensures
        r == (o != Ordering::Equal),
{
    match o {
        Ordering::Equal => false,
        _ => true,
    }
}

impl TodoItem {
    /// The order of the task and another one.
    pub fn cmp(&self, other: &TodoItem) -> (r: Ordering)
        ensures
            r == item_order(self@, other@),
    {
        let by_completion = compare_bools(self.completed, other.completed);
        if differs(by_completion) {
            return by_completion;
        }
        let by_priority = compare_priorities(self.priority, other.priority);
        if differs(by_priority) {
            return by_priority;
        }
        let by_due = compare_optional_dates(&self.due, &other.due, true);
        if differs(by_due) {
            return by_due;
        }
        let by_threshold = compare_optional_dates(&self.t, &other.t, false);
        if differs(by_threshold) {
            return by_threshold;
        }
        let by_done =
            compare_optional_dates(&self.completion_date, &other.completion_date, false);
        if differs(by_done) {
            return by_done;
        }
        let by_created = compare_optional_dates(&self.creation_date, &other.creation_date, false);
        if differs(by_created) {
            return by_created;
        }
        let by_rule = compare_bools(self.rec.is_none(), other.rec.is_none());
        if differs(by_rule) {
            return by_rule;
        }
        compare_texts(self.content.as_str(), other.content.as_str())
    }
}

/// `a` does not stand after `b` in the order.
pub open spec fn not_after(a: ItemView, b: ItemView) -> bool {
    item_order(a, b) != Ordering::Greater
}

/// No task of `s` stands after a later one in the order.
pub open spec fn is_sorted(s: Seq<ItemView>) -> bool {
    forall|i: int, j: int| 0 <= i < j < s.len() ==> not_after(#[trigger] s[i], #[trigger] s[j])
}

/// Where `x` goes into `s`: behind the last task that does not stand after
/// it, and so behind every task that is level with it.
pub open spec fn place_of(s: Seq<ItemView>, x: ItemView) -> nat
    decreases s.len(),
{
    if s.len() == 0 {
        0
    } else if not_after(s.last(), x) {
        s.len()
    } else {
        place_of(s.drop_last(), x)
    }
}

/// The tasks of `s` in order: each task in turn, from the first on, goes
/// to its place among the ones before it. Tasks that are level keep the
/// order they came in.
pub open spec fn sort_seq(s: Seq<ItemView>) -> Seq<ItemView>
    decreases s.len(),
{
    if s.len() == 0 {
        s
    } else {
        let sorted = sort_seq(s.drop_last());
        sorted.insert(index(place_of(sorted, s.last())), s.last())
    }
}

/// The place of a task lies within the sequence; every task from the place
/// on stands after the task, and the one before the place does not.
proof fn lemma_place_of(s: Seq<ItemView>, x: ItemView)
    ensures
        place_of(s, x) <= s.len(),
        forall|k: int| place_of(s, x) <= k < s.len() ==> !not_after(#[trigger] s[k], x),
        place_of(s, x) > 0 ==> not_after(s[place_of(s, x) - 1], x),
    decreases s.len(),
{
    if s.len() > 0 && !not_after(s.last(), x) {
        let t = s.drop_last();
        lemma_place_of(t, x);
        assert forall|k: int| place_of(s, x) <= k < s.len() implies !not_after(
            #[trigger] s[k],
            x,
        ) by {
            if k < t.len() {
                assert(s[k] == t[k]);
            }
        }
        if place_of(s, x) > 0 {
            assert(s[place_of(s, x) - 1] == t[place_of(t, x) - 1]);
        }
    }
}

/// A sorted sequence is sorted again when a task goes to its place in it.
proof fn lemma_insert_keeps_sorted(s: Seq<ItemView>, x: ItemView)
    requires
        is_sorted(s),
    ensures
        is_sorted(s.insert(index(place_of(s, x)), x)),
{
    lemma_place_of(s, x);
    let p = index(place_of(s, x));
    let t = s.insert(p, x);
    assert forall|i: int, j: int| 0 <= i < j < t.len() implies not_after(
        #[trigger] t[i],
        #[trigger] t[j],
    ) by {
        if j < p {
            assert(t[i] == s[i] && t[j] == s[j]);
        } else if j == p {
            assert(t[i] == s[i]);
            assert(not_after(s[p - 1], x));
            if i < p - 1 {
                assert(not_after(s[i], s[p - 1]));
                law_order_transitive(s[i], s[p - 1], x);
            }
        } else if i < p {
            assert(t[i] == s[i] && t[j] == s[j - 1]);
        } else if i == p {
            assert(t[j] == s[j - 1]);
            assert(!not_after(s[j - 1], x));
            law_order_antisymmetric(s[j - 1], x);
        } else {
            assert(t[i] == s[i - 1] && t[j] == s[j - 1]);
        }
    }
}

/// Sorting gives a sorted sequence.
pub proof fn law_sort_sorted(s: Seq<ItemView>)
    ensures
        is_sorted(sort_seq(s)),
        sort_seq(s).len() == s.len(),
    decreases s.len(),
{
    if s.len() > 0 {
        law_sort_sorted(s.drop_last());
        lemma_place_of(sort_seq(s.drop_last()), s.last());
        lemma_insert_keeps_sorted(sort_seq(s.drop_last()), s.last());
    }
}

/// Sorting keeps the tasks: each stands in the result as often as before.
pub proof fn law_sort_keeps_items(s: Seq<ItemView>)
    ensures
        sort_seq(s).to_multiset() == s.to_multiset(),
    decreases s.len(),
{
    broadcast use vstd::seq_lib::group_to_multiset_ensures;

    if s.len() > 0 {
        let t = s.drop_last();
        let x = s.last();
        law_sort_keeps_items(t);
        let sorted = sort_seq(t);
        lemma_place_of(sorted, x);
        let p = index(place_of(sorted, x));
        let r = sorted.insert(p, x);
        assert(r.remove(p) =~= sorted);
        assert(r[p] == x);
        assert(r.to_multiset().remove(x) =~= sorted.to_multiset());
        assert(r.to_multiset().count(x) > 0);
        assert(r.to_multiset() =~= sorted.to_multiset().insert(x));
        assert(t.push(x) =~= s);
        assert(s.to_multiset() =~= t.to_multiset().insert(x));
    } else {
        assert(sort_seq(s) =~= s);
    }
}

/// Sorting a sorted sequence changes nothing.
pub proof fn law_sort_idempotent(s: Seq<ItemView>)
    requires
        is_sorted(s),
    ensures
        sort_seq(s) == s,
    decreases s.len(),
{
    if s.len() > 0 {
        let t = s.drop_last();
        assert forall|i: int, j: int| 0 <= i < j < t.len() implies not_after(
            #[trigger] t[i],
            #[trigger] t[j],
        ) by {
            assert(t[i] == s[i] && t[j] == s[j]);
        }
        law_sort_idempotent(t);
        if t.len() > 0 {
            assert(t.last() == s[t.len() - 1]);
            assert(not_after(t.last(), s.last()));
        }
        assert(t.insert(index(t.len()), s.last()) =~= s);
    }
}

/// Sorting twice is sorting once.
pub proof fn law_sort_twice(s: Seq<ItemView>)
    ensures
        sort_seq(sort_seq(s)) == sort_seq(s),
{
    law_sort_sorted(s);
    law_sort_idempotent(sort_seq(s));
}

/// Whether `a` stands after `b` in the order.
pub fn is_after(a: &TodoItem, b: &TodoItem) -> (r: bool)
    ensures
        r == !not_after(a@, b@),
{
    match a.cmp(b) {
        Ordering::Greater => true,
        _ => false,
    }
}

/// Puts `x` at its place into the sorted vector.
pub fn insert_sorted(items: &mut Vec<TodoItem>, x: TodoItem)
    ensures
        item_views(final(items)@) == item_views(old(items)@).insert(
            index(place_of(item_views(old(items)@), x@)),
            x@,
        ),
{
    let ghost s = item_views(items@);
    let mut p: usize = items.len();
    assert(s.take(position(p)) =~= s);
    while p > 0 && is_after(&items[p - 1], &x)
        invariant
            p <= items.len(),
            s == item_views(items@),
            place_of(s, x@) == place_of(s.take(position(p)), x@),
        decreases p,
    {
        assert(s.take(position(p)).last() == items@[p - 1]@);
        assert(s.take(position(p)).drop_last() =~= s.take(position(p) - 1));
        p -= 1;
    }
    proof {
        if p > 0 {
            assert(s.take(position(p)).last() == items@[p - 1]@);
        }
        assert(place_of(s, x@) == p);
    }
    items.insert(p, x);
    assert(item_views(items@) =~= s.insert(position(p), x@));
}

/// The tasks in order. Tasks that are level keep the order they came in.
pub fn sort_items(items: Vec<TodoItem>) -> (r: Vec<TodoItem>)
    ensures
        item_views(r@) == sort_seq(item_views(items@)),
{
    let ghost all = item_views(items@);
    let total: usize = items.len();
    let mut rest = items;
    let mut out: Vec<TodoItem> = Vec::new();
    let mut k: usize = 0;
    assert(all.skip(0) =~= all);
    assert(item_views(out@) =~= sort_seq(all.take(0)));
    while rest.len() > 0
        invariant
            all.len() == total,
            position(k) + rest.len() == all.len(),
            item_views(rest@) == all.skip(position(k)),
            item_views(out@) == sort_seq(all.take(position(k))),
        decreases rest.len(),
    {
        let ghost before = rest@;
        let x = rest.remove(0);
        proof {
            assert(x@ == item_views(before)[0]);
            assert(x@ == all.skip(position(k))[0]);
            assert forall|j: int| 0 <= j < rest@.len() implies item_views(rest@)[j] == all.skip(
                position(k) + 1,
            )[j] by {
                assert(rest@[j] == before[j + 1]);
                assert(item_views(before)[j + 1] == all.skip(position(k))[j + 1]);
            }
            assert(item_views(rest@) =~= all.skip(position(k) + 1));
            let upto = all.take(position(k) + 1);
            assert(upto.drop_last() =~= all.take(position(k)));
            assert(upto.last() == x@);
        }
        insert_sorted(&mut out, x);
        k += 1;
    }
    assert(all.take(position(k)) =~= all);
    out
}

} // verus!
