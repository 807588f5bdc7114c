//! The task: its fields, how it is written as a line of text, and the list
//! of tasks as it stands in a file.

use vstd::prelude::*;
use vstd::string::StringExecFns;

use crate::date::Date;
use crate::text::{decimal_text, push_decimal, to_chars};
use crate::todo::parsing::{parse_line, ErrorView};
use crate::todo::round_trip::lemma_parsed_round_trip;

pub mod parsing;
pub mod round_trip;

verus! {

/// The unit of a recurrence rule.
#[derive(Clone, Copy, Debug, PartialEq, Eq, Hash, Structural)]
pub enum RecurringUnit {
    Days,
    Weeks,
    Months,
    Years,
}

/// A recurrence rule: after how much time a completed task comes back, and
/// whether that time counts from the day of completion (`relative`) or from
/// the task's own dates.
#[derive(Clone, Copy, Debug, PartialEq, Eq, Hash, Structural)]
pub struct Recurring {
    pub(crate) relative: bool,
    pub(crate) amount: u32,
    pub(crate) unit: RecurringUnit,
}

/// The letter that stands for a unit in a `rec:` tag.
pub open spec fn unit_letter(unit: RecurringUnit) -> char {
    match unit {
        RecurringUnit::Days => 'd',
        RecurringUnit::Weeks => 'w',
        RecurringUnit::Months => 'm',
        RecurringUnit::Years => 'y',
    }
}

impl RecurringUnit {
    /// The letter that stands for this unit in a `rec:` tag.
    pub fn letter(&self) -> (r: char)
        ensures
            r == unit_letter(*self),
    {
        match self {
            RecurringUnit::Days => 'd',
            RecurringUnit::Weeks => 'w',
            RecurringUnit::Months => 'm',
            RecurringUnit::Years => 'y',
        }
    }

    /// The unit that a letter stands for.
    pub fn from_letter(c: char) -> (r: Option<RecurringUnit>)
        ensures
            r matches Some(unit) ==> unit_letter(unit) == c,
            r is None <==> c != 'd' && c != 'w' && c != 'm' && c != 'y',
    {
        if c == 'd' {
            Some(RecurringUnit::Days)
        } else if c == 'w' {
            Some(RecurringUnit::Weeks)
        } else if c == 'm' {
            Some(RecurringUnit::Months)
        } else if c == 'y' {
            Some(RecurringUnit::Years)
        } else {
            None
        }
    }
}

/// The unit that a text stands for. A text that is none of the four
/// letters is handed back in a message.
pub open spec fn unit_of_text(s: Seq<char>) -> Result<RecurringUnit, Seq<char>> {
    if s == seq!['d'] {
        Ok(RecurringUnit::Days)
    } else if s == seq!['w'] {
        Ok(RecurringUnit::Weeks)
    } else if s == seq!['m'] {
        Ok(RecurringUnit::Months)
    } else if s == seq!['y'] {
        Ok(RecurringUnit::Years)
    } else {
        Err("Invalid recurring unit '"@ + s + seq!['\''])
    }
}

impl RecurringUnit {
    /// The unit that a text stands for.
    pub fn parse(s: &str) -> (r: Result<RecurringUnit, String>)
        ensures
            match r {
                Ok(unit) => unit_of_text(s@) == Ok::<RecurringUnit, Seq<char>>(unit),
                Err(message) => unit_of_text(s@) == Err::<RecurringUnit, Seq<char>>(message@),
            },
    {
        let chars = to_chars(s);
        if chars.len() == 1 {
            assert(s@ =~= seq![chars@[0]]);
            match RecurringUnit::from_letter(chars[0]) {
                Some(unit) => {
                    return Ok(unit);
                },
                None => {},
            }
        }
        let mut message = "Invalid recurring unit '".to_owned();
        message.append(s);
        message.push('\'');
        proof {
            if s@.len() != 1 {
                assert(s@ != seq!['d'] && s@ != seq!['w'] && s@ != seq!['m'] && s@ != seq!['y']) by {
                    assert(seq!['d'].len() == 1);
                    assert(seq!['w'].len() == 1);
                    assert(seq!['m'].len() == 1);
                    assert(seq!['y'].len() == 1);
                }
            } else {
                assert(seq!['d'][0] == 'd' && seq!['w'][0] == 'w' && seq!['m'][0] == 'm' && seq![
                    'y',
                ][0] == 'y');
            }
            assert(message@ =~= "Invalid recurring unit '"@ + s@ + seq!['\'']);
        }
        Err(message)
    }
}

impl Recurring {
    /// The amount of every rule is positive.
    #[verifier::type_invariant]
    pub open(crate) spec fn inv(self) -> bool {
        self.amount > 0
    }

    /// Whether the rule counts from the day of completion.
    pub open(crate) spec fn rel(self) -> bool {
        self.relative
    }

    /// How many units lie between two occurrences.
    pub open(crate) spec fn amt(self) -> int {
        self.amount as int
    }

    /// The unit of the amount.
    pub open(crate) spec fn per(self) -> RecurringUnit {
        self.unit
    }

    /// The rule with the given parts.
    pub open(crate) spec fn of(relative: bool, amount: int, unit: RecurringUnit) -> Recurring {
        Recurring { relative, amount: amount as u32, unit }
    }

    /// How the rule is written behind `rec:`: a plus sign if it is
    /// relative, the amount in decimal, the unit's letter.
    pub open spec fn text(self) -> Seq<char> {
        (if self.rel() {
            seq!['+']
        } else {
            Seq::<char>::empty()
        }) + decimal_text(self.amt() as nat) + seq![unit_letter(self.per())]
    }

    /// The rule with the given parts; none with an amount of zero.
    pub fn new(relative: bool, amount: u32, unit: RecurringUnit) -> (r: Option<Recurring>)
        ensures
            r == if amount > 0 {
                Some(Recurring::of(relative, amount as int, unit))
            } else {
                None
            },
    {
        if amount > 0 {
            Some(Recurring { relative, amount, unit })
        } else {
            None
        }
    }

    /// Whether the rule counts from the day of completion.
    pub fn relative(&self) -> (r: bool)
        ensures
            r == self.rel(),
    {
        self.relative
    }

    /// How many units lie between two occurrences.
    pub fn amount(&self) -> (r: u32)
        ensures
            r == self.amt(),
            r > 0,
    {
        proof {
            use_type_invariant(self);
        }
        self.amount
    }

    /// The unit of the amount.
    pub fn unit(&self) -> (r: RecurringUnit)
        ensures
            r == self.per(),
    {
        self.unit
    }

    /// Appends the rule, as it is written behind `rec:`, to `out`.
    pub fn write_to(&self, out: &mut String)
        ensures
            final(out)@ == old(out)@ + self.text(),
    {
        if self.relative {
            out.push('+');
        }
        push_decimal(out, self.amount as u64);
        out.push(self.unit.letter());
        assert(out@ =~= old(out)@ + self.text());
    }

    /// The rule as it is written behind `rec:`.
    pub fn to_string(&self) -> (r: String)
        ensures
            r@ == self.text(),
    {
        let mut out = String::new();
        self.write_to(&mut out);
        assert(out@ =~= self.text());
        out
    }
}

/// One word of a task's text: an ordinary word, or the name of a context
/// (written `@name`) or of a project (written `+name`).
#[derive(Clone, Debug, PartialEq, Eq)]
pub enum Content {
    Word(String),
    Context(String),
    Project(String),
}

/// A word of a task's text together with the spaces in front of it.
#[derive(Clone, Debug, PartialEq, Eq)]
pub struct ContentPart {
    pub space: String,
    pub content: Content,
}

/// What a [`Content`] holds, as sequences of characters.
pub enum ContentView {
    Word(Seq<char>),
    Context(Seq<char>),
    Project(Seq<char>),
}

/// What a [`ContentPart`] holds, as sequences of characters.
pub struct ContentPartView {
    pub space: Seq<char>,
    pub content: ContentView,
}

impl ContentView {
    /// The word as it stands in the text, with its sign in front.
    pub open spec fn text(self) -> Seq<char> {
        match self {
            ContentView::Word(w) => w,
            ContentView::Context(name) => seq!['@'] + name,
            ContentView::Project(name) => seq!['+'] + name,
        }
    }
}

impl View for Content {
    type V = ContentView;

    open spec fn view(&self) -> ContentView {
        match self {
            Content::Word(w) => ContentView::Word(w@),
            Content::Context(name) => ContentView::Context(name@),
            Content::Project(name) => ContentView::Project(name@),
        }
    }
}

impl View for ContentPart {
    type V = ContentPartView;

    open spec fn view(&self) -> ContentPartView {
        ContentPartView { space: self.space@, content: self.content@ }
    }
}

impl Content {
    /// The word as it stands in the text, with its sign in front.
    pub fn to_string(&self) -> (r: String)
        ensures
            r@ == self@.text(),
    {
        let mut out = String::new();
        match self {
            Content::Word(w) => {
                out.append(w.as_str());
            },
            Content::Context(name) => {
                out.push('@');
                out.append(name.as_str());
            },
            Content::Project(name) => {
                out.push('+');
                out.append(name.as_str());
            },
        }
        assert(out@ =~= self@.text());
        out
    }
}

/// The fields of a task, its text as a sequence of characters.
pub struct ItemView {
    pub completed: bool,
    pub priority: Option<char>,
    pub content: Seq<char>,
    pub creation_date: Option<Date>,
    pub completion_date: Option<Date>,
    pub due: Option<Date>,
    pub t: Option<Date>,
    pub rec: Option<Recurring>,
}

/// One task.
#[derive(Debug)]
pub struct TodoItem {
    /// Whether the task is done.
    pub completed: bool,
    /// The priority, a capital letter.
    pub priority: Option<char>,
    /// The text of the task. Contexts and projects stand in it as `@name`
    /// and `+name`; the tags for due date, threshold date, recurrence and
    /// priority do not: they are the fields below.
    pub content: String,
    /// The day the task was written down.
    pub creation_date: Option<Date>,
    /// The day the task was done.
    pub completion_date: Option<Date>,
    /// The day the task is due.
    pub due: Option<Date>,
    /// The threshold date: the day from which on the task matters.
    pub t: Option<Date>,
    /// The recurrence rule.
    pub rec: Option<Recurring>,
}

impl View for TodoItem {
    type V = ItemView;

    open spec fn view(&self) -> ItemView {
        ItemView {
            completed: self.completed,
            priority: self.priority,
            content: self.content@,
            creation_date: self.creation_date,
            completion_date: self.completion_date,
            due: self.due,
            t: self.t,
            rec: self.rec,
        }
    }
}

/// The views of the tasks, in order.
pub open spec fn item_views(items: Seq<TodoItem>) -> Seq<ItemView> {
    Seq::new(items.len(), |i: int| items[i]@)
}

/// `acc` with `segment` behind it, a single space between the two unless
/// `acc` is empty.
pub open spec fn with_segment(acc: Seq<char>, segment: Seq<char>) -> Seq<char> {
    if acc.len() == 0 {
        segment
    } else {
        acc + seq![' '] + segment
    }
}

impl ItemView {
    /// A completion date stands only in a completed task that has a
    /// creation date.
    pub open spec fn wf(self) -> bool {
        self.completion_date is Some ==> self.completed && self.creation_date is Some
    }

    /// The line up to and with the completion mark: `x` and the completion
    /// date, for a completed task.
    pub open spec fn text_completion(self) -> Seq<char> {
        if self.completed {
            match self.completion_date {
                Some(date) => seq!['x', ' '] + date.text(),
                None => seq!['x'],
            }
        } else {
            Seq::empty()
        }
    }

    /// The line up to and with the priority mark: `(A)`, for a task that
    /// is not completed.
    pub open spec fn text_priority(self) -> Seq<char> {
        match self.priority {
            Some(p) if !self.completed => with_segment(self.text_completion(), seq!['(', p, ')']),
            _ => self.text_completion(),
        }
    }

    /// The line up to and with the creation date.
    pub open spec fn text_creation(self) -> Seq<char> {
        match self.creation_date {
            Some(date) => with_segment(self.text_priority(), date.text()),
            None => self.text_priority(),
        }
    }

    /// The line up to and with the text of the task.
    pub open spec fn text_content(self) -> Seq<char> {
        if self.content.len() > 0 {
            with_segment(self.text_creation(), self.content)
        } else {
            self.text_creation()
        }
    }

    /// The line up to and with the `pri:` tag, which holds the priority of
    /// a completed task.
    pub open spec fn text_pri(self) -> Seq<char> {
        match self.priority {
            Some(p) if self.completed => with_segment(
                self.text_content(),
                seq!['p', 'r', 'i', ':', p],
            ),
            _ => self.text_content(),
        }
    }

    /// The line up to and with the `due:` tag.
    pub open spec fn text_due(self) -> Seq<char> {
        match self.due {
            Some(date) => with_segment(self.text_pri(), seq!['d', 'u', 'e', ':'] + date.text()),
            None => self.text_pri(),
        }
    }

    /// The line up to and with the `t:` tag.
    pub open spec fn text_t(self) -> Seq<char> {
        match self.t {
            Some(date) => with_segment(self.text_due(), seq!['t', ':'] + date.text()),
            None => self.text_due(),
        }
    }

    /// The task as one line of text. Its parts stand in this order, with
    /// one space between them, each only where the task has it: the
    /// completion mark `x` with the completion date, or else the priority
    /// as `(A)`; the creation date; the text; for a completed task the
    /// priority as `pri:A`; `due:` with the due date; `t:` with the
    /// threshold date; `rec:` with the recurrence rule.
    pub open spec fn text(self) -> Seq<char> {
        match self.rec {
            Some(rule) => with_segment(self.text_t(), seq!['r', 'e', 'c', ':'] + rule.text()),
            None => self.text_t(),
        }
    }
}

/// Appends a space to `out` unless `out` is empty.
fn push_separator(out: &mut String)
    ensures
        final(out)@ == if old(out)@.len() == 0 {
            old(out)@
        } else {
            old(out)@.push(' ')
        },
{
    if !out.as_str().is_empty() {
        out.push(' ');
    }
}

impl TodoItem {
    /// A task of the given creation date with nothing else set.
    pub fn new(creation_date: Date) -> (r: TodoItem)
        ensures
            r@ == (ItemView {
                completed: false,
                priority: None,
                content: Seq::empty(),
                creation_date: Some(creation_date),
                completion_date: None,
                due: None,
                t: None,
                rec: None,
            }),
            r@.wf(),
    {
        TodoItem {
            completed: false,
            priority: None,
            content: String::new(),
            creation_date: Some(creation_date),
            completion_date: None,
            due: None,
            t: None,
            rec: None,
        }
    }

    /// The task as one line of text. For a task as it is read from a line,
    /// that line has the form of a task, and reading it gives the task.
    pub fn to_string(&self) -> (r: String)
        ensures
            r@ == self@.text(),
            self@.is_parsed() ==> parse_line(r@) == Ok::<ItemView, ErrorView>(self@),
    {
        proof {
            if self@.is_parsed() {
                lemma_parsed_round_trip(self@);
            }
        }
        let mut out = String::new();
        self.write_marks(&mut out);
        self.write_creation(&mut out);
        self.write_content(&mut out);
        self.write_pri(&mut out);
        self.write_dates(&mut out);
        if let Some(rule) = self.rec {
            push_separator(&mut out);
            out.push('r');
            out.push('e');
            out.push('c');
            out.push(':');
            rule.write_to(&mut out);
            assert(out@ =~= self@.text());
        }
        out
    }

    /// Writes the completion mark or the priority mark.
    fn write_marks(&self, out: &mut String)
        requires
            old(out)@.len() == 0,
        ensures
            final(out)@ == self@.text_priority(),
    {
        if self.completed {
            out.push('x');
            if let Some(date) = self.completion_date {
                out.push(' ');
                date.write_to(out);
            }
        }
        assert(out@ =~= self@.text_completion());
        if let Some(p) = self.priority {
            if !self.completed {
                push_separator(out);
                out.push('(');
                out.push(p);
                out.push(')');
                assert(out@ =~= self@.text_priority());
            }
        }
    }

    /// Writes the creation date.
    fn write_creation(&self, out: &mut String)
        requires
            old(out)@ == self@.text_priority(),
        ensures
            final(out)@ == self@.text_creation(),
    {
        if let Some(date) = self.creation_date {
            push_separator(out);
            date.write_to(out);
            assert(out@ =~= self@.text_creation());
        }
    }

    /// Writes the text.
    fn write_content(&self, out: &mut String)
        requires
            old(out)@ == self@.text_creation(),
        ensures
            final(out)@ == self@.text_content(),
    {
        if !self.content.as_str().is_empty() {
            push_separator(out);
            out.append(self.content.as_str());
            assert(out@ =~= self@.text_content());
        }
    }

    /// Writes the `pri:` tag.
    fn write_pri(&self, out: &mut String)
        requires
            old(out)@ == self@.text_content(),
        ensures
            final(out)@ == self@.text_pri(),
    {
        if let Some(p) = self.priority {
            if self.completed {
                push_separator(out);
                out.push('p');
                out.push('r');
                out.push('i');
                out.push(':');
                out.push(p);
                assert(out@ =~= self@.text_pri());
            }
        }
    }

    /// Writes the `due:` tag and the `t:` tag.
    fn write_dates(&self, out: &mut String)
        requires
            old(out)@ == self@.text_pri(),
        ensures
            final(out)@ == self@.text_t(),
    {
        if let Some(date) = self.due {
            push_separator(out);
            out.push('d');
            out.push('u');
            out.push('e');
            out.push(':');
            date.write_to(out);
            assert(out@ =~= self@.text_due());
        }
        if let Some(date) = self.t {
            push_separator(out);
            out.push('t');
            out.push(':');
            date.write_to(out);
            assert(out@ =~= self@.text_t());
        }
    }

    /// Whether the two tasks are equal in every field.
    pub fn same_as(&self, other: &TodoItem) -> (r: bool)
        ensures
            r == (self@ == other@),
    {
        self.completed == other.completed && same_char(&self.priority, &other.priority)
            && self.content == other.content && same_date(&self.creation_date, &other.creation_date)
            && same_date(&self.completion_date, &other.completion_date) && same_date(
            &self.due,
            &other.due,
        ) && same_date(&self.t, &other.t) && same_rule(&self.rec, &other.rec)
    }
}

impl PartialEq for TodoItem {
    fn eq(&self, other: &TodoItem) -> (r: bool) {
        self.same_as(other)
    }
}

impl vstd::std_specs::cmp::PartialEqSpecImpl for TodoItem {
    open spec fn obeys_eq_spec() -> bool {
        true
    }

    open spec fn eq_spec(&self, other: &TodoItem) -> bool {
        self@ == other@
    }
}

impl Eq for TodoItem {

}

impl Clone for TodoItem {
    fn clone(&self) -> (r: TodoItem)
        ensures
            r@ == self@,
    {
        TodoItem {
            completed: self.completed,
            priority: self.priority,
            content: self.content.clone(),
            creation_date: self.creation_date,
            completion_date: self.completion_date,
            due: self.due,
            t: self.t,
            rec: self.rec,
        }
    }
}

/// Whether the two hold the same date, or both none.
pub fn same_date(a: &Option<Date>, b: &Option<Date>) -> (r: bool)
    ensures
        r == (*a == *b),
{
    match (a, b) {
        (None, None) => true,
        (Some(x), Some(y)) => x.year == y.year && x.month == y.month && x.day == y.day,
        _ => false,
    }
}

/// Whether the two hold the same character, or both none.
pub fn same_char(a: &Option<char>, b: &Option<char>) -> (r: bool)
    ensures
        r == (*a == *b),
{
    match (a, b) {
        (None, None) => true,
        (Some(x), Some(y)) => *x == *y,
        _ => false,
    }
}

/// Whether the two hold the same rule, or both none.
pub fn same_rule(a: &Option<Recurring>, b: &Option<Recurring>) -> (r: bool)
    ensures
        r == (*a == *b),
{
    match (a, b) {
        (None, None) => true,
        (Some(x), Some(y)) => x.relative == y.relative && x.amount == y.amount && x.unit == y.unit,
        _ => false,
    }
}

/// The tasks of a file, in the order of its lines.
#[derive(Debug)]
pub struct TodoList {
    pub items: Vec<TodoItem>,
}

impl View for TodoList {
    type V = Seq<ItemView>;

    open spec fn view(&self) -> Seq<ItemView> {
        item_views(self.items@)
    }
}

/// The lines of the tasks, each with a line feed behind it.
pub open spec fn list_text(items: Seq<ItemView>) -> Seq<char>
    decreases items.len(),
{
    if items.len() == 0 {
        Seq::empty()
    } else {
        list_text(items.drop_last()) + items.last().text() + seq!['\n']
    }
}

impl TodoList {
    /// The list of the given tasks.
    pub fn new(items: Vec<TodoItem>) -> (r: TodoList)
        ensures
            r.items == items,
    {
        TodoList { items }
    }

    /// The number of tasks.
    pub fn len(&self) -> (r: usize)
        ensures
            r == self@.len(),
    {
        self.items.len()
    }

    /// The list as the text of a file: one line for each task.
    pub fn to_string(&self) -> (r: String)
        ensures
            r@ == list_text(self@),
    {
        let mut out = String::new();
        let mut i: usize = 0;
        let ghost all = self@;
        assert(all.take(0) =~= Seq::<ItemView>::empty());
        while i < self.items.len()
            invariant
                i <= self.items.len(),
                all == self@,
                out@ == list_text(all.take(i as int)),
            decreases self.items.len() - i,
        {
            let line = self.items[i].to_string();
            out.append(line.as_str());
            out.push('\n');
            proof {
                let upto = all.take(i + 1);
                assert(upto.drop_last() =~= all.take(i as int));
                assert(upto.last() == self.items@[i as int]@);
            }
            i += 1;
        }
        assert(all.take(i as int) =~= all);
        out
    }
}

/// A task equal to `item` in every field is among the tasks.
pub open spec fn holds_item(items: Seq<ItemView>, item: ItemView) -> bool {
    exists|i: int| 0 <= i < items.len() && items[i] == item
}

/// Puts `item` behind the tasks unless a task equal to it in every field
/// is among them already. Tells whether it was put there.
pub fn add_unless_present(items: &mut Vec<TodoItem>, item: TodoItem) -> (added: bool)
    ensures
        added == !holds_item(item_views(old(items)@), item@),
        item_views(final(items)@) == if added {
            item_views(old(items)@).push(item@)
        } else {
            item_views(old(items)@)
        },
{
    let mut i: usize = 0;
    while i < items.len()
        invariant
            i <= items.len(),
            items@ == old(items)@,
            forall|k: int| 0 <= k < i ==> item_views(items@)[k] != item@,
        decreases items.len() - i,
    {
        if items[i].same_as(&item) {
            assert(item_views(items@)[i as int] == item@);
            return false;
        }
        i += 1;
    }
    let ghost before = items@;
    items.push(item);
    assert(item_views(items@) =~= item_views(before).push(item@));
    true
}

} // verus!
