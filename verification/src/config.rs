//! The marks that the user interface writes, and how wide its columns are.

use vstd::prelude::*;

use crate::date::Date;
use crate::text::{matches_at, occurs_at, push_range, to_chars};

verus! {

/// The number of columns that a text takes on the screen, as ratatui
/// measures it.
pub uninterp spec fn display_width(s: Seq<char>) -> usize;

/// Calls ratatui's `Span::width` on a span that holds the text and no
/// style. Its result depends on the text alone.
#[verifier::external_body]
pub(crate) fn span_width(s: &str) -> (r: usize)
    ensures
        r == display_width(s@),
{
    ratatui::text::Span::raw(s).width()
}

/// The greatest of three numbers.
pub open spec fn max3(a: usize, b: usize, c: usize) -> usize {
    if a >= b && a >= c {
        a
    } else if b >= c {
        b
    } else {
        c
    }
}

/// The greatest of three widths.
pub fn widest(a: usize, b: usize, c: usize) -> (r: usize)
    ensures
        r == max3(a, b, c),
{
    if a >= b && a >= c {
        a
    } else if b >= c {
        b
    } else {
        c
    }
}

/// The place in a format where the priority goes.
pub open spec fn placeholder() -> Seq<char> {
    seq!['{', 'p', '}']
}

/// The first position from `from` on at which `needle` stands in `hay`;
/// -1 where there is none.
pub open spec fn first_occurrence(hay: Seq<char>, needle: Seq<char>, from: int) -> int
    decreases hay.len() - from,
{
    if from < 0 || from + needle.len() > hay.len() {
        -1
    } else if occurs_at(hay, needle, from) {
        from
    } else if from < hay.len() {
        first_occurrence(hay, needle, from + 1)
    } else {
        -1
    }
}

/// The format with the priority in the place of its first placeholder; the
/// format itself where it has none.
pub open spec fn filled_format(format: Seq<char>, priority: char) -> Seq<char> {
    let at = first_occurrence(format, placeholder(), 0);
    if at < 0 {
        format
    } else {
        format.subrange(0, at) + seq![priority] + format.subrange(at + 3, format.len() as int)
    }
}

/// The marks of the user interface.
#[derive(Debug, Clone, PartialEq, Eq)]
pub struct Config {
    /// What stands in front of the selected task.
    pub item_selection_mark: String,
    /// What stands for a completed task.
    pub item_complete_mark: String,
    /// What stands for an open task.
    pub item_incomplete_mark: String,
    /// What stands for a priority, with `{p}` in the place of its letter.
    pub item_priority_mark_format: String,
    /// What stands for a task without priority.
    pub item_no_priority_mark: String,
    /// What stands for a filter that does not ask for completion.
    pub filter_completion_disabled: String,
    /// What stands for a filter that does not ask for a priority.
    pub filter_priority_disabled: String,
    /// What stands for a filter that hides by threshold date.
    pub filter_t_enabled: String,
    /// What stands for a filter that does not hide by threshold date.
    pub filter_t_disabled: String,
}

impl Default for Config {
    fn default() -> (r: Config)
        ensures
            r.item_selection_mark@ == "> "@,
            r.item_complete_mark@ == "[x]"@,
            r.item_incomplete_mark@ == "[ ]"@,
            r.item_priority_mark_format@ == "({p})"@,
            r.item_no_priority_mark@ == ""@,
            r.filter_completion_disabled@ == "[*]"@,
            r.filter_priority_disabled@ == "(*)"@,
            r.filter_t_enabled@ == "t"@,
            r.filter_t_disabled@ == "t"@,
    {
        Config {
            item_selection_mark: "> ".to_owned(),
            item_complete_mark: "[x]".to_owned(),
            item_incomplete_mark: "[ ]".to_owned(),
            item_priority_mark_format: "({p})".to_owned(),
            item_no_priority_mark: "".to_owned(),
            filter_completion_disabled: "[*]".to_owned(),
            filter_priority_disabled: "(*)".to_owned(),
            filter_t_enabled: "t".to_owned(),
            filter_t_disabled: "t".to_owned(),
        }
    }
}

impl Config {
    /// What stands in front of the selected task.
    pub fn item_selection_mark(&self) -> (r: &String)
        ensures
            *r == self.item_selection_mark,
    {
        &self.item_selection_mark
    }

    /// What stands for a completed task.
    pub fn item_complete_mark(&self) -> (r: &String)
        ensures
            *r == self.item_complete_mark,
    {
        &self.item_complete_mark
    }

    /// What stands for an open task.
    pub fn item_incomplete_mark(&self) -> (r: &String)
        ensures
            *r == self.item_incomplete_mark,
    {
        &self.item_incomplete_mark
    }

    /// What stands for a task without priority.
    pub fn item_no_priority_mark(&self) -> (r: &String)
        ensures
            *r == self.item_no_priority_mark,
    {
        &self.item_no_priority_mark
    }

    /// What stands for a filter that does not ask for completion.
    pub fn filter_completion_disabled(&self) -> (r: &String)
        ensures
            *r == self.filter_completion_disabled,
    {
        &self.filter_completion_disabled
    }

    /// What stands for a filter that does not ask for a priority.
    pub fn filter_priority_disabled(&self) -> (r: &String)
        ensures
            *r == self.filter_priority_disabled,
    {
        &self.filter_priority_disabled
    }

    /// What stands for a filter that hides by threshold date.
    pub fn filter_t_enabled(&self) -> (r: &String)
        ensures
            *r == self.filter_t_enabled,
    {
        &self.filter_t_enabled
    }

    /// What stands for a filter that does not hide by threshold date.
    pub fn filter_t_disabled(&self) -> (r: &String)
        ensures
            *r == self.filter_t_disabled,
    {
        &self.filter_t_disabled
    }

    /// How the due date of a task is shown: day first, with dots.
    pub fn item_due_date(&self, date: Date) -> (r: String)
        ensures
            r@ == date.dotted_text(),
    {
        date.to_dotted_string()
    }

    /// How the threshold date of a task is shown: day first, with dots.
    pub fn item_t_date(&self, date: Date) -> (r: String)
        ensures
            r@ == date.dotted_text(),
    {
        date.to_dotted_string()
    }

    /// The mark of the priority `prio`.
    pub fn item_priority_mark(&self, prio: char) -> (r: String)
        ensures
            r@ == filled_format(self.item_priority_mark_format@, prio),
    {
        let format = to_chars(self.item_priority_mark_format.as_str());
        let mut needle: Vec<char> = Vec::new();
        needle.push('{');
        needle.push('p');
        needle.push('}');
        assert(needle@ =~= placeholder());
        let mut out = String::new();
        if format.len() < 3 {
            push_range(&mut out, &format, 0, format.len());
            assert(out@ =~= format@);
            return out;
        }
        let last: usize = format.len() - 3;
        let mut at: usize = 0;
        loop
            invariant
                at <= last,
                last + 3 == format.len(),
                needle@ == placeholder(),
                format@ == self.item_priority_mark_format@,
                out@.len() == 0,
                first_occurrence(format@, placeholder(), 0) == first_occurrence(
                    format@,
                    placeholder(),
                    at as int,
                ),
            decreases last - at,
        {
            if matches_at(&format, &needle, at) {
                push_range(&mut out, &format, 0, at);
                out.push(prio);
                push_range(&mut out, &format, at + 3, format.len());
                assert(out@ =~= filled_format(format@, prio));
                return out;
            }
            if at == last {
                push_range(&mut out, &format, 0, format.len());
                assert(out@ =~= format@);
                assert(first_occurrence(format@, placeholder(), at + 1) == -1);
                return out;
            }
            at += 1;
        }
    }

    /// The width of the column that shows whether a task is completed.
    pub fn completion_width(&self) -> (r: usize)
        ensures
            r == max3(
                display_width(self.item_complete_mark@),
                display_width(self.item_incomplete_mark@),
                display_width(self.filter_completion_disabled@),
            ),
    {
        widest(
            span_width(self.item_complete_mark.as_str()),
            span_width(self.item_incomplete_mark.as_str()),
            span_width(self.filter_completion_disabled.as_str()),
        )
    }

    /// The width of the column that shows the priority of a task.
    pub fn priority_width(&self) -> (r: usize)
        ensures
            r == max3(
                display_width(filled_format(self.item_priority_mark_format@, 'A')),
                display_width(self.item_no_priority_mark@),
                display_width(self.filter_priority_disabled@),
            ),
    {
        let mark = self.item_priority_mark('A');
        widest(
            span_width(mark.as_str()),
            span_width(self.item_no_priority_mark.as_str()),
            span_width(self.filter_priority_disabled.as_str()),
        )
    }

    /// The width of the column that shows whether the filter hides by
    /// threshold date.
    pub fn t_width(&self) -> (r: usize)
        ensures
            r == max3(
                display_width(self.filter_t_enabled@),
                display_width(self.filter_t_disabled@),
                0,
            ),
    {
        widest(
            span_width(self.filter_t_enabled.as_str()),
            span_width(self.filter_t_disabled.as_str()),
            0,
        )
    }
}

} // verus!
