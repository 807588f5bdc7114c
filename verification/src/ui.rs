//! What the user interface shows of a task and of the filter, before it is
//! drawn: the marks, and the words of the task's text broken into lines.

use vstd::prelude::*;

use crate::app::TodoListFilter;
use crate::config::{display_width, filled_format, span_width, Config};
use crate::date::Date;
use crate::todo::parsing::{content_parts, part_views};
use crate::todo::{Content, ContentPart, ContentPartView, ContentView, ItemView, TodoItem};

verus! {

/// What a piece of a row is, which decides how it is drawn.
#[derive(Debug, Clone, Copy, PartialEq, Eq, Structural)]
pub enum PieceKind {
    Word,
    Space,
    Context,
    Project,
    Threshold,
    Due,
    /// The space in front of a date.
    Plain,
}

/// A piece of a row: a text, and what it is.
#[derive(Debug, Clone, PartialEq, Eq)]
pub struct Piece {
    pub kind: PieceKind,
    pub text: String,
}

/// What a [`Piece`] holds, its text as a sequence of characters.
pub struct PieceView {
    pub kind: PieceKind,
    pub text: Seq<char>,
}

impl View for Piece {
    type V = PieceView;

    open spec fn view(&self) -> PieceView {
        PieceView { kind: self.kind, text: self.text@ }
    }
}

/// The views of the pieces of a line.
pub open spec fn line_view(line: Seq<Piece>) -> Seq<PieceView> {
    Seq::new(line.len(), |i: int| line[i]@)
}

/// The views of the lines.
pub open spec fn lines_view(lines: Seq<Vec<Piece>>) -> Seq<Seq<PieceView>> {
    Seq::new(lines.len(), |i: int| line_view(lines[i]@))
}

/// The sum of two widths, or the greatest number where the sum is
/// greater.
pub open spec fn capped_sum(a: usize, b: usize) -> usize {
    if a + b > usize::MAX {
        usize::MAX
    } else {
        (a + b) as usize
    }
}

/// The sum of two widths, or the greatest number where the sum is
/// greater.
pub fn add_widths(a: usize, b: usize) -> (r: usize)
    ensures
        r == capped_sum(a, b),
{
    if a > usize::MAX - b {
        usize::MAX
    } else {
        a + b
    }
}

/// The width of a line with one more piece behind a space; none where
/// that is wider than `max`.
pub open spec fn widened(width: usize, piece: usize, space: usize, max: usize) -> Option<usize> {
    let sum = capped_sum(capped_sum(width, piece), space);
    if sum > max {
        None
    } else {
        Some(sum)
    }
}

/// The width of a line with one more piece behind a space, if that fits
/// into `max` columns.
pub fn widen(width: usize, piece: usize, space: usize, max: usize) -> (r: Option<usize>)
    ensures
        r == widened(width, piece, space, max),
{
    let sum = add_widths(add_widths(width, piece), space);
    if sum > max {
        None
    } else {
        Some(sum)
    }
}

/// The lines of a row while it is laid out: the lines that are full, the
/// pieces of the line that is being filled, and the width of that line.
pub struct Layout {
    pub lines: Seq<Seq<PieceView>>,
    pub line: Seq<PieceView>,
    pub width: usize,
}

/// The piece that shows a word of a task's text: the word, or the name of
/// the context or project without its sign.
pub open spec fn word_piece(content: ContentView) -> PieceView {
    match content {
        ContentView::Word(w) => PieceView { kind: PieceKind::Word, text: w },
        ContentView::Context(name) => PieceView { kind: PieceKind::Context, text: name },
        ContentView::Project(name) => PieceView { kind: PieceKind::Project, text: name },
    }
}

/// The layout after one more word. The word goes behind the spaces that
/// stand in front of it in the text, none for the first word; where the
/// line would get wider than `max` with it, the line ends and the word
/// begins a new one, without the spaces.
pub open spec fn with_part(
    layout: Layout,
    part: ContentPartView,
    first: bool,
    max: usize,
) -> Layout {
    let piece = word_piece(part.content);
    let space = PieceView {
        kind: PieceKind::Space,
        text: if first {
            Seq::empty()
        } else {
            part.space
        },
    };
    match widened(layout.width, display_width(piece.text), display_width(space.text), max) {
        None => Layout {
            lines: layout.lines.push(layout.line),
            line: seq![piece],
            width: display_width(piece.text),
        },
        Some(width) => Layout {
            lines: layout.lines,
            line: layout.line.push(space).push(piece),
            width,
        },
    }
}

/// The layout after the first `n` words of a text.
pub open spec fn with_parts(parts: Seq<ContentPartView>, n: int, max: usize) -> Layout
    decreases n,
{
    if n <= 0 {
        Layout { lines: Seq::empty(), line: Seq::empty(), width: 0 }
    } else {
        with_part(with_parts(parts, n - 1, max), parts[n - 1], n == 1, max)
    }
}

/// The layout after one more date, where there is one. The date goes
/// behind one space; where the line would get wider than `max` with it, the
/// line ends and the date begins a new one.
pub open spec fn with_date(
    layout: Layout,
    date: Option<Date>,
    kind: PieceKind,
    max: usize,
) -> Layout {
    match date {
        None => layout,
        Some(d) => {
            let piece = PieceView { kind, text: d.dotted_text() };
            match widened(layout.width, display_width(piece.text), 1, max) {
                None => Layout {
                    lines: layout.lines.push(layout.line),
                    line: seq![piece],
                    width: 0,
                },
                Some(width) => Layout {
                    lines: layout.lines,
                    line: layout.line.push(PieceView { kind: PieceKind::Plain, text: seq![' '] })
                        .push(piece),
                    width,
                },
            }
        },
    }
}

/// The lines that show the text and the dates of a task in a column of
/// width `max`: the words of the text, then the threshold date, then the
/// due date.
pub open spec fn row_lines(item: ItemView, max: usize) -> Seq<Seq<PieceView>> {
    let parts = content_parts(item.content);
    let words = with_parts(parts, parts.len() as int, max);
    let dated = with_date(
        with_date(words, item.t, PieceKind::Threshold, max),
        item.due,
        PieceKind::Due,
        max,
    );
    if dated.line.len() > 0 {
        dated.lines.push(dated.line)
    } else {
        dated.lines
    }
}

/// The layout as it is held while a row is laid out.
struct LayoutBuf {
    lines: Vec<Vec<Piece>>,
    line: Vec<Piece>,
    width: usize,
}

impl View for LayoutBuf {
    type V = Layout;

    closed spec fn view(&self) -> Layout {
        Layout { lines: lines_view(self.lines@), line: line_view(self.line@), width: self.width }
    }
}

impl LayoutBuf {
    /// Ends the line and begins a new one with `piece`.
    fn break_line(&mut self, piece: Piece, width: usize)
        ensures
            final(self)@ == (Layout {
                lines: old(self)@.lines.push(old(self)@.line),
                line: seq![piece@],
                width,
            }),
    {
        let mut line: Vec<Piece> = Vec::new();
        std::mem::swap(&mut self.line, &mut line);
        self.lines.push(line);
        self.line.push(piece);
        self.width = width;
        assert(lines_view(self.lines@) =~= old(self)@.lines.push(old(self)@.line));
        assert(line_view(self.line@) =~= seq![piece@]);
    }

    /// Puts two pieces at the end of the line.
    fn extend_line(&mut self, space: Piece, piece: Piece, width: usize)
        ensures
            final(self)@ == (Layout {
                lines: old(self)@.lines,
                line: old(self)@.line.push(space@).push(piece@),
                width,
            }),
    {
        self.line.push(space);
        self.line.push(piece);
        self.width = width;
        assert(line_view(self.line@) =~= old(self)@.line.push(space@).push(piece@));
    }

    /// Takes one more word into the layout.
    fn add_part(&mut self, part: &ContentPart, first: bool, max: usize)
        ensures
            final(self)@ == with_part(old(self)@, part@, first, max),
    {
        let piece = match &part.content {
            Content::Word(w) => Piece { kind: PieceKind::Word, text: w.clone() },
            Content::Context(name) => Piece { kind: PieceKind::Context, text: name.clone() },
            Content::Project(name) => Piece { kind: PieceKind::Project, text: name.clone() },
        };
        let space = Piece {
            kind: PieceKind::Space,
            text: if first {
                String::new()
            } else {
                part.space.clone()
            },
        };
        let piece_width = span_width(piece.text.as_str());
        match widen(self.width, piece_width, span_width(space.text.as_str()), max) {
            None => self.break_line(piece, piece_width),
            Some(width) => self.extend_line(space, piece, width),
        }
    }

    /// Takes one more date into the layout, where there is one.
    fn add_date(&mut self, date: &Option<Date>, kind: PieceKind, max: usize)
        ensures
            final(self)@ == with_date(old(self)@, *date, kind, max),
    {
        match date {
            None => {},
            Some(d) => {
                let piece = Piece { kind, text: d.to_dotted_string() };
                match widen(self.width, span_width(piece.text.as_str()), 1, max) {
                    None => self.break_line(piece, 0),
                    Some(width) => {
                        let mut blank = String::new();
                        blank.push(' ');
                        assert(blank@ =~= seq![' ']);
                        self.extend_line(
                            Piece { kind: PieceKind::Plain, text: blank },
                            piece,
                            width,
                        );
                    },
                }
            },
        }
    }
}

/// Breaks the text and the dates of a task into lines for a column of
/// width `max_width`.
pub fn item_lines(item: &TodoItem, max_width: usize) -> (r: Vec<Vec<Piece>>)
    ensures
        lines_view(r@) == row_lines(item@, max_width),
{
    let parts = item.content_parts();
    let mut layout = LayoutBuf { lines: Vec::new(), line: Vec::new(), width: 0 };
    assert(lines_view(layout.lines@) =~= Seq::<Seq<PieceView>>::empty());
    assert(line_view(layout.line@) =~= Seq::<PieceView>::empty());
    let ghost all = part_views(parts@);
    let mut i: usize = 0;
    while i < parts.len()
        invariant
            i <= parts.len(),
            all == part_views(parts@),
            layout@ == with_parts(all, i as int, max_width),
        decreases parts.len() - i,
    {
        assert(all[i as int] == parts@[i as int]@);
        layout.add_part(&parts[i], i == 0, max_width);
        i += 1;
    }
    layout.add_date(&item.t, PieceKind::Threshold, max_width);
    layout.add_date(&item.due, PieceKind::Due, max_width);
    if layout.line.len() > 0 {
        let ghost before = layout@;
        let mut line: Vec<Piece> = Vec::new();
        std::mem::swap(&mut layout.line, &mut line);
        layout.lines.push(line);
        assert(lines_view(layout.lines@) =~= before.lines.push(before.line));
    }
    layout.lines
}

impl Config {
    /// The mark that shows whether a task is completed.
    pub fn completion_mark(&self, completed: bool) -> (r: &String)
        ensures
            r@ == if completed {
                self.item_complete_mark@
            } else {
                self.item_incomplete_mark@
            },
    {
        if completed {
            &self.item_complete_mark
        } else {
            &self.item_incomplete_mark
        }
    }

    /// The mark that shows the priority of a task.
    pub fn priority_mark(&self, priority: Option<char>) -> (r: String)
        ensures
            r@ == match priority {
                Some(p) => filled_format(self.item_priority_mark_format@, p),
                None => self.item_no_priority_mark@,
            },
    {
        match priority {
            Some(p) => self.item_priority_mark(p),
            None => self.item_no_priority_mark.clone(),
        }
    }

    /// The mark that shows what the filter asks of the completion.
    pub fn filter_completion_mark(&self, filter: &TodoListFilter) -> (r: &String)
        ensures
            r@ == match filter@.completion {
                Some(true) => self.item_complete_mark@,
                Some(false) => self.item_incomplete_mark@,
                None => self.filter_completion_disabled@,
            },
    {
        match filter.completion {
            Some(true) => &self.item_complete_mark,
            Some(false) => &self.item_incomplete_mark,
            None => &self.filter_completion_disabled,
        }
    }

    /// The mark that shows what the filter asks of the priority.
    pub fn filter_priority_mark(&self, filter: &TodoListFilter) -> (r: String)
        ensures
            r@ == match filter@.priority {
                Some(Some(p)) => filled_format(self.item_priority_mark_format@, p),
                Some(None) => self.item_no_priority_mark@,
                None => self.filter_priority_disabled@,
            },
    {
        match filter.priority {
            Some(Some(p)) => self.item_priority_mark(p),
            Some(None) => self.item_no_priority_mark.clone(),
            None => self.filter_priority_disabled.clone(),
        }
    }

    /// The mark that shows whether the filter hides by threshold date.
    pub fn filter_t_mark(&self, filter: &TodoListFilter) -> (r: &String)
        ensures
            r@ == if filter@.hide_threshold_beyond_days is Some {
                self.filter_t_enabled@
            } else {
                self.filter_t_disabled@
            },
    {
        if filter.hide_threshold_beyond_days.is_some() {
            &self.filter_t_enabled
        } else {
            &self.filter_t_disabled
        }
    }
}

/// A task as a row of the list: the marks of its completion and of its
/// priority, and its text and dates in lines.
#[derive(Debug, Clone, PartialEq, Eq)]
pub struct ItemRow {
    pub completion: String,
    pub priority: String,
    pub lines: Vec<Vec<Piece>>,
}

/// The row that shows a task, its text in a column of width `max_width`.
pub fn item_row(item: &TodoItem, max_width: usize, config: &Config) -> (r: ItemRow)
    ensures
        r.completion@ == if item@.completed {
            config.item_complete_mark@
        } else {
            config.item_incomplete_mark@
        },
        r.priority@ == match item@.priority {
            Some(p) => filled_format(config.item_priority_mark_format@, p),
            None => config.item_no_priority_mark@,
        },
        lines_view(r.lines@) == row_lines(item@, max_width),
{
    ItemRow {
        completion: config.completion_mark(item.completed).clone(),
        priority: config.priority_mark(item.priority),
        lines: item_lines(item, max_width),
    }
}

} // verus!
