//! The state behind the pickers of the user interface: the recurrence
//! picker, the calendar picker and the scroll bar. Drawing them is left to
//! whoever owns the screen; what is decided here is what they hold and
//! where each piece goes.

use vstd::prelude::*;

use crate::date::{
    chrono_add_days, chrono_sub_days, chrono_weekday, days_in_month, first_day_number,
    last_day_number, lemma_number_in_range, month_length, Date,
};
use crate::text::{decimal_text, push_decimal};
use crate::todo::unit_letter;
use crate::todo::{Recurring, RecurringUnit};

verus! {

/// The number of digits of `n` in decimal notation.
pub fn digit_count(n: u32) -> (r: u16)
    ensures
        r == decimal_text(n as nat).len(),
        1 <= r <= 10,
{
    proof {
        reveal_with_fuel(decimal_text, 11);
    }
    if n < 10 {
        1
    } else if n < 100 {
        2
    } else if n < 1_000 {
        3
    } else if n < 10_000 {
        4
    } else if n < 100_000 {
        5
    } else if n < 1_000_000 {
        6
    } else if n < 10_000_000 {
        7
    } else if n < 100_000_000 {
        8
    } else if n < 1_000_000_000 {
        9
    } else {
        10
    }
}

/// The unit after `unit`, the last one staying as it is.
pub open spec fn longer_unit(unit: RecurringUnit) -> RecurringUnit {
    match unit {
        RecurringUnit::Days => RecurringUnit::Weeks,
        RecurringUnit::Weeks => RecurringUnit::Months,
        RecurringUnit::Months => RecurringUnit::Years,
        RecurringUnit::Years => RecurringUnit::Years,
    }
}

/// The unit before `unit`, the first one staying as it is.
pub open spec fn shorter_unit(unit: RecurringUnit) -> RecurringUnit {
    match unit {
        RecurringUnit::Days => RecurringUnit::Days,
        RecurringUnit::Weeks => RecurringUnit::Days,
        RecurringUnit::Months => RecurringUnit::Weeks,
        RecurringUnit::Years => RecurringUnit::Months,
    }
}

/// What the recurrence picker holds: the three parts of a rule, of which
/// the amount may be zero, and which of the three is selected: 0 for the
/// sign, 1 for the amount, 2 for the unit.
#[derive(Debug, Clone, Copy, PartialEq, Eq, Structural)]
pub struct RecurrencePickerState {
    pub(crate) relative: bool,
    pub(crate) amount: u32,
    pub(crate) unit: RecurringUnit,
    pub(crate) selected: u8,
}

impl RecurrencePickerState {
    /// One of the three parts is selected.
    #[verifier::type_invariant]
    pub open(crate) spec fn inv(self) -> bool {
        self.selected < 3
    }

    /// Whether the rule shown is relative.
    pub open(crate) spec fn is_relative(self) -> bool {
        self.relative
    }

    /// The amount shown.
    pub open(crate) spec fn held_amount(self) -> int {
        self.amount as int
    }

    /// The unit shown.
    pub open(crate) spec fn held_unit(self) -> RecurringUnit {
        self.unit
    }

    /// Which part is selected: 0 for the sign, 1 for the amount, 2 for the
    /// unit.
    pub open(crate) spec fn selection(self) -> int {
        self.selected as int
    }

    /// The state that shows the given rule, or an amount of zero days where
    /// there is none, with the sign selected.
    pub fn new(recurring: Option<Recurring>) -> (r: RecurrencePickerState)
        ensures
            r.selection() == 0,
            match recurring {
                Some(rule) => r.is_relative() == rule.rel() && r.held_amount() == rule.amt()
                    && r.held_unit() == rule.per(),
                None => !r.is_relative() && r.held_amount() == 0 && r.held_unit()
                    == RecurringUnit::Days,
            },
    {
        match recurring {
            Some(rule) => RecurrencePickerState {
                relative: rule.relative(),
                amount: rule.amount(),
                unit: rule.unit(),
                selected: 0,
            },
            None => RecurrencePickerState {
                relative: false,
                amount: 0,
                unit: RecurringUnit::Days,
                selected: 0,
            },
        }
    }

    /// The width and height that the picker takes on the screen: the
    /// digits of the amount with three columns on either side, in three
    /// rows.
    pub fn size(&self) -> (r: (u16, u16))
        ensures
            r.0 == 6 + decimal_text(self.held_amount() as nat).len(),
            r.1 == 3,
    {
        (3 + digit_count(self.amount) + 3, 3)
    }

    /// Selects the part after the selected one, the first after the last.
    pub fn select_next(&mut self)
        ensures
            final(self).selection() == (old(self).selection() + 1) % 3,
            final(self).is_relative() == old(self).is_relative(),
            final(self).held_amount() == old(self).held_amount(),
            final(self).held_unit() == old(self).held_unit(),
    {
        proof {
            use_type_invariant(&*self);
        }
        self.selected = (self.selected + 1) % 3;
    }

    /// Selects the part before the selected one, the last before the first.
    pub fn select_previous(&mut self)
        ensures
            final(self).selection() == (old(self).selection() + 2) % 3,
            final(self).is_relative() == old(self).is_relative(),
            final(self).held_amount() == old(self).held_amount(),
            final(self).held_unit() == old(self).held_unit(),
    {
        proof {
            use_type_invariant(&*self);
        }
        self.selected = (self.selected + 2) % 3;
    }

    /// Raises the selected part: makes the rule relative, adds one to the
    /// amount, or takes the next longer unit.
    pub fn increase(&mut self)
        requires
            old(self).selection() == 1 ==> old(self).held_amount() < u32::MAX,
        ensures
            final(self).selection() == old(self).selection(),
            final(self).is_relative() == (old(self).selection() == 0 || old(self).is_relative()),
            final(self).held_amount() == if old(self).selection() == 1 {
                old(self).held_amount() + 1
            } else {
                old(self).held_amount()
            },
            final(self).held_unit() == if old(self).selection() == 2 {
                longer_unit(old(self).held_unit())
            } else {
                old(self).held_unit()
            },
    {
        proof {
            use_type_invariant(&*self);
        }
        if self.selected == 0 {
            self.relative = true;
        } else if self.selected == 1 {
            self.amount = self.amount + 1;
        } else {
            self.unit = match self.unit {
                RecurringUnit::Days => RecurringUnit::Weeks,
                RecurringUnit::Weeks => RecurringUnit::Months,
                RecurringUnit::Months => RecurringUnit::Years,
                RecurringUnit::Years => RecurringUnit::Years,
            };
        }
    }

    /// Lowers the selected part: makes the rule not relative, takes one
    /// from the amount unless it is zero, or takes the next shorter unit.
    pub fn decrease(&mut self)
        ensures
            final(self).selection() == old(self).selection(),
            final(self).is_relative() == (old(self).selection() != 0 && old(self).is_relative()),
            final(self).held_amount() == if old(self).selection() == 1 && old(self).held_amount()
                > 0 {
                old(self).held_amount() - 1
            } else {
                old(self).held_amount()
            },
            final(self).held_unit() == if old(self).selection() == 2 {
                shorter_unit(old(self).held_unit())
            } else {
                old(self).held_unit()
            },
    {
        proof {
            use_type_invariant(&*self);
        }
        if self.selected == 0 {
            self.relative = false;
        } else if self.selected == 1 {
            if self.amount > 0 {
                self.amount = self.amount - 1;
            }
        } else {
            self.unit = match self.unit {
                RecurringUnit::Days => RecurringUnit::Days,
                RecurringUnit::Weeks => RecurringUnit::Days,
                RecurringUnit::Months => RecurringUnit::Weeks,
                RecurringUnit::Years => RecurringUnit::Months,
            };
        }
    }

    /// The rule that the picker shows; none while the amount is zero.
    pub fn get_recurrence(&self) -> (r: Option<Recurring>)
        ensures
            r == if self.held_amount() != 0 {
                Some(Recurring::of(self.is_relative(), self.held_amount(), self.held_unit()))
            } else {
                None
            },
    {
        Recurring::new(self.relative, self.amount, self.unit)
    }

    /// Sets the picker back to an amount of zero days, not relative. The
    /// selection stays.
    pub fn reset(&mut self)
        ensures
            final(self).selection() == old(self).selection(),
            !final(self).is_relative(),
            final(self).held_amount() == 0,
            final(self).held_unit() == RecurringUnit::Days,
    {
        proof {
            use_type_invariant(&*self);
        }
        self.relative = false;
        self.amount = 0;
        self.unit = RecurringUnit::Days;
    }

    /// Whether the rule is relative.
    pub fn relative(&self) -> (r: bool)
        ensures
            r == self.is_relative(),
    {
        self.relative
    }

    /// The amount shown.
    pub fn amount(&self) -> (r: u32)
        ensures
            r == self.held_amount(),
    {
        self.amount
    }

    /// The unit shown.
    pub fn unit(&self) -> (r: RecurringUnit)
        ensures
            r == self.held_unit(),
    {
        self.unit
    }

    /// Which part is selected: 0 for the sign, 1 for the amount, 2 for the
    /// unit.
    pub fn selected(&self) -> (r: u8)
        ensures
            r == self.selection(),
            r < 3,
    {
        proof {
            use_type_invariant(self);
        }
        self.selected
    }
}

/// How a piece of the recurrence picker is drawn.
#[derive(Debug, Clone, Copy, PartialEq, Eq, Structural)]
pub enum PickerStyle {
    /// A part of the rule that is not selected.
    Normal,
    /// The selected part of the rule.
    Selected,
    /// An arrow above or below a part.
    Arrow,
}

/// A piece of the recurrence picker: a text, the column and row where it
/// begins, and how it is drawn.
#[derive(Debug, Clone, PartialEq, Eq)]
pub struct PickerCell {
    pub x: u16,
    pub y: u16,
    pub text: String,
    pub style: PickerStyle,
}

/// What a [`PickerCell`] holds, its text as a sequence of characters.
pub struct PickerCellView {
    pub x: u16,
    pub y: u16,
    pub text: Seq<char>,
    pub style: PickerStyle,
}

impl View for PickerCell {
    type V = PickerCellView;

    open spec fn view(&self) -> PickerCellView {
        PickerCellView { x: self.x, y: self.y, text: self.text@, style: self.style }
    }
}

/// The views of the cells, in order.
pub open spec fn cell_views(cells: Seq<PickerCell>) -> Seq<PickerCellView> {
    Seq::new(cells.len(), |i: int| cells[i]@)
}

/// The arrow that points up.
pub open spec fn arrow_up() -> char {
    '\u{25B2}'
}

/// The arrow that points down.
pub open spec fn arrow_down() -> char {
    '\u{25BC}'
}

/// An arrow at the given place.
pub open spec fn arrow_cell(x: int, y: int, arrow: char) -> PickerCellView {
    PickerCellView { x: x as u16, y: y as u16, text: seq![arrow], style: PickerStyle::Arrow }
}

/// The cells behind `cells`, and `cell` where `shown` holds.
pub open spec fn with_cell(
    cells: Seq<PickerCellView>,
    shown: bool,
    cell: PickerCellView,
) -> Seq<PickerCellView> {
    if shown {
        cells.push(cell)
    } else {
        cells
    }
}

impl RecurrencePickerState {
    /// How the part with the number `part` is drawn.
    pub open spec fn style_of(self, part: int) -> PickerStyle {
        if self.selection() == part {
            PickerStyle::Selected
        } else {
            PickerStyle::Normal
        }
    }

    /// The column of the unit: behind the digits of the amount.
    pub open spec fn unit_column(self) -> int {
        4 + decimal_text(self.held_amount() as nat).len() as int
    }

    /// The pieces of the picker. In the middle row stand the sign, the
    /// amount, and the unit behind it. Each of the three has an arrow above
    /// it where it can be raised, and one below it where it can be lowered.
    pub open spec fn pieces(self) -> Seq<PickerCellView> {
        let sign = seq![
            PickerCellView {
                x: 1,
                y: 1,
                text: seq![
                    if self.is_relative() {
                        '+'
                    } else {
                        ' '
                    },
                ],
                style: self.style_of(0),
            },
            if self.is_relative() {
                arrow_cell(1, 2, arrow_down())
            } else {
                arrow_cell(1, 0, arrow_up())
            },
            PickerCellView {
                x: 3,
                y: 1,
                text: decimal_text(self.held_amount() as nat),
                style: self.style_of(1),
            },
        ];
        let amount = with_cell(sign, self.held_amount() > 0, arrow_cell(3, 2, arrow_down())).push(
            arrow_cell(3, 0, arrow_up()),
        ).push(
            PickerCellView {
                x: self.unit_column() as u16,
                y: 1,
                text: seq![unit_letter(self.held_unit())],
                style: self.style_of(2),
            },
        );
        let lower = with_cell(
            amount,
            self.held_unit() != RecurringUnit::Days,
            arrow_cell(self.unit_column(), 2, arrow_down()),
        );
        with_cell(
            lower,
            self.held_unit() != RecurringUnit::Years,
            arrow_cell(self.unit_column(), 0, arrow_up()),
        )
    }

    /// The pieces of the picker, each with its place counted from the
    /// upper left corner of the picker.
    pub fn cells(&self) -> (r: Vec<PickerCell>)
        ensures
            cell_views(r@) == self.pieces(),
    {
        proof {
            use_type_invariant(self);
        }
        let up: char = '\u{25B2}';
        let down: char = '\u{25BC}';
        let mut out: Vec<PickerCell> = Vec::new();
        out.push(
            PickerCell {
                x: 1,
                y: 1,
                text: text_of(
                    if self.relative {
                        '+'
                    } else {
                        ' '
                    },
                ),
                style: self.part_style(0),
            },
        );
        if self.relative {
            out.push(arrow(1, 2, down));
        } else {
            out.push(arrow(1, 0, up));
        }
        let mut number = String::new();
        push_decimal(&mut number, self.amount as u64);
        assert(number@ =~= decimal_text(self.amount as nat));
        let unit_x: u16 = 4 + digit_count(self.amount);
        out.push(PickerCell { x: 3, y: 1, text: number, style: self.part_style(1) });
        if self.amount > 0 {
            out.push(arrow(3, 2, down));
        }
        out.push(arrow(3, 0, up));
        out.push(
            PickerCell {
                x: unit_x,
                y: 1,
                text: text_of(self.unit.letter()),
                style: self.part_style(2),
            },
        );
        match self.unit {
            RecurringUnit::Days => {},
            _ => {
                out.push(arrow(unit_x, 2, down));
            },
        }
        match self.unit {
            RecurringUnit::Years => {},
            _ => {
                out.push(arrow(unit_x, 0, up));
            },
        }
        assert(cell_views(out@) =~= self.pieces());
        out
    }

    /// How the part with the number `part` is drawn.
    fn part_style(&self, part: u8) -> (r: PickerStyle)
        ensures
            r == self.style_of(part as int),
    {
        if self.selected == part {
            PickerStyle::Selected
        } else {
            PickerStyle::Normal
        }
    }
}

/// The text of one character.
fn text_of(c: char) -> (r: String)
    ensures
        r@ == seq![c],
{
    let mut s = String::new();
    s.push(c);
    assert(s@ =~= seq![c]);
    s
}

/// An arrow at the given place.
fn arrow(x: u16, y: u16, c: char) -> (r: PickerCell)
    ensures
        r@ == arrow_cell(x as int, y as int, c),
{
    PickerCell { x, y, text: text_of(c), style: PickerStyle::Arrow }
}

/// What the calendar picker holds: today, the selected day, and the day
/// that is locked in, if any.
#[derive(Debug, Clone, Copy, PartialEq, Eq, Structural)]
pub struct CalendarPicerState {
    pub(crate) current: Date,
    pub(crate) selected: Date,
    pub(crate) locked_in: Option<Date>,
}

/// How a day of the calendar picker is drawn.
#[derive(Debug, Clone, Copy, PartialEq, Eq, Structural)]
pub enum DayKind {
    /// A day like any other.
    Normal,
    /// Today.
    Today,
    /// The day that is locked in.
    Locked,
}

/// One day of the month as the calendar picker shows it: the column and
/// row it stands in, counted from the first row of days, the day of the
/// month, how it is drawn, and whether it is the selected day.
#[derive(Debug, Clone, Copy, PartialEq, Eq, Structural)]
pub struct DayCell {
    pub x: u16,
    pub y: u16,
    pub day: u32,
    pub kind: DayKind,
    pub selected: bool,
}

/// The same month of the same year.
pub open spec fn same_month(a: Date, b: Date) -> bool {
    a.y() == b.y() && a.m() == b.m()
}

impl CalendarPicerState {
    /// The day it is.
    pub open(crate) spec fn today(self) -> Date {
        self.current
    }

    /// The selected day.
    pub open(crate) spec fn chosen(self) -> Date {
        self.selected
    }

    /// The day that is locked in.
    pub open(crate) spec fn locked_day(self) -> Option<Date> {
        self.locked_in
    }

    /// How the day `day` of the shown month is drawn: as locked in if it
    /// is, else as today if it is, else as any other day.
    pub open spec fn kind_of_day(self, day: int) -> DayKind {
        if self.locked_day() matches Some(locked) && locked.d() == day && same_month(
            locked,
            self.chosen(),
        ) {
            DayKind::Locked
        } else if self.today().d() == day && same_month(self.today(), self.chosen()) {
            DayKind::Today
        } else {
            DayKind::Normal
        }
    }

    /// The day of the week of the first day of the shown month, counted
    /// from Monday as 0.
    pub open spec fn first_weekday(self) -> int {
        (self.chosen().number() - self.chosen().d() + 1 + 6) % 7
    }

    /// The cell of the day `day` of the shown month: the days stand in
    /// rows of seven from Monday to Sunday, three columns apart, the
    /// first column being left free.
    pub open spec fn cell_of_day(self, day: int) -> DayCell {
        let slot = self.first_weekday() + day - 1;
        DayCell {
            x: (1 + (slot % 7) * 3) as u16,
            y: (slot / 7) as u16,
            day: day as u32,
            kind: self.kind_of_day(day),
            selected: day == self.chosen().d(),
        }
    }

    /// The state on the day `today`, with `selected` selected and locked
    /// in; with today selected where there is none.
    pub fn new(selected: Option<Date>, today: Date) -> (r: CalendarPicerState)
        ensures
            r.today() == today,
            r.locked_day() == selected,
            r.chosen() == match selected {
                Some(date) => date,
                None => today,
            },
    {
        CalendarPicerState {
            current: today,
            selected: match selected {
                Some(date) => date,
                None => today,
            },
            locked_in: selected,
        }
    }

    /// The day that is locked in.
    pub fn locked(&self) -> (r: Option<Date>)
        ensures
            r == self.locked_day(),
    {
        self.locked_in
    }

    /// The selected day.
    pub fn selected(&self) -> (r: Date)
        ensures
            r == self.chosen(),
    {
        self.selected
    }

    /// Selects today.
    pub fn select_today(&mut self)
        ensures
            final(self).chosen() == old(self).today(),
            final(self).today() == old(self).today(),
            final(self).locked_day() == old(self).locked_day(),
    {
        self.selected = self.current;
    }

    /// Selects the day that is locked in, where there is one.
    pub fn select_locked(&mut self)
        ensures
            final(self).chosen() == match old(self).locked_day() {
                Some(date) => date,
                None => old(self).chosen(),
            },
            final(self).today() == old(self).today(),
            final(self).locked_day() == old(self).locked_day(),
    {
        if let Some(locked) = self.locked_in {
            self.selected = locked;
        }
    }

    /// Locks the selected day in.
    pub fn lock_selected(&mut self)
        ensures
            final(self).locked_day() == Some(old(self).chosen()),
            final(self).today() == old(self).today(),
            final(self).chosen() == old(self).chosen(),
    {
        self.locked_in = Some(self.selected);
    }

    /// Forgets the day that is locked in.
    pub fn clear_locked(&mut self)
        ensures
            final(self).locked_day() is None,
            final(self).today() == old(self).today(),
            final(self).chosen() == old(self).chosen(),
    {
        self.locked_in = None;
    }

    /// Whether the day `days` days after the selected one, or before it
    /// for a negative number, is a day that can be held.
    pub fn can_move(&self, days: i32) -> (r: bool)
        ensures
            r == (first_day_number() <= self.chosen().number() + days <= last_day_number()),
    {
        let selected = self.selected;
        proof {
            use_type_invariant(&selected);
            lemma_number_in_range(selected);
        }
        if days >= 0 {
            chrono_add_days(selected, days as u64).is_some()
        } else {
            chrono_sub_days(selected, (-(days as i64)) as u64).is_some()
        }
    }

    /// Selects the day `days` days after the selected one.
    fn move_forward(&mut self, days: u64)
        requires
            old(self).chosen().number() + days <= last_day_number(),
        ensures
            old(self).chosen().days_until(final(self).chosen(), days as int),
            final(self).today() == old(self).today(),
            final(self).locked_day() == old(self).locked_day(),
    {
        let selected = self.selected;
        proof {
            use_type_invariant(&selected);
        }
        match chrono_add_days(selected, days) {
            Some(date) => {
                self.selected = date;
            },
            None => {},
        }
    }

    /// Selects the day `days` days before the selected one.
    fn move_back(&mut self, days: u64)
        requires
            old(self).chosen().number() - days >= first_day_number(),
        ensures
            final(self).chosen().days_until(old(self).chosen(), days as int),
            final(self).today() == old(self).today(),
            final(self).locked_day() == old(self).locked_day(),
    {
        let selected = self.selected;
        proof {
            use_type_invariant(&selected);
        }
        match chrono_sub_days(selected, days) {
            Some(date) => {
                self.selected = date;
            },
            None => {},
        }
    }

    /// Selects the day after the selected one.
    pub fn select_next(&mut self)
        requires
            old(self).chosen().number() + 1 <= last_day_number(),
        ensures
            old(self).chosen().days_until(final(self).chosen(), 1),
            final(self).today() == old(self).today(),
            final(self).locked_day() == old(self).locked_day(),
    {
        self.move_forward(1);
    }

    /// Selects the day before the selected one.
    pub fn select_previous(&mut self)
        requires
            old(self).chosen().number() - 1 >= first_day_number(),
        ensures
            final(self).chosen().days_until(old(self).chosen(), 1),
            final(self).today() == old(self).today(),
            final(self).locked_day() == old(self).locked_day(),
    {
        self.move_back(1);
    }

    /// Selects the day a week before the selected one.
    pub fn select_previous_week(&mut self)
        requires
            old(self).chosen().number() - 7 >= first_day_number(),
        ensures
            final(self).chosen().days_until(old(self).chosen(), 7),
            final(self).today() == old(self).today(),
            final(self).locked_day() == old(self).locked_day(),
    {
        self.move_back(7);
    }

    /// Selects the day a week after the selected one.
    pub fn select_next_week(&mut self)
        requires
            old(self).chosen().number() + 7 <= last_day_number(),
        ensures
            old(self).chosen().days_until(final(self).chosen(), 7),
            final(self).today() == old(self).today(),
            final(self).locked_day() == old(self).locked_day(),
    {
        self.move_forward(7);
    }

    /// Whether the day `day` of the shown month is drawn as locked in, as
    /// today, or as any other day.
    pub fn day_kind(&self, day: u32) -> (r: DayKind)
        ensures
            r == self.kind_of_day(day as int),
    {
        if let Some(locked) = self.locked_in {
            if locked.day() == day && locked.month() == self.selected.month() && locked.year()
                == self.selected.year() {
                return DayKind::Locked;
            }
        }
        if self.current.day() == day && self.current.month() == self.selected.month()
            && self.current.year() == self.selected.year() {
            DayKind::Today
        } else {
            DayKind::Normal
        }
    }

    /// The days of the shown month, each with its place in the picker.
    pub fn cells(&self) -> (r: Vec<DayCell>)
        ensures
            r@.len() == days_in_month(self.chosen().y(), self.chosen().m()),
            forall|k: int| 0 <= k < r@.len() ==> #[trigger] r@[k] == self.cell_of_day(k + 1),
    {
        let selected = self.selected;
        proof {
            use_type_invariant(&selected);
        }
        let weekday = chrono_weekday(selected);
        // The first of the month lies `day - 1` days before the selected day.
        let back: u32 = (selected.day() - 1) % 7;
        let first: u32 = (weekday + 7 - back) % 7;
        assert(first == self.first_weekday());
        let last = month_length(selected.year(), selected.month());
        let mut out: Vec<DayCell> = Vec::new();
        let mut day: u32 = 1;
        while day <= last
            invariant
                1 <= day <= last + 1,
                last <= 31,
                first < 7,
                first == self.first_weekday(),
                selected == self.chosen(),
                out@.len() == day - 1,
                forall|k: int| 0 <= k < out@.len() ==> #[trigger] out@[k] == self.cell_of_day(k + 1),
            decreases last + 1 - day,
        {
            let slot: u32 = first + day - 1;
            let cell = DayCell {
                x: (1 + (slot % 7) * 3) as u16,
                y: (slot / 7) as u16,
                day,
                kind: self.day_kind(day),
                selected: day == selected.day(),
            };
            out.push(cell);
            day = day + 1;
        }
        out
    }
}

/// The width and height that the calendar picker takes on the screen: seven
/// days of three columns and one more column, and six rows of days under
/// three rows of headings.
pub fn calendar_size() -> (r: (u16, u16))
    ensures
        r.0 == 22,
        r.1 == 9,
{
    (1 + 3 * 7, 6 + 3)
}

/// A scroll bar: the position of the first line shown, the number of all
/// lines, and the number of lines that fit on the screen.
#[derive(Debug, Clone, Copy, PartialEq, Eq, Structural)]
pub struct ScrollBar {
    pub pos: usize,
    pub total: usize,
    pub view: usize,
}

impl ScrollBar {
    /// Nothing is drawn where all lines fit and the first line is shown.
    pub open spec fn is_hidden(self) -> bool {
        self.pos == 0 && self.total <= self.view
    }

    /// Whether the bar is drawn at all.
    pub fn is_shown(&self) -> (r: bool)
        ensures
            r == !self.is_hidden(),
    {
        !(self.pos == 0 && self.total <= self.view)
    }

    /// By how many lines the list can scroll.
    pub fn possible_scroll(&self) -> (r: usize)
        requires
            self.total >= self.view,
        ensures
            r == self.total - self.view,
    {
        self.total - self.view
    }

    /// The height of the bar in a track of `track` rows: the rows that are
    /// left when one row is taken for each line that the list can scroll
    /// by, but one row at least.
    pub fn bar_height(&self, track: u16) -> (r: u16)
        requires
            self.total >= self.view,
        ensures
            r == if track > self.total - self.view && track - (self.total - self.view) >= 1 {
                track - (self.total - self.view)
            } else {
                1
            },
            1 <= r,
            r <= track || r == 1,
    {
        let scroll = self.total - self.view;
        if scroll < track as usize {
            track - scroll as u16
        } else {
            1
        }
    }
}

} // verus!
