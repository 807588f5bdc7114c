//! What a recurrence rule makes of a date, and what completing a task does
//! to it.

use vstd::prelude::*;

use crate::date::{chrono_add_days, chrono_add_months, last_day_number, Date};
use crate::todo::{ItemView, Recurring, RecurringUnit, TodoItem};

verus! {

impl Recurring {
    /// The date that the rule counts from: `today` for a relative rule,
    /// else the date itself.
    pub open spec fn base(self, date: Date, today: Date) -> Date {
        if self.rel() {
            today
        } else {
            date
        }
    }

    /// The rule makes `next` of `date`: that many days, weeks of seven
    /// days, months, or years of twelve months after the date it counts
    /// from. Months later means the same day of the month, or the last day
    /// of a month that is too short.
    pub open spec fn advances(self, date: Date, today: Date, next: Date) -> bool {
        let base = self.base(date, today);
        match self.per() {
            RecurringUnit::Days => base.days_until(next, self.amt()),
            RecurringUnit::Weeks => base.days_until(next, self.amt() * 7),
            RecurringUnit::Months => base.plus_months(self.amt()) == Some(next),
            RecurringUnit::Years => base.plus_months(self.amt() * 12) == Some(next),
        }
    }

    /// What the rule makes of `date` is a date that can be held: it does
    /// not lie past the last one.
    pub open spec fn has_next(self, date: Date, today: Date) -> bool {
        let base = self.base(date, today);
        match self.per() {
            RecurringUnit::Days => base.number() + self.amt() <= last_day_number(),
            RecurringUnit::Weeks => base.number() + self.amt() * 7 <= last_day_number(),
            RecurringUnit::Months => base.plus_months(self.amt()) is Some,
            RecurringUnit::Years => base.plus_months(self.amt() * 12) is Some,
        }
    }

    /// What the rule makes of `date`, or `None` where that lies past the
    /// last date.
    pub fn checked_apply(&self, date: Date, today: Date) -> (r: Option<Date>)
        ensures
            r is Some <==> self.has_next(date, today),
            r matches Some(next) ==> self.advances(date, today, next) && next.inv(),
    {
        let base = if self.relative {
            today
        } else {
            date
        };
        proof {
            use_type_invariant(&base);
            use_type_invariant(self);
        }
        match self.unit {
            RecurringUnit::Days => chrono_add_days(base, self.amount as u64),
            RecurringUnit::Weeks => chrono_add_days(base, self.amount as u64 * 7),
            RecurringUnit::Months => {
                let r = chrono_add_months(base, self.amount);
                proof {
                    lemma_plus_months_valid(base, self.amount as int);
                }
                r
            },
            RecurringUnit::Years => {
                if self.amount > 100_000_000 {
                    assert(base.plus_months(self.amt() * 12) is None) by {
                        let total = base.y() * 12 + (base.m() - 1) + self.amt() * 12;
                        assert(total >= (base.y() + self.amt()) * 12);
                        assert(total / 12 >= base.y() + self.amt());
                    }
                    None
                } else {
                    let r = chrono_add_months(base, self.amount * 12);
                    proof {
                        lemma_plus_months_valid(base, self.amount as int * 12);
                    }
                    r
                }
            },
        }
    }

    /// What the rule makes of `date`.
    pub fn apply(&self, date: Date, today: Date) -> (r: Date)
        requires
            self.has_next(date, today),
        ensures
            self.advances(date, today, r),
    {
        match self.checked_apply(date, today) {
            Some(next) => next,
            None => unreached(),
        }
    }
}

/// A date so many months after a day of the calendar is a day of the
/// calendar.
pub proof fn lemma_plus_months_valid(date: Date, months: int)
    requires
        date.inv(),
        months >= 0,
    ensures
        date.plus_months(months) matches Some(next) ==> next.inv(),
{
    let total = date.y() * 12 + (date.m() - 1) + months;
    assert(total / 12 >= date.y()) by {
        assert(total >= date.y() * 12);
    }
}

impl ItemView {
    /// The task after its completion was toggled on the day `today`: an
    /// open task is completed, with `today` as completion date if it has a
    /// creation date; a completed task is open again, without completion
    /// date.
    pub open spec fn toggled(self, today: Date) -> ItemView {
        ItemView {
            completed: !self.completed,
            priority: self.priority,
            content: self.content,
            creation_date: self.creation_date,
            completion_date: if !self.completed && self.creation_date is Some {
                Some(today)
            } else {
                None
            },
            due: self.due,
            t: self.t,
            rec: self.rec,
        }
    }

    /// Completing the task brings a new task: it is open and has a
    /// recurrence rule.
    pub open spec fn recurs(self) -> bool {
        !self.completed && self.rec is Some
    }

    /// What the rule of the task makes of its due date and of its threshold
    /// date are dates that can be held.
    pub open spec fn can_recur(self, today: Date) -> bool {
        self.rec matches Some(rule) ==> {
            &&& self.due matches Some(date) ==> rule.has_next(date, today)
            &&& self.t matches Some(date) ==> rule.has_next(date, today)
        }
    }

    /// The rule of the task makes `next` of `date`, where there is a date.
    pub open spec fn moves(self, date: Option<Date>, today: Date, next: Option<Date>) -> bool {
        match date {
            Some(d) => next matches Some(n) && self.rec->0.advances(d, today, n),
            None => next is None,
        }
    }

    /// `next` is the task that comes when the task is completed on the
    /// day `today`: a copy that is open, that was created on that day if
    /// the task has a creation date, and whose due and threshold dates are
    /// what the rule makes of those of the task.
    pub open spec fn is_followed_by(self, today: Date, next: ItemView) -> bool {
        &&& !next.completed
        &&& next.completion_date is None
        &&& next.priority == self.priority
        &&& next.content == self.content
        &&& next.rec == self.rec
        &&& next.creation_date == if self.creation_date is Some {
            Some(today)
        } else {
            None
        }
        &&& self.moves(self.due, today, next.due)
        &&& self.moves(self.t, today, next.t)
    }
}

impl TodoItem {
    /// Whether the task can be completed on the day `today`: what its rule
    /// makes of its dates does not lie past the last date.
    pub fn can_toggle(&self, today: Date) -> (r: bool)
        ensures
            r == (self@.recurs() ==> self@.can_recur(today)),
    {
        if self.completed {
            return true;
        }
        match self.rec {
            None => true,
            Some(rule) => {
                let due_fits = match self.due {
                    Some(date) => rule.checked_apply(date, today).is_some(),
                    None => true,
                };
                let t_fits = match self.t {
                    Some(date) => rule.checked_apply(date, today).is_some(),
                    None => true,
                };
                due_fits && t_fits
            },
        }
    }

    /// Toggles the completion of the task on the day `today`. Where an open
    /// task with a recurrence rule is completed, the task that follows it
    /// is returned; whoever holds the list puts it in, unless a task equal
    /// to it in every field is there already.
    pub fn toggle_completion(&mut self, today: Date) -> (next: Option<TodoItem>)
        requires
            old(self)@.recurs() ==> old(self)@.can_recur(today),
        ensures
            final(self)@ == old(self)@.toggled(today),
            old(self)@.wf() ==> final(self)@.wf(),
            next is Some <==> old(self)@.recurs(),
            next matches Some(item) ==> old(self)@.is_followed_by(today, item@),
    {
        let next = if self.completed {
            None
        } else {
            match self.rec {
                None => None,
                Some(rule) => {
                    let due = match self.due {
                        Some(date) => Some(rule.apply(date, today)),
                        None => None,
                    };
                    let t = match self.t {
                        Some(date) => Some(rule.apply(date, today)),
                        None => None,
                    };
                    Some(
                        TodoItem {
                            completed: false,
                            priority: self.priority,
                            content: self.content.clone(),
                            creation_date: if self.creation_date.is_some() {
                                Some(today)
                            } else {
                                None
                            },
                            completion_date: None,
                            due,
                            t,
                            rec: self.rec,
                        },
                    )
                },
            }
        };
        self.completion_date = if !self.completed && self.creation_date.is_some() {
            Some(today)
        } else {
            None
        };
        self.completed = !self.completed;
        next
    }
}

} // verus!
