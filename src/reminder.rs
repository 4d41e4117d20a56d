use vstd::prelude::*;

use crate::render::{joined, render_lines, stamp_in_range, stamps_fit};
use crate::display::{push_line, lines_view, text_lines, DisplayLine, Emphasis, Label, LineView};

verus! {

/// A recurrence rule that generates tasks. Timestamps and the period are in
/// seconds.
pub struct Reminder {
    pub id: u64,
    pub title: String,
    pub description: Option<String>,
    pub created: i64,
    /// Due time of the first occurrence.
    pub first_due: i64,
    /// Time between two occurrences.
    pub period: i64,
    /// Exclusive upper bound on the time during which the reminder is active.
    pub until: Option<i64>,
}

impl Reminder {
    /// The period is positive, and the start of the first occurrence (one
    /// period before its due time) is a representable timestamp.
    pub open spec fn wf(&self) -> bool {
        &&& self.period > 0
        &&& self.first_due - self.period >= i64::MIN
    }

    /// Whether the reminder still generates tasks at `now`.
    pub open spec fn active_at(&self, now: int) -> bool {
        match self.until {
            Some(until) => now < until,
            None => true,
        }
    }

    /// Whether the reminder is well formed and its window at `now`, which
    /// ends one period after `now`, is made of representable timestamps.
    pub fn is_ready(&self, now: i64) -> (r: bool)
        ensures
            r == (self.wf() && now + self.period <= i64::MAX),
    {
        self.period > 0 && self.first_due as i128 - self.period as i128 >= i64::MIN as i128
            && now as i128 + self.period as i128 <= i64::MAX as i128
    }

    pub fn is_active(&self, now: i64) -> (r: bool)
        ensures
            r == self.active_at(now as int),
    {
        match self.until {
            Some(until) => now < until,
            None => true,
        }
    }
}

/// The first of `first`, `first + period`, ... that is at or after `now`.
pub open spec fn next_due_from(first: int, period: int, now: int) -> int
    decreases (if period > 0 && first < now { now - first } else { 0 }),
{
    if period > 0 && first < now {
        next_due_from(first + period, period, now)
    } else {
        first
    }
}

/// The lines of a reminder's listing, built by `Reminder::display`.
pub struct ReminderDisplay {
    pub lines: Vec<DisplayLine>,
}

/// What a verbose listing of `r` adds below the heading: creation time,
/// first due time, end of activity, the next due time at `now` and the
/// description.
pub open spec fn reminder_details(r: Reminder, now: i64) -> Seq<LineView> {
    seq![
        LineView::Stamp { label: Label::Created, at: r.created, emphasis: Emphasis::Plain },
        LineView::Stamp { label: Label::FirstDue, at: r.first_due, emphasis: Emphasis::Plain },
    ] + match r.until {
        Some(u) => seq![LineView::Stamp { label: Label::Until, at: u, emphasis: Emphasis::Plain }],
        None => Seq::empty(),
    } + seq![
        LineView::Stamp {
            label: Label::NextDue,
            at: next_due_from(r.first_due as int, r.period as int, now as int) as i64,
            emphasis: Emphasis::Plain,
        },
    ] + text_lines(r.description)
}

/// The listing of `r` at `now`: nothing for an inactive reminder unless
/// `all`; else the heading (highlighted as done when inactive, outside
/// verbose listings), and with `verbose` the details.
pub open spec fn reminder_lines(r: Reminder, all: bool, verbose: bool, now: i64) -> Seq<LineView> {
    let active = r.active_at(now as int);
    if !all && !active {
        Seq::empty()
    } else {
        let heading = LineView::Heading {
            done: !active,
            id: r.id,
            title: r.title@,
            emphasis: if !verbose && !active {
                Emphasis::Done
            } else {
                Emphasis::Plain
            },
        };
        seq![heading] + if verbose {
            reminder_details(r, now)
        } else {
            Seq::empty()
        }
    }
}

impl Reminder {
    /// The due time of the first occurrence at or after `now`.
    pub fn next_due(&self, now: i64) -> (r: i64)
        requires
            self.wf(),
            now + self.period <= i64::MAX,
        ensures
            r == next_due_from(self.first_due as int, self.period as int, now as int),
    {
        let mut due: i64 = self.first_due;
        while due < now
            invariant
                self.wf(),
                now + self.period <= i64::MAX,
                next_due_from(due as int, self.period as int, now as int) == next_due_from(
                    self.first_due as int,
                    self.period as int,
                    now as int,
                ),
            decreases now + self.period - due,
        {
            due = due + self.period;
        }
        due
    }

    /// The lines that list the reminder at `now`.
    pub fn display(&self, all: bool, verbose: bool, now: i64) -> (r: ReminderDisplay)
        requires
            verbose ==> self.wf() && now + self.period <= i64::MAX,
        ensures
            lines_view(r.lines@) == reminder_lines(*self, all, verbose, now),
    {
        let mut lines: Vec<DisplayLine> = Vec::new();
        proof {
            assert(lines_view(lines@) =~= Seq::empty());
        }
        let active = self.is_active(now);
        if !all && !active {
            return ReminderDisplay { lines };
        }
        let emphasis = if !verbose && !active {
            Emphasis::Done
        } else {
            Emphasis::Plain
        };
        push_line(
            &mut lines,
            DisplayLine::Heading { done: !active, id: self.id, title: self.title.clone(), emphasis },
        );
        if verbose {
            push_line(
                &mut lines,
                DisplayLine::Stamp { label: Label::Created, at: self.created, emphasis: Emphasis::Plain },
            );
            push_line(
                &mut lines,
                DisplayLine::Stamp { label: Label::FirstDue, at: self.first_due, emphasis: Emphasis::Plain },
            );
            if let Some(u) = self.until {
                push_line(&mut lines, DisplayLine::Stamp { label: Label::Until, at: u, emphasis: Emphasis::Plain });
            }
            let next = self.next_due(now);
            push_line(&mut lines, DisplayLine::Stamp { label: Label::NextDue, at: next, emphasis: Emphasis::Plain });
            if let Some(desc) = &self.description {
                push_line(&mut lines, DisplayLine::Text { text: desc.clone() });
            }
        }
        proof {
            assert(lines_view(lines@) =~= reminder_lines(*self, all, verbose, now));
        }
        ReminderDisplay { lines }
    }
}

/// A listing that is not `all` shows nothing of a reminder that is inactive
/// at `now` (its `until` at or before `now`); one that is `all` shows every
/// reminder, its heading first.
pub proof fn lemma_reminder_display_filter(r: Reminder, verbose: bool, now: i64)
    ensures
        (reminder_lines(r, false, verbose, now).len() == 0) == !r.active_at(now as int),
        r.until is Some && now >= r.until->0 ==> reminder_lines(r, false, verbose, now).len() == 0,
        reminder_lines(r, true, verbose, now).len() > 0,
        reminder_lines(r, true, verbose, now)[0] is Heading,
{
}

impl ReminderDisplay {
    /// The listing as text, one line each, timestamps in local time;
    /// `None` only when a timestamp is out of range.
    pub fn to_text(&self) -> (r: Option<String>)
        ensures
            (forall|i: int|
                0 <= i < lines_view(self.lines@).len() ==> stamp_in_range(
                    #[trigger] lines_view(self.lines@)[i],
                )) ==> r is Some,
            r matches Some(s) ==> exists|stamps: Seq<Seq<char>>|
                stamps_fit(lines_view(self.lines@), stamps) && s@ == #[trigger] joined(lines_view(self.lines@), stamps),
    {
        proof {
            assert forall|i: int| 0 <= i < self.lines@.len() implies #[trigger] self.lines@[i]@ == lines_view(
                self.lines@,
            )[i] by {}
        }
        render_lines(&self.lines)
    }
}

} // verus!
